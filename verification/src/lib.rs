//! A decentralized microblogging node: an append-only, hash-linked,
//! signature-verified ledger of user registrations and short posts,
//! with a derived query index and a pull-based replication protocol.

use vstd::prelude::*;

pub mod api;
pub mod block;
pub mod chain;
pub mod hashing;
pub mod index;
pub mod input;
pub mod jsontext;
pub mod message;
pub mod node;
pub mod sign;
pub mod store;
pub mod text;

verus! {

/// Number of leading `'0'` characters a mined block hash must carry.
pub open spec fn spec_difficulty() -> nat {
    3
}

/// A hash string meets difficulty `d` when it begins with `d` zeros.
pub open spec fn meets_difficulty(h: Seq<char>, d: nat) -> bool {
    h.len() >= d && forall|i: int| 0 <= i < d ==> h[i] == '0'
}

} // verus!
