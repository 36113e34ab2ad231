//! The hash function used for block linkage and proof-of-work.

use vstd::prelude::*;
use sha2::Digest;
use sha2::Sha256;

verus! {

/// The lowercase hex rendering of the SHA-256 digest of the UTF-8 bytes
/// of a character sequence.
pub uninterp spec fn sha256_hex_of(s: Seq<char>) -> Seq<char>;

/// Relies on `sha2::Sha256` (`Digest::new`, `Digest::update`,
/// `Digest::finalize`) and on the `LowerHex` rendering of the digest:
/// SHA-256 is a function of the input bytes alone, its digest is 32
/// bytes, and the hex rendering prints two lowercase digits per byte.
#[verifier::external_body]
pub(crate) fn sha256_hex(input: &str) -> (r: String)
    ensures
        r@ == sha256_hex_of(input@),
        r@.len() == 64,
{
    let mut hasher = Sha256::new();
    hasher.update(input.as_bytes());
    format!("{:x}", hasher.finalize())
}

} // verus!
