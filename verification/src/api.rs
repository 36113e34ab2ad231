//! The write and read decisions behind the HTTP surface: admission of
//! user registrations, profile updates and posts into the pending
//! pool, and the feed and post-detail reads. The HTTP listener decodes
//! requests, hands the plain values here, and turns the outcome into a
//! response.

use vstd::prelude::*;
use crate::block::signing_string;
use crate::block::size_ok;
use crate::block::BlockData;
use crate::block::BlockDataModel;
use crate::chain::chain_inv;
use crate::chain::Blockchain;
use crate::index::find_user_by_key;
use crate::index::find_user_by_name;
use crate::index::get_post_spec;
use crate::index::hydrate_spec;
use crate::index::strings_model;
use crate::index::PostDetail;
use crate::sign::signature_accepted;
use crate::text::str_eq;

verus! {

/// A user registration request.
#[derive(Debug)]
pub struct UserCreateRequest {
    pub display_name: String,
    pub username: String,
    pub biography: String,
    pub public_key: String,
    pub signature: String,
}

/// A profile update request.
#[derive(Debug)]
pub struct UserUpdateRequest {
    pub display_name: String,
    pub biography: String,
    pub public_key: String,
    pub signature: String,
}

/// A post submission request.
#[derive(Debug)]
pub struct PostRequest {
    pub body: String,
    pub reply: Option<String>,
    pub public_key: String,
    pub signature: String,
}

/// An error payload, as serialized to clients.
#[derive(Debug)]
pub struct ErrorReply {
    pub message: String,
}

/// The outcome of a write request: accepted with no content, or
/// rejected with a status code and a message.
#[derive(Debug)]
pub enum ApiOutcome {
    NoContent,
    Rejected { status: u16, message: String },
}

/// The outcome rejects with this status and message.
pub open spec fn rejected_with(r: ApiOutcome, status: u16, message: Seq<char>) -> bool {
    match r {
        ApiOutcome::Rejected { status: s, message: m } => s == status && m@ == message,
        _ => false,
    }
}

/// The payload of a registration request.
pub open spec fn user_create_data(req: &UserCreateRequest) -> BlockDataModel {
    BlockDataModel::User {
        display_name: req.display_name@,
        username: req.username@,
        biography: req.biography@,
    }
}

/// The payload of a profile update request.
pub open spec fn user_update_data(req: &UserUpdateRequest) -> BlockDataModel {
    BlockDataModel::UserUpdate { display_name: req.display_name@, biography: req.biography@ }
}

/// The payload of a post request.
pub open spec fn post_data(req: &PostRequest) -> BlockDataModel {
    BlockDataModel::Post {
        body: req.body@,
        reply: match &req.reply {
            Some(r) => Some(r@),
            None => None,
        },
    }
}

/// A submitted record reaches the pool exactly when its signature
/// verifies over the canonical signing string of its payload and its
/// fields are within the size limits.
pub open spec fn record_admitted(data: BlockDataModel, pk: Seq<char>, sig: Seq<char>) -> bool {
    signature_accepted(pk, sig, signing_string(data)) && size_ok(data)
}

/// Handle a user registration: reject a taken username or public key
/// with a descriptive message, otherwise submit the record to the
/// pending pool. As with every write, a record whose signature or
/// sizes fail validation is dropped and the request still succeeds;
/// the record then never reaches the ledger.
pub fn handle_user_create(req: UserCreateRequest, chain: &mut Blockchain) -> (r: ApiOutcome)
    requires
        chain_inv(old(chain)),
    ensures
        chain_inv(final(chain)),
        final(chain).store@ == old(chain).store@,
        final(chain).index@ == old(chain).index@,
        find_user_by_name(old(chain).index@.users, req.username@) is Some ==> rejected_with(
            r,
            422,
            "Username is already taken."@,
        ) && final(chain).mpool@ == old(chain).mpool@,
        (find_user_by_name(old(chain).index@.users, req.username@) is None && find_user_by_key(
            old(chain).index@.users,
            req.public_key@,
        ) is Some) ==> rejected_with(r, 422, "Public key is already taken."@) && final(chain).mpool@ == old(chain).mpool@,
        (find_user_by_name(old(chain).index@.users, req.username@) is None && find_user_by_key(
            old(chain).index@.users,
            req.public_key@,
        ) is None) ==> r is NoContent && (if record_admitted(
            user_create_data(&req),
            req.public_key@,
            req.signature@,
        ) {
            final(chain).mpool@.len() == old(chain).mpool@.len() + 1 && final(chain).mpool@.last()@.data == user_create_data(&req) && final(chain).mpool@.last()@.public_key
                == req.public_key@ && final(chain).mpool@.last()@.signature == req.signature@
        } else {
            final(chain).mpool@ == old(chain).mpool@
        }),
{
    if chain.index.has_username(req.username.as_str()) {
        return ApiOutcome::Rejected {
            status: 422,
            message: "Username is already taken.".to_owned(),
        };
    }
    if chain.index.has_pubkey(req.public_key.as_str()) {
        return ApiOutcome::Rejected {
            status: 422,
            message: "Public key is already taken.".to_owned(),
        };
    }
    let pending = crate::block::PendingBlock::new(
        BlockData::User {
            display_name: req.display_name,
            username: req.username,
            biography: req.biography,
        },
        req.public_key,
        req.signature,
    );
    let _ = chain.push_mempool(pending);
    ApiOutcome::NoContent
}

/// Handle a profile update: the path key must match the record's key,
/// otherwise the record is submitted to the pending pool.
pub fn handle_user_update(public_key: String, req: UserUpdateRequest, chain: &mut Blockchain) -> (r:
    ApiOutcome)
    requires
        chain_inv(old(chain)),
    ensures
        chain_inv(final(chain)),
        final(chain).store@ == old(chain).store@,
        final(chain).index@ == old(chain).index@,
        public_key@ != req.public_key@ ==> rejected_with(r, 401, "Public key does not match."@)
            && final(chain).mpool@ == old(chain).mpool@,
        public_key@ == req.public_key@ ==> r is NoContent && (if record_admitted(
            user_update_data(&req),
            req.public_key@,
            req.signature@,
        ) {
            final(chain).mpool@.len() == old(chain).mpool@.len() + 1 && final(chain).mpool@.last()@.data == user_update_data(&req) && final(chain).mpool@.last()@.public_key
                == req.public_key@ && final(chain).mpool@.last()@.signature == req.signature@
        } else {
            final(chain).mpool@ == old(chain).mpool@
        }),
{
    if !str_eq(public_key.as_str(), req.public_key.as_str()) {
        return ApiOutcome::Rejected {
            status: 401,
            message: "Public key does not match.".to_owned(),
        };
    }
    let pending = crate::block::PendingBlock::new(
        BlockData::UserUpdate { display_name: req.display_name, biography: req.biography },
        public_key,
        req.signature,
    );
    let _ = chain.push_mempool(pending);
    ApiOutcome::NoContent
}

/// Handle a post submission: a body over the limit is rejected with a
/// descriptive message, otherwise the record is submitted to the
/// pending pool.
pub fn handle_post_create(req: PostRequest, chain: &mut Blockchain) -> (r: ApiOutcome)
    requires
        chain_inv(old(chain)),
    ensures
        chain_inv(final(chain)),
        final(chain).store@ == old(chain).store@,
        final(chain).index@ == old(chain).index@,
        req.body@.len() > 300 ==> rejected_with(
            r,
            422,
            "Post body cannot exceed 300 characters."@,
        ) && final(chain).mpool@ == old(chain).mpool@,
        req.body@.len() <= 300 ==> r is NoContent && (if record_admitted(
            post_data(&req),
            req.public_key@,
            req.signature@,
        ) {
            final(chain).mpool@.len() == old(chain).mpool@.len() + 1 && final(chain).mpool@.last()@.data == post_data(&req) && final(chain).mpool@.last()@.public_key
                == req.public_key@ && final(chain).mpool@.last()@.signature == req.signature@
        } else {
            final(chain).mpool@ == old(chain).mpool@
        }),
{
    if req.body.as_str().unicode_len() > 300 {
        return ApiOutcome::Rejected {
            status: 422,
            message: "Post body cannot exceed 300 characters.".to_owned(),
        };
    }
    let pending = crate::block::PendingBlock::new(
        BlockData::Post { body: req.body, reply: req.reply },
        req.public_key,
        req.signature,
    );
    let _ = chain.push_mempool(pending);
    ApiOutcome::NoContent
}

/// Handle the feed read: absent query parts default to no username
/// filter, a limit of 32 and an offset of zero; the filtered feed is
/// hydrated with replies and parents.
pub fn handle_feed(
    chain: &Blockchain,
    user: Option<Vec<String>>,
    limit: Option<usize>,
    offset: Option<usize>,
) -> (r: Vec<PostDetail>)
    requires
        chain_inv(chain),
    ensures
        ({
            let names = match user {
                Some(u) => strings_model(u@),
                None => Seq::empty(),
            };
            let lim = match limit {
                Some(l) => l as nat,
                None => 32,
            };
            let off = match offset {
                Some(o) => o as nat,
                None => 0,
            };
            let feed = crate::index::feed_spec(chain.index@, names, lim, off);
            r@.len() == feed.len() && forall|i: int|
                0 <= i < r@.len() ==> (#[trigger] r@[i])@ == hydrate_spec(chain.index@, feed[i])
        }),
{
    let users = match user {
        Some(u) => u,
        None => Vec::new(),
    };
    proof {
        if user is None {
            assert(strings_model(Seq::<String>::empty()) =~= Seq::<Seq<char>>::empty());
        }
    }
    let lim = match limit {
        Some(l) => l,
        None => 32,
    };
    let off = match offset {
        Some(o) => o,
        None => 0,
    };
    let feed = chain.index.get_feed(users, lim, off);
    let details = chain.index.hydrate_feed(feed);
    details
}

/// Handle a post detail read: the joined post with this hash, hydrated
/// with its replies and parent; `None` when the post is unknown.
pub fn handle_post_detail(chain: &Blockchain, hash: &str) -> (r: Option<PostDetail>)
    requires
        chain_inv(chain),
    ensures
        r is Some <==> get_post_spec(chain.index@, hash@) is Some,
        r matches Some(d) ==> get_post_spec(chain.index@, hash@) matches Some(p) && d@
            == hydrate_spec(chain.index@, p),
{
    match chain.index.get_post(hash) {
        Some(post) => Some(chain.index.hydrate_post(post)),
        None => None,
    }
}

} // verus!
