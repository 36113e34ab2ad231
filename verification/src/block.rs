//! The ledger record: block data variants, canonical JSON rendering,
//! the canonical signing string, hash linkage and proof-of-work mining.

use vstd::prelude::*;
use vstd::string::StrSliceExecFns;
use vstd::string::StringExecFns;
use crate::hashing::sha256_hex;
use crate::hashing::sha256_hex_of;
use crate::jsontext::append_json_string;
use crate::jsontext::json_string;
use crate::meets_difficulty;
use crate::sign::signature_accepted;
use crate::sign::sig_error_variant;
use crate::sign::validate_signature;
use crate::sign::ValidationError;
use crate::spec_difficulty;
use crate::text::dec_str;
use crate::text::u64_to_string;

verus! {

/// The tagged record payload of a block.
#[derive(Debug)]
pub enum BlockData {
    Genesis,
    User { display_name: String, username: String, biography: String },
    UserUpdate { display_name: String, biography: String },
    Post { body: String, reply: Option<String> },
}

/// The mathematical shape of a block payload.
pub ghost enum BlockDataModel {
    Genesis,
    User { display_name: Seq<char>, username: Seq<char>, biography: Seq<char> },
    UserUpdate { display_name: Seq<char>, biography: Seq<char> },
    Post { body: Seq<char>, reply: Option<Seq<char>> },
}

impl View for BlockData {
    type V = BlockDataModel;

    open spec fn view(&self) -> BlockDataModel {
        match self {
            BlockData::Genesis => BlockDataModel::Genesis,
            BlockData::User { display_name, username, biography } => BlockDataModel::User {
                display_name: display_name@,
                username: username@,
                biography: biography@,
            },
            BlockData::UserUpdate { display_name, biography } => BlockDataModel::UserUpdate {
                display_name: display_name@,
                biography: biography@,
            },
            BlockData::Post { body, reply } => BlockDataModel::Post {
                body: body@,
                reply: match reply {
                    Some(r) => Some(r@),
                    None => None,
                },
            },
        }
    }
}

impl Clone for BlockData {
    fn clone(&self) -> (r: Self)
        ensures
            r@ == self@,
    {
        match self {
            BlockData::Genesis => BlockData::Genesis,
            BlockData::User { display_name, username, biography } => BlockData::User {
                display_name: display_name.clone(),
                username: username.clone(),
                biography: biography.clone(),
            },
            BlockData::UserUpdate { display_name, biography } => BlockData::UserUpdate {
                display_name: display_name.clone(),
                biography: biography.clone(),
            },
            BlockData::Post { body, reply } => BlockData::Post {
                body: body.clone(),
                reply: match reply {
                    Some(r) => Some(r.clone()),
                    None => None,
                },
            },
        }
    }
}

/// The canonical JSON rendering of a payload: a `type` discriminator
/// first, then the fields in declaration order.
pub open spec fn json_of(d: BlockDataModel) -> Seq<char> {
    match d {
        BlockDataModel::Genesis => "{\"type\":\"Genesis\"}"@,
        BlockDataModel::User { display_name, username, biography } => "{\"type\":\"User\",\"display_name\":"@
            + json_string(display_name) + ",\"username\":"@ + json_string(username)
            + ",\"biography\":"@ + json_string(biography) + "}"@,
        BlockDataModel::UserUpdate { display_name, biography } => "{\"type\":\"UserUpdate\",\"display_name\":"@
            + json_string(display_name) + ",\"biography\":"@ + json_string(biography) + "}"@,
        BlockDataModel::Post { body, reply } => "{\"type\":\"Post\",\"body\":"@ + json_string(body)
            + ",\"reply\":"@ + (match reply {
            None => "null"@,
            Some(r) => json_string(r),
        }) + "}"@,
    }
}

/// The canonical signing string of a payload: the JSON fields without
/// the `type` discriminator, rendered as `key=<json-value>`, sorted by
/// key and joined with `|`.
pub open spec fn signing_string(d: BlockDataModel) -> Seq<char> {
    match d {
        BlockDataModel::Genesis => Seq::empty(),
        BlockDataModel::User { display_name, username, biography } => "biography="@ + json_string(
            biography,
        ) + "|display_name="@ + json_string(display_name) + "|username="@ + json_string(username),
        BlockDataModel::UserUpdate { display_name, biography } => "biography="@ + json_string(
            biography,
        ) + "|display_name="@ + json_string(display_name),
        BlockDataModel::Post { body, reply } => "body="@ + json_string(body) + (match reply {
            None => "|reply=null"@,
            Some(r) => "|reply="@ + json_string(r),
        }),
    }
}

/// The field keys rendered in the canonical signing string, in order.
pub open spec fn signing_keys(d: BlockDataModel) -> Seq<Seq<char>> {
    match d {
        BlockDataModel::Genesis => seq![],
        BlockDataModel::User { .. } => seq!["biography"@, "display_name"@, "username"@],
        BlockDataModel::UserUpdate { .. } => seq!["biography"@, "display_name"@],
        BlockDataModel::Post { .. } => seq!["body"@, "reply"@],
    }
}

/// The rendered values matching `signing_keys`, in the same order.
pub open spec fn signing_values(d: BlockDataModel) -> Seq<Seq<char>> {
    match d {
        BlockDataModel::Genesis => seq![],
        BlockDataModel::User { display_name, username, biography } => seq![
            json_string(biography),
            json_string(display_name),
            json_string(username),
        ],
        BlockDataModel::UserUpdate { display_name, biography } => seq![
            json_string(biography),
            json_string(display_name),
        ],
        BlockDataModel::Post { body, reply } => seq![
            json_string(body),
            match reply {
                None => "null"@,
                Some(r) => json_string(r),
            },
        ],
    }
}

/// `key=value` pairs joined with `|`.
pub open spec fn join_fields(keys: Seq<Seq<char>>, vals: Seq<Seq<char>>) -> Seq<char>
    recommends
        keys.len() == vals.len(),
    decreases keys.len(),
{
    if keys.len() == 0 {
        Seq::empty()
    } else if keys.len() == 1 {
        keys[0] + "="@ + vals[0]
    } else {
        keys[0] + "="@ + vals[0] + "|"@ + join_fields(keys.skip(1), vals.skip(1))
    }
}

/// The canonical signing string renders exactly the payload's own
/// fields as `key=value` joined with `|`, and the `type` discriminator
/// is not among the keys: equal payloads give equal signing strings,
/// and the discriminator never reaches the signed message.
pub proof fn lemma_signing_string_fields(d: BlockDataModel)
    ensures
        signing_string(d) == join_fields(signing_keys(d), signing_values(d)),
        forall|i: int| 0 <= i < signing_keys(d).len() ==> signing_keys(d)[i] != "type"@,
{
    reveal_strlit("type");
    reveal_strlit("biography");
    reveal_strlit("display_name");
    reveal_strlit("username");
    reveal_strlit("body");
    reveal_strlit("reply");
    reveal_strlit("=");
    reveal_strlit("|");
    reveal_strlit("biography=");
    reveal_strlit("|display_name=");
    reveal_strlit("|username=");
    reveal_strlit("body=");
    reveal_strlit("|reply=");
    reveal_strlit("|reply=null");
    reveal_strlit("null");
    match d {
        BlockDataModel::Genesis => {
        },
        BlockDataModel::User { display_name, username, biography } => {
            let keys = signing_keys(d);
            let vals = signing_values(d);
            let k2 = keys.skip(1);
            let v2 = vals.skip(1);
            let k1 = k2.skip(1);
            let v1 = v2.skip(1);
            assert(k2 =~= seq!["display_name"@, "username"@]);
            assert(v2 =~= seq![json_string(display_name), json_string(username)]);
            assert(k1 =~= seq!["username"@]);
            assert(v1 =~= seq![json_string(username)]);
            assert(join_fields(k1, v1) == "username"@ + "="@ + json_string(username));
            assert(join_fields(k2, v2) == "display_name"@ + "="@ + json_string(display_name) + "|"@
                + join_fields(k1, v1));
            assert(join_fields(keys, vals) == "biography"@ + "="@ + json_string(biography) + "|"@
                + join_fields(k2, v2));
            assert(signing_string(d) =~= join_fields(keys, vals));
        },
        BlockDataModel::UserUpdate { display_name, biography } => {
            let keys = signing_keys(d);
            let vals = signing_values(d);
            let k1 = keys.skip(1);
            let v1 = vals.skip(1);
            assert(k1 =~= seq!["display_name"@]);
            assert(v1 =~= seq![json_string(display_name)]);
            assert(join_fields(k1, v1) == "display_name"@ + "="@ + json_string(display_name));
            assert(join_fields(keys, vals) == "biography"@ + "="@ + json_string(biography) + "|"@
                + join_fields(k1, v1));
            assert(signing_string(d) =~= join_fields(keys, vals));
        },
        BlockDataModel::Post { body, reply } => {
            let keys = signing_keys(d);
            let vals = signing_values(d);
            let k1 = keys.skip(1);
            let v1 = vals.skip(1);
            assert(k1 =~= seq!["reply"@]);
            assert(v1 =~= seq![vals[1]]);
            assert(join_fields(k1, v1) == "reply"@ + "="@ + vals[1]);
            assert(join_fields(keys, vals) == "body"@ + "="@ + json_string(body) + "|"@
                + join_fields(k1, v1));
            assert(signing_string(d) =~= join_fields(keys, vals));
        },
    }
    assert forall|i: int| 0 <= i < signing_keys(d).len() implies signing_keys(d)[i] != "type"@ by {
        match d {
            BlockDataModel::Genesis => {},
            BlockDataModel::User { .. } => {
                assert("biography"@ != "type"@);
                assert("display_name"@ != "type"@);
                assert("username"@ != "type"@);
            },
            BlockDataModel::UserUpdate { .. } => {
                assert("biography"@ != "type"@);
                assert("display_name"@ != "type"@);
            },
            BlockDataModel::Post { .. } => {
                assert("body"@[0] != "type"@[0]);
                assert("reply"@ != "type"@);
            },
        }
    }
}

/// The canonical signing string is a pure function of the payload.
pub proof fn lemma_signing_string_deterministic(d1: BlockDataModel, d2: BlockDataModel)
    requires
        d1 == d2,
    ensures
        signing_string(d1) == signing_string(d2),
{
}

/// The field limits on a payload, in Unicode code points.
pub open spec fn size_ok(d: BlockDataModel) -> bool {
    match d {
        BlockDataModel::Genesis => true,
        BlockDataModel::User { display_name, username, biography } => username.len() <= 255
            && display_name.len() <= 255 && biography.len() <= 300,
        BlockDataModel::UserUpdate { display_name, biography } => display_name.len() <= 255
            && biography.len() <= 300,
        BlockDataModel::Post { body, reply } => body.len() <= 300,
    }
}

/// The message reported for the first field over its limit.
pub open spec fn size_error_message(d: BlockDataModel) -> Seq<char>
    recommends
        !size_ok(d),
{
    match d {
        BlockDataModel::Genesis => Seq::empty(),
        BlockDataModel::User { display_name, username, biography } => if username.len() > 255 {
            "Username exceeds 255 characters."@
        } else if display_name.len() > 255 {
            "Display name exceeds 255 characters."@
        } else {
            "Biography exceeds 300 characters."@
        },
        BlockDataModel::UserUpdate { display_name, biography } => if display_name.len() > 255 {
            "Display name exceeds 255 characters."@
        } else {
            "Biography exceeds 300 characters."@
        },
        BlockDataModel::Post { body, reply } => "Post size exceeds 300 characters."@,
    }
}

impl BlockData {
    /// The canonical JSON form of this payload.
    pub fn to_json(&self) -> (r: String)
        ensures
            r@ == json_of(self@),
    {
        match self {
            BlockData::Genesis => "{\"type\":\"Genesis\"}".to_owned(),
            BlockData::User { display_name, username, biography } => {
                let mut out = String::from_str("{\"type\":\"User\",\"display_name\":");
                append_json_string(&mut out, display_name.as_str());
                out.append(",\"username\":");
                append_json_string(&mut out, username.as_str());
                out.append(",\"biography\":");
                append_json_string(&mut out, biography.as_str());
                out.append("}");
                out
            },
            BlockData::UserUpdate { display_name, biography } => {
                let mut out = String::from_str("{\"type\":\"UserUpdate\",\"display_name\":");
                append_json_string(&mut out, display_name.as_str());
                out.append(",\"biography\":");
                append_json_string(&mut out, biography.as_str());
                out.append("}");
                out
            },
            BlockData::Post { body, reply } => {
                let mut out = String::from_str("{\"type\":\"Post\",\"body\":");
                append_json_string(&mut out, body.as_str());
                out.append(",\"reply\":");
                match reply {
                    None => {
                        out.append("null");
                    },
                    Some(r) => {
                        append_json_string(&mut out, r.as_str());
                    },
                }
                out.append("}");
                out
            },
        }
    }

    /// The canonical signing string of this payload.
    pub fn to_string_for_signing(&self) -> (r: String)
        ensures
            r@ == signing_string(self@),
    {
        match self {
            BlockData::Genesis => {
                let r = String::new();
                proof {
                    assert(r@ =~= signing_string(self@));
                }
                r
            },
            BlockData::User { display_name, username, biography } => {
                let mut out = String::from_str("biography=");
                append_json_string(&mut out, biography.as_str());
                out.append("|display_name=");
                append_json_string(&mut out, display_name.as_str());
                out.append("|username=");
                append_json_string(&mut out, username.as_str());
                out
            },
            BlockData::UserUpdate { display_name, biography } => {
                let mut out = String::from_str("biography=");
                append_json_string(&mut out, biography.as_str());
                out.append("|display_name=");
                append_json_string(&mut out, display_name.as_str());
                out
            },
            BlockData::Post { body, reply } => {
                let mut out = String::from_str("body=");
                append_json_string(&mut out, body.as_str());
                match reply {
                    None => {
                        out.append("|reply=null");
                    },
                    Some(r) => {
                        out.append("|reply=");
                        append_json_string(&mut out, r.as_str());
                    },
                }
                out
            },
        }
    }
}

/// An immutable ledger record.
#[derive(Debug)]
pub struct Block {
    pub index: u64,
    pub timestamp: u64,
    pub nonce: u64,
    pub data: BlockData,
    pub prev_hash: String,
    pub hash: String,
    pub public_key: String,
    pub signature: String,
}

impl Clone for Block {
    fn clone(&self) -> (r: Self)
        ensures
            r@ == self@,
    {
        Block {
            index: self.index,
            timestamp: self.timestamp,
            nonce: self.nonce,
            data: self.data.clone(),
            prev_hash: self.prev_hash.clone(),
            hash: self.hash.clone(),
            public_key: self.public_key.clone(),
            signature: self.signature.clone(),
        }
    }
}

/// The mathematical shape of a block.
pub ghost struct BlockModel {
    pub index: u64,
    pub timestamp: u64,
    pub nonce: u64,
    pub data: BlockDataModel,
    pub prev_hash: Seq<char>,
    pub hash: Seq<char>,
    pub public_key: Seq<char>,
    pub signature: Seq<char>,
}

impl View for Block {
    type V = BlockModel;

    open spec fn view(&self) -> BlockModel {
        BlockModel {
            index: self.index,
            timestamp: self.timestamp,
            nonce: self.nonce,
            data: self.data@,
            prev_hash: self.prev_hash@,
            hash: self.hash@,
            public_key: self.public_key@,
            signature: self.signature@,
        }
    }
}

/// The hashed preimage of a block: the string forms of index, timestamp
/// and nonce, the canonical JSON of the data, the signature, the public
/// key and the previous hash, concatenated in that order.
pub open spec fn hash_preimage(b: BlockModel) -> Seq<char> {
    dec_str(b.index as nat) + dec_str(b.timestamp as nat) + dec_str(b.nonce as nat) + json_of(
        b.data,
    ) + b.signature + b.public_key + b.prev_hash
}

/// The stored hash is the hash of the preimage.
pub open spec fn block_hash_ok(b: BlockModel) -> bool {
    b.hash == sha256_hex_of(hash_preimage(b))
}

/// The stored signature verifies over the canonical signing string
/// under the stored public key.
pub open spec fn block_sig_ok(b: BlockModel) -> bool {
    signature_accepted(b.public_key, b.signature, signing_string(b.data))
}

/// Relies on `std::time::SystemTime::now` (with `duration_since` and
/// `Duration::as_secs` converting the result): seconds since the Unix
/// epoch. Nothing is promised of the value.
#[verifier::external_body]
fn now_seconds() -> u64 {
    std::time::SystemTime::now()
        .duration_since(std::time::UNIX_EPOCH)
        .map(|d| d.as_secs())
        .unwrap_or(0)
}

/// Whether a hash string starts with `d` zeros.
pub fn hash_meets_difficulty(h: &str, d: usize) -> (r: bool)
    ensures
        r == meets_difficulty(h@, d as nat),
{
    let n = h.unicode_len();
    if n < d {
        return false;
    }
    let mut i: usize = 0;
    while i < d
        invariant
            n == h@.len(),
            d <= n,
            i <= d,
            forall|j: int| 0 <= j < i ==> h@[j] == '0',
        decreases d - i,
    {
        if h.get_char(i) != '0' {
            return false;
        }
        i = i + 1;
    }
    true
}

impl Block {
    /// Build a block over the given payload, index and previous hash:
    /// nonce zero, empty key and signature, the hash freshly computed.
    /// The timestamp is read from the clock.
    pub fn new(data: BlockData, index: u64, previous_hash: String) -> (r: Block)
        ensures
            r@.index == index,
            r@.nonce == 0,
            r@.data == data@,
            r@.prev_hash == previous_hash@,
            r@.public_key == Seq::<char>::empty(),
            r@.signature == Seq::<char>::empty(),
            block_hash_ok(r@),
    {
        let timestamp = now_seconds();
        let mut block = Block {
            index,
            timestamp,
            nonce: 0,
            data,
            prev_hash: previous_hash,
            hash: String::new(),
            public_key: String::new(),
            signature: String::new(),
        };
        block.hash = block.hash_block();
        block
    }

    /// Build the successor of `previous` carrying `data`.
    pub fn next(previous: &Block, data: BlockData) -> (r: Block)
        requires
            previous@.index < u64::MAX,
        ensures
            r@.index == previous@.index + 1,
            r@.nonce == 0,
            r@.data == data@,
            r@.prev_hash == previous@.hash,
            r@.public_key == Seq::<char>::empty(),
            r@.signature == Seq::<char>::empty(),
            block_hash_ok(r@),
    {
        let next_index = previous.index + 1;
        let this_hash = previous.hash.clone();
        Block::new(data, next_index, this_hash)
    }

    /// Compute the hash of this block's preimage.
    pub fn hash_block(&self) -> (r: String)
        ensures
            r@ == sha256_hex_of(hash_preimage(self@)),
            r@.len() == 64,
    {
        let mut pre = u64_to_string(self.index);
        pre.append(u64_to_string(self.timestamp).as_str());
        pre.append(u64_to_string(self.nonce).as_str());
        pre.append(self.data.to_json().as_str());
        pre.append(self.signature.as_str());
        pre.append(self.public_key.as_str());
        pre.append(self.prev_hash.as_str());
        sha256_hex(pre.as_str())
    }

    /// Recompute the hash, then increment the nonce and rehash until
    /// the hash meets the difficulty. Returns whether it did; mining
    /// gives up only when the nonce space is exhausted.
    pub fn mine_block(&mut self) -> (found: bool)
        ensures
            final(self).index == old(self).index,
            final(self).timestamp == old(self).timestamp,
            final(self).data@ == old(self).data@,
            final(self).prev_hash@ == old(self).prev_hash@,
            final(self).public_key@ == old(self).public_key@,
            final(self).signature@ == old(self).signature@,
            block_hash_ok(final(self)@),
            found == meets_difficulty(final(self)@.hash, spec_difficulty()),
            !found ==> final(self).nonce == u64::MAX,
            final(self).nonce >= old(self).nonce,
    {
        self.hash = self.hash_block();
        let mut found = hash_meets_difficulty(self.hash.as_str(), self.difficulty());
        while !found && self.nonce < u64::MAX
            invariant
                self.index == old(self).index,
                self.timestamp == old(self).timestamp,
                self.data@ == old(self).data@,
                self.prev_hash@ == old(self).prev_hash@,
                self.public_key@ == old(self).public_key@,
                self.signature@ == old(self).signature@,
                self.nonce >= old(self).nonce,
                block_hash_ok(self@),
                found == meets_difficulty(self@.hash, spec_difficulty()),
            decreases u64::MAX - self.nonce,
    {
            self.nonce = self.nonce + 1;
            self.hash = self.hash_block();
            found = hash_meets_difficulty(self.hash.as_str(), self.difficulty());
        }
        found
    }

    /// Verify the stored signature over the canonical signing string.
    pub fn validate_signature(&self) -> (r: Result<(), ValidationError>)
        ensures
            r is Ok <==> block_sig_ok(self@),
            r matches Err(e) ==> e == sig_error_variant(
                self@.public_key,
                self@.signature,
                signing_string(self@.data),
            ),
    {
        validate_signature(
            self.public_key.as_str(),
            self.signature.as_str(),
            self.data.to_string_for_signing().as_str(),
        )
    }

    /// The required number of leading hash zeros.
    pub fn difficulty(&self) -> (r: usize)
        ensures
            r == spec_difficulty(),
    {
        3
    }
}

/// A client-submitted record awaiting mining.
#[derive(Debug)]
pub struct PendingBlock {
    pub timestamp: u64,
    pub data: BlockData,
    pub public_key: String,
    pub signature: String,
}

impl Clone for PendingBlock {
    fn clone(&self) -> (r: Self)
        ensures
            r@ == self@,
    {
        PendingBlock {
            timestamp: self.timestamp,
            data: self.data.clone(),
            public_key: self.public_key.clone(),
            signature: self.signature.clone(),
        }
    }
}

/// The mathematical shape of a pending record.
pub ghost struct PendingBlockModel {
    pub timestamp: u64,
    pub data: BlockDataModel,
    pub public_key: Seq<char>,
    pub signature: Seq<char>,
}

impl View for PendingBlock {
    type V = PendingBlockModel;

    open spec fn view(&self) -> PendingBlockModel {
        PendingBlockModel {
            timestamp: self.timestamp,
            data: self.data@,
            public_key: self.public_key@,
            signature: self.signature@,
        }
    }
}

/// A pending record's signature verifies over the canonical signing
/// string of its payload.
pub open spec fn pending_sig_ok(p: PendingBlockModel) -> bool {
    signature_accepted(p.public_key, p.signature, signing_string(p.data))
}

impl PendingBlock {
    /// Build a pending record; the timestamp is read from the clock.
    pub fn new(data: BlockData, public_key: String, signature: String) -> (r: PendingBlock)
        ensures
            r@.data == data@,
            r@.public_key == public_key@,
            r@.signature == signature@,
    {
        let timestamp = now_seconds();
        PendingBlock { timestamp, data, public_key, signature }
    }

    /// Verify the record signature over the canonical signing string.
    pub fn validate_signature(&self) -> (r: Result<(), ValidationError>)
        ensures
            r is Ok <==> pending_sig_ok(self@),
            r matches Err(e) ==> e == sig_error_variant(
                self@.public_key,
                self@.signature,
                signing_string(self@.data),
            ),
    {
        validate_signature(
            self.public_key.as_str(),
            self.signature.as_str(),
            self.data.to_string_for_signing().as_str(),
        )
    }

    /// Check the field limits of the payload, in Unicode code points.
    pub fn validate_size(&self) -> (r: Result<(), String>)
        ensures
            r is Ok <==> size_ok(self@.data),
            r matches Err(m) ==> m@ == size_error_message(self@.data),
    {
        match &self.data {
            BlockData::Post { body, reply } => {
                if body.as_str().unicode_len() > 300 {
                    return Err("Post size exceeds 300 characters.".to_owned());
                }
            },
            BlockData::User { username, display_name, biography } => {
                if username.as_str().unicode_len() > 255 {
                    return Err("Username exceeds 255 characters.".to_owned());
                }
                if display_name.as_str().unicode_len() > 255 {
                    return Err("Display name exceeds 255 characters.".to_owned());
                }
                if biography.as_str().unicode_len() > 300 {
                    return Err("Biography exceeds 300 characters.".to_owned());
                }
            },
            BlockData::UserUpdate { display_name, biography } => {
                if display_name.as_str().unicode_len() > 255 {
                    return Err("Display name exceeds 255 characters.".to_owned());
                }
                if biography.as_str().unicode_len() > 300 {
                    return Err("Biography exceeds 300 characters.".to_owned());
                }
            },
            BlockData::Genesis => {},
        }
        Ok(())
    }
}

} // verus!
