//! The chain manager: admission control for blocks and pending
//! records, the canonical append, and the derived projections.
//!
//! The chain invariant carries the ledger guarantees: every block after
//! genesis hashes its own contents, meets the difficulty, links to its
//! predecessor, and carries a verifying signature; user registrations
//! were fresh and posts and profile updates were authorized when they
//! were admitted; and the query index equals the projection of the
//! store.

use vstd::prelude::*;
use vstd::string::StringExecFns;
use crate::block::block_hash_ok;
use crate::block::block_sig_ok;
use crate::block::pending_sig_ok;
use crate::block::signing_string;
use crate::block::size_error_message;
use crate::block::size_ok;
use crate::block::Block;
use crate::block::BlockData;
use crate::block::BlockDataModel;
use crate::block::BlockModel;
use crate::block::PendingBlock;
use crate::block::PendingBlockModel;
use crate::index::apply_block;
use crate::index::project_blocks;
use crate::index::Index;
use crate::index::IndexModel;
use crate::meets_difficulty;
use crate::sign::sig_error_variant;
use crate::sign::spec_message;
use crate::spec_difficulty;
use crate::store::Storage;
use crate::text::str_eq;

verus! {

/// The shape of the block at index zero.
pub open spec fn genesis_shape(b: BlockModel) -> bool {
    &&& b.index == 0
    &&& b.nonce == 0
    &&& b.data is Genesis
    &&& b.prev_hash == "0"@
    &&& b.public_key == Seq::<char>::empty()
    &&& b.signature == Seq::<char>::empty()
}

/// Some earlier `User` block registered this public key.
pub open spec fn registered_user(blocks: Seq<BlockModel>, pk: Seq<char>) -> bool {
    exists|j: int| 0 <= j < blocks.len() && (#[trigger] blocks[j]).data is User && blocks[j].public_key == pk
}

/// Some earlier `User` block took this username.
pub open spec fn username_taken(blocks: Seq<BlockModel>, name: Seq<char>) -> bool {
    exists|j: int|
        0 <= j < blocks.len() && ((#[trigger] blocks[j]).data matches BlockDataModel::User {
            username,
            ..
        } && username == name)
}

/// The user rules for a payload admitted on top of `blocks`: a `User`
/// registration must carry a fresh username and a fresh public key; a
/// `Post` or `UserUpdate` must come from a registered public key.
pub open spec fn user_rules_ok(blocks: Seq<BlockModel>, data: BlockDataModel, pk: Seq<char>) -> bool {
    match data {
        BlockDataModel::User { username, .. } => !username_taken(blocks, username)
            && !registered_user(blocks, pk),
        BlockDataModel::Post { .. } => registered_user(blocks, pk),
        BlockDataModel::UserUpdate { .. } => registered_user(blocks, pk),
        BlockDataModel::Genesis => true,
    }
}

/// The invariants of the block at position `i > 0` of a chain.
pub open spec fn chain_block_ok(blocks: Seq<BlockModel>, i: int) -> bool
    recommends
        1 <= i < blocks.len(),
{
    let b = blocks[i];
    &&& b.index as int == i
    &&& block_hash_ok(b)
    &&& meets_difficulty(b.hash, spec_difficulty())
    &&& b.prev_hash == blocks[i - 1].hash
    &&& block_sig_ok(b)
    &&& user_rules_ok(blocks.take(i), b.data, b.public_key)
}

/// A well-formed chain: genesis at position zero, and every later
/// block admitted under the chain rules.
pub open spec fn chain_wf(blocks: Seq<BlockModel>) -> bool {
    &&& blocks.len() >= 1
    &&& genesis_shape(blocks[0])
    &&& block_hash_ok(blocks[0])
    &&& forall|i: int| 1 <= i < blocks.len() ==> #[trigger] chain_block_ok(blocks, i)
}

/// What admission requires of a block on top of `blocks`.
pub open spec fn admissible(blocks: Seq<BlockModel>, b: BlockModel) -> bool
    recommends
        blocks.len() >= 1,
{
    &&& block_sig_ok(b)
    &&& b.prev_hash == blocks.last().hash
    &&& meets_difficulty(b.hash, spec_difficulty())
    &&& b.index as int == blocks.len()
    &&& block_hash_ok(b)
    &&& user_rules_ok(blocks, b.data, b.public_key)
}

/// The message reported for the first admission check that fails.
pub open spec fn admission_error(blocks: Seq<BlockModel>, b: BlockModel) -> Seq<char>
    recommends
        !admissible(blocks, b),
{
    if !block_sig_ok(b) {
        spec_message(sig_error_variant(b.public_key, b.signature, signing_string(b.data)))
    } else if b.prev_hash != blocks.last().hash {
        "Block hash did not match previous hash."@
    } else if !meets_difficulty(b.hash, spec_difficulty()) {
        "Block hash did not meet difficulty."@
    } else if b.index as int != blocks.len() {
        "Block index did not match the chain height."@
    } else if !block_hash_ok(b) {
        "Block hash did not match its contents."@
    } else {
        user_rules_error(blocks, b.data, b.public_key)
    }
}

/// The message reported when the user rules fail.
pub open spec fn user_rules_error(blocks: Seq<BlockModel>, data: BlockDataModel, pk: Seq<char>) -> Seq<char>
    recommends
        !user_rules_ok(blocks, data, pk),
{
    match data {
        BlockDataModel::User { username, .. } => if username_taken(blocks, username) {
            "Username '"@ + username + "' is already taken."@
        } else {
            "Public key '"@ + pk + "' is already registered."@
        },
        BlockDataModel::Post { .. } => "Public key '"@ + pk + "' is not registered."@,
        BlockDataModel::UserUpdate { .. } => "Public key '"@ + pk + "' is not registered."@,
        BlockDataModel::Genesis => Seq::empty(),
    }
}

/// The message reported when a pending record is refused.
pub open spec fn mempool_error(p: PendingBlockModel) -> Seq<char>
    recommends
        !pending_sig_ok(p) || !size_ok(p.data),
{
    if !pending_sig_ok(p) {
        spec_message(sig_error_variant(p.public_key, p.signature, signing_string(p.data)))
    } else {
        size_error_message(p.data)
    }
}

/// The view of the pending pool.
pub open spec fn mpool_model(v: Seq<PendingBlock>) -> Seq<PendingBlockModel> {
    v.map_values(|p: PendingBlock| p@)
}

/// The chain: the pending pool, the block store and the query index.
#[derive(Debug)]
pub struct Blockchain {
    pub mpool: Vec<PendingBlock>,
    pub store: Storage,
    pub index: Index,
}

/// The whole chain invariant: a well-formed store, the index equal to
/// its projection, and only signed, size-checked records in the pool.
pub open spec fn chain_inv(c: &Blockchain) -> bool {
    &&& chain_wf(c.store@)
    &&& c.index@ == project_blocks(c.store@)
    &&& forall|i: int|
        0 <= i < c.mpool@.len() ==> pending_sig_ok(#[trigger] mpool_model(c.mpool@)[i]) && size_ok(
            mpool_model(c.mpool@)[i].data,
        )
}

impl Blockchain {
    /// A fresh chain holding only the genesis block, with an empty
    /// index and an empty pending pool.
    pub fn new() -> (r: Blockchain)
        ensures
            chain_inv(&r),
            r.store@.len() == 1,
            genesis_shape(r.store@[0]),
            r.mpool@.len() == 0,
    {
        let mut store = Storage::new();
        let genesis = Block::new(BlockData::Genesis, 0, "0".to_owned());
        store.put_block(genesis);
        let index = Index::new();
        let r = Blockchain { mpool: Vec::new(), store, index };
        proof {
            assert(r.store@.len() == 1);
            assert(r.store@.drop_last() =~= Seq::<BlockModel>::empty());
            assert(r.store@.last().data is Genesis);
            assert(project_blocks(r.store@) == apply_block(
                project_blocks(Seq::<BlockModel>::empty()),
                r.store@.last(),
            ));
            assert(project_blocks(r.store@) == project_blocks(Seq::<BlockModel>::empty()));
            assert(r.index@ =~= project_blocks(r.store@));
        }
        r
    }

    /// Rebuild a chain from a persisted sequence of blocks: the first
    /// must be a genesis block, and every later block is admitted
    /// under the full chain rules, the index being reprojected along
    /// the way.
    pub fn from_blocks(blocks: Vec<Block>) -> (r: Result<Blockchain, String>)
        ensures
            r is Ok <==> valid_replay(blocks@.map_values(|b: Block| b@)),
            r matches Ok(c) ==> chain_inv(&c) && c.store@ =~= blocks@.map_values(|b: Block| b@)
                && c.mpool@.len() == 0,
    {
        let ghost views = blocks@.map_values(|b: Block| b@);
        if blocks.len() == 0 {
            return Err("The replayed chain is empty.".to_owned());
        }
        let genesis_ok = {
            let g = &blocks[0];
            g.index == 0 && g.nonce == 0 && matches!(g.data, BlockData::Genesis) && str_eq(
                g.prev_hash.as_str(),
                "0",
            ) && g.public_key.as_str().is_empty() && g.signature.as_str().is_empty() && str_eq(
                g.hash.as_str(),
                g.hash_block().as_str(),
            )
        };
        if !genesis_ok {
            return Err("The replayed chain does not start with a genesis block.".to_owned());
        }
        let mut store = Storage::new();
        store.put_block(blocks[0].clone());
        let index = Index::new();
        let mut chain = Blockchain { mpool: Vec::new(), store, index };
        proof {
            assert(chain.store@ =~= seq![views[0]]);
            assert(chain.store@.drop_last() =~= Seq::<BlockModel>::empty());
            assert(chain.store@.last().data is Genesis);
            assert(project_blocks(chain.store@) == apply_block(
                project_blocks(Seq::<BlockModel>::empty()),
                chain.store@.last(),
            ));
            assert(chain.index@ =~= project_blocks(chain.store@));
            assert(views[0] == blocks@[0]@);
            assert(views[0].public_key =~= Seq::<char>::empty());
            assert(views[0].signature =~= Seq::<char>::empty());
            assert(genesis_shape(chain.store@[0]));
            assert(chain_inv(&chain));
        }
        let mut i: usize = 1;
        while i < blocks.len()
            invariant
                views == blocks@.map_values(|b: Block| b@),
                1 <= i <= blocks@.len(),
                chain_inv(&chain),
                chain.mpool@.len() == 0,
                chain.store@ =~= views.take(i as int),
            decreases blocks@.len() - i,
        {
            proof {
                assert(views.take(i as int).last() == views[i as int - 1]);
            }
            match chain.add_block(blocks[i].clone()) {
                Ok(()) => {
                    proof {
                        assert(chain.store@ =~= views.take(i as int + 1));
                    }
                },
                Err(m) => {
                    proof {
                        assert(!admissible(views.take(i as int), views[i as int]));
                    }
                    return Err(m);
                },
            }
            i = i + 1;
        }
        proof {
            assert(views.take(views.len() as int) =~= views);
            assert forall|j: int| 1 <= j < views.len() implies admissible(
                views.take(j),
                #[trigger] views[j],
            ) by {
                assert(chain_block_ok(views, j));
                assert(views.take(j).last() == views[j - 1]);
            }
        }
        Ok(chain)
    }

    /// The chain height: the index of the top block.
    pub fn len(&self) -> (r: usize)
        requires
            chain_inv(self),
        ensures
            r as int == self.store@.len() - 1,
    {
        // the stored block count is a machine word, which bounds the height
        let block_count = self.store.block_count();
        proof {
            if self.store@.len() > 1 {
                assert(chain_block_ok(self.store@, self.store@.len() - 1));
            }
        }
        let height = self.store.get_height();
        height as usize
    }

    /// The block at `index`, when the chain holds one.
    pub fn at(&self, index: usize) -> (r: Option<Block>)
        ensures
            r is Some <==> index < self.store@.len(),
            r matches Some(b) ==> b@ == self.store@[index as int],
    {
        self.store.get_block(index as u64)
    }

    /// The top block.
    pub fn top_block(&self) -> (r: Block)
        requires
            chain_inv(self),
        ensures
            r@ == self.store@.last(),
    {
        self.store.top_block()
    }

    /// Every block of the chain, from genesis to the top.
    pub fn chain_iter(&self) -> (r: Vec<Block>)
        requires
            chain_inv(self),
        ensures
            r@.len() == self.store@.len(),
            forall|i: int| 0 <= i < r@.len() ==> (#[trigger] r@[i])@ == self.store@[i],
    {
        let mut out: Vec<Block> = Vec::new();
        let mut i: usize = 0;
        let n = self.store.block_count();
        while i < n
            invariant
                n == self.store@.len(),
                i <= n,
                out@.len() == i,
                forall|j: int| 0 <= j < i ==> (#[trigger] out@[j])@ == self.store@[j],
            decreases n - i,
        {
            match self.store.get_block(i as u64) {
                Some(b) => {
                    out.push(b);
                },
                None => {
                    proof {
                        assert(false);
                    }
                },
            }
            i = i + 1;
        }
        out
    }

    /// Check the user rules for a payload against the current store.
    fn validate_user(&self, block: &Block) -> (r: Result<(), String>)
        requires
            chain_inv(self),
        ensures
            r is Ok <==> user_rules_ok(self.store@, block@.data, block@.public_key),
            r matches Err(m) ==> m@ == user_rules_error(self.store@, block@.data, block@.public_key),
    {
        if let BlockData::Genesis = &block.data {
            return Ok(());
        }
        let ghost blocks = self.store@;
        let n = self.store.block_count();
        let mut name_taken_by: Option<String> = None;
        let mut key_registered = false;
        let block_username: Option<&String> = match &block.data {
            BlockData::User { username, .. } => Some(username),
            _ => None,
        };
        let mut name_taken = false;
        let mut i: usize = 0;
        while i < n
            invariant
                chain_inv(self),
                blocks == self.store@,
                n == blocks.len(),
                i <= n,
                key_registered == registered_user(blocks.take(i as int), block@.public_key),
                match block_username {
                    Some(u) => (block@.data matches BlockDataModel::User { username: un, .. }
                        && un == u@) && name_taken == username_taken(blocks.take(i as int), u@),
                    None => !(block@.data is User),
                },
                block_username is Some <==> block@.data is User,
            decreases n - i,
        {
            let b = match self.store.get_block(i as u64) {
                Some(b) => b,
                None => {
                    proof {
                        assert(false);
                    }
                    return Ok(());
                },
            };
            proof {
                assert(blocks.take(i as int + 1) =~= blocks.take(i as int).push(blocks[i as int]));
            }
            match &b.data {
                BlockData::User { username, .. } => {
                    if str_eq(b.public_key.as_str(), block.public_key.as_str()) {
                        key_registered = true;
                    }
                    if let Some(target) = block_username {
                        if str_eq(username.as_str(), target.as_str()) {
                            name_taken = true;
                        }
                    }
                    proof {
                        let t = blocks.take(i as int + 1);
                        if key_registered {
                            if blocks[i as int].public_key == block@.public_key {
                                assert(t[i as int].data is User && t[i as int].public_key
                                    == block@.public_key);
                            } else {
                                assert(registered_user(blocks.take(i as int), block@.public_key));
                                let j = choose|j: int|
                                    0 <= j < i && (#[trigger] blocks.take(i as int)[j]).data is User
                                        && blocks.take(i as int)[j].public_key
                                        == block@.public_key;
                                assert(t[j].data is User && t[j].public_key == block@.public_key);
                            }
                        } else {
                            assert forall|j: int|
                                0 <= j < t.len() && (#[trigger] t[j]).data is User implies t[j].public_key
                                != block@.public_key by {
                                if j < i {
                                    assert(blocks.take(i as int)[j] == t[j]);
                                }
                            }
                        }
                        match block_username {
                            Some(u) => {
                                if name_taken {
                                    if blocks[i as int].data matches BlockDataModel::User {
                                        username: un,
                                        ..
                                    } && un == u@ {
                                        assert(username_taken(t, u@));
                                    } else {
                                        assert(username_taken(blocks.take(i as int), u@));
                                        let j = choose|j: int|
                                            0 <= j < i && ((#[trigger] blocks.take(
                                                i as int,
                                            )[j]).data matches BlockDataModel::User {
                                                username: un,
                                                ..
                                            } && un == u@);
                                        assert(t[j] == blocks.take(i as int)[j]);
                                        assert(username_taken(t, u@));
                                    }
                                } else {
                                    assert(!username_taken(t, u@)) by {
                                        assert forall|j: int|
                                            0 <= j < t.len() implies !((#[trigger] t[j]).data matches
                                        BlockDataModel::User { username: un, .. } && un == u@) by {
                                            if j < i {
                                                assert(blocks.take(i as int)[j] == t[j]);
                                            }
                                        }
                                    }
                                }
                            },
                            None => {},
                        }
                    }
                },
                _ => {
                    proof {
                        let t = blocks.take(i as int + 1);
                        assert(!(t[i as int].data is User));
                        assert(registered_user(t, block@.public_key) == registered_user(
                            blocks.take(i as int),
                            block@.public_key,
                        )) by {
                            if registered_user(t, block@.public_key) {
                                let j = choose|j: int|
                                    0 <= j < t.len() && (#[trigger] t[j]).data is User
                                        && t[j].public_key == block@.public_key;
                                assert(j < i);
                                assert(blocks.take(i as int)[j] == t[j]);
                            }
                        }
                        match block_username {
                            Some(u) => {
                                assert(username_taken(t, u@) == username_taken(
                                    blocks.take(i as int),
                                    u@,
                                )) by {
                                    if username_taken(t, u@) {
                                        let j = choose|j: int|
                                            0 <= j < t.len() && ((#[trigger] t[j]).data matches
                                            BlockDataModel::User { username: un, .. } && un == u@);
                                        assert(j < i);
                                        assert(blocks.take(i as int)[j] == t[j]);
                                    }
                                }
                            },
                            None => {},
                        }
                    }
                },
            }
            i = i + 1;
        }
        proof {
            assert(blocks.take(n as int) =~= blocks);
        }
        match &block.data {
            BlockData::User { username, .. } => {
                if name_taken {
                    let mut m = String::from_str("Username '");
                    m.append(username.as_str());
                    m.append("' is already taken.");
                    return Err(m);
                }
                if key_registered {
                    let mut m = String::from_str("Public key '");
                    m.append(block.public_key.as_str());
                    m.append("' is already registered.");
                    return Err(m);
                }
                Ok(())
            },
            _ => {
                if !key_registered {
                    let mut m = String::from_str("Public key '");
                    m.append(block.public_key.as_str());
                    m.append("' is not registered.");
                    return Err(m);
                }
                Ok(())
            },
        }
    }

    /// Check the hash linkage of a candidate block: the previous hash,
    /// the difficulty, the index, and the hash of its own contents.
    fn validate_hash(&self, block: &Block) -> (r: Result<(), String>)
        requires
            chain_inv(self),
        ensures
            r is Ok <==> (block@.prev_hash == self.store@.last().hash && meets_difficulty(
                block@.hash,
                spec_difficulty(),
            ) && block@.index as int == self.store@.len() && block_hash_ok(block@)),
            r matches Err(m) ==> block@.prev_hash != self.store@.last().hash ==> m@
                == "Block hash did not match previous hash."@,
            r matches Err(m) ==> (block@.prev_hash == self.store@.last().hash && !meets_difficulty(
                block@.hash,
                spec_difficulty(),
            )) ==> m@ == "Block hash did not meet difficulty."@,
            r matches Err(m) ==> (block@.prev_hash == self.store@.last().hash && meets_difficulty(
                block@.hash,
                spec_difficulty(),
            ) && block@.index as int != self.store@.len()) ==> m@
                == "Block index did not match the chain height."@,
            r matches Err(m) ==> (block@.prev_hash == self.store@.last().hash && meets_difficulty(
                block@.hash,
                spec_difficulty(),
            ) && block@.index as int == self.store@.len() && !block_hash_ok(block@)) ==> m@
                == "Block hash did not match its contents."@,
    {
        let top = self.store.top_block();
        if !str_eq(block.prev_hash.as_str(), top.hash.as_str()) {
            return Err("Block hash did not match previous hash.".to_owned());
        }
        if !crate::block::hash_meets_difficulty(block.hash.as_str(), block.difficulty()) {
            return Err("Block hash did not meet difficulty.".to_owned());
        }
        // the stored block count is a machine word, which bounds the height
        let block_count = self.store.block_count();
        if !(block.index == block_count as u64) {
            return Err("Block index did not match the chain height.".to_owned());
        }
        let recomputed = block.hash_block();
        if !str_eq(block.hash.as_str(), recomputed.as_str()) {
            return Err("Block hash did not match its contents.".to_owned());
        }
        Ok(())
    }

    /// Admit a block: verify its signature, its hash linkage and the
    /// user rules, then append it to the store and project it into the
    /// index. On any failure the chain is unchanged.
    pub fn add_block(&mut self, block: Block) -> (r: Result<(), String>)
        requires
            chain_inv(old(self)),
        ensures
            chain_inv(final(self)),
            final(self).mpool@ == old(self).mpool@,
            r is Ok <==> admissible(old(self).store@, block@),
            r is Ok ==> final(self).store@ =~= old(self).store@.push(block@),
            r is Err ==> final(self).store@ == old(self).store@ && final(self).index@ == old(
                self,
            ).index@,
            r matches Err(m) ==> m@ == admission_error(old(self).store@, block@),
    {
        let ghost blocks = self.store@;
        if let Err(e) = block.validate_signature() {
            return Err(e.message());
        }
        if let Err(m) = self.validate_hash(&block) {
            return Err(m);
        }
        if let Err(m) = self.validate_user(&block) {
            return Err(m);
        }
        let ghost b = block@;
        let for_index = block.clone();
        self.store.put_block(block);
        self.index.add_block(for_index);
        proof {
            assert(self.store@ =~= blocks.push(b));
            lemma_chain_wf_push(blocks, b);
            assert(self.store@.drop_last() =~= blocks);
            assert(self.store@.last() == b);
            assert(project_blocks(self.store@) == apply_block(project_blocks(blocks), b));
        }
        Ok(())
    }

    /// Admit a pending record to the pool: verify its signature and its
    /// field sizes, then append it in arrival order.
    pub fn push_mempool(&mut self, block: PendingBlock) -> (r: Result<(), String>)
        requires
            chain_inv(old(self)),
        ensures
            chain_inv(final(self)),
            final(self).store@ == old(self).store@,
            final(self).index@ == old(self).index@,
            r is Ok <==> pending_sig_ok(block@) && size_ok(block@.data),
            r is Ok ==> final(self).mpool@ =~= old(self).mpool@.push(block),
            r is Err ==> final(self).mpool@ == old(self).mpool@,
            r matches Err(m) ==> m@ == mempool_error(block@),
    {
        if let Err(e) = block.validate_signature() {
            return Err(e.message());
        }
        if let Err(m) = block.validate_size() {
            return Err(m);
        }
        let ghost pre = mpool_model(self.mpool@);
        let ghost pv = block@;
        self.mpool.push(block);
        proof {
            assert(mpool_model(self.mpool@) =~= pre.push(pv));
        }
        Ok(())
    }

    /// Take the most recently arrived pending record, when one waits.
    pub fn next_mpool_block(&mut self) -> (r: Option<PendingBlock>)
        requires
            chain_inv(old(self)),
        ensures
            chain_inv(final(self)),
            final(self).store@ == old(self).store@,
            final(self).index@ == old(self).index@,
            r is Some <==> old(self).mpool@.len() > 0,
            r matches Some(p) ==> p@ == mpool_model(old(self).mpool@).last() && final(self).mpool@
                =~= old(self).mpool@.drop_last() && pending_sig_ok(p@) && size_ok(p@.data),
            r is None ==> final(self).mpool@ == old(self).mpool@,
    {
        let r = self.mpool.pop();
        proof {
            if old(self).mpool@.len() > 0 {
                assert(mpool_model(self.mpool@) =~= mpool_model(old(self).mpool@).drop_last());
                assert(mpool_model(old(self).mpool@)[old(self).mpool@.len() - 1]
                    == mpool_model(old(self).mpool@).last());
            }
        }
        r
    }

    /// Mine one pending record on top of the chain and admit the mined
    /// block: the successor of the top block carries the record's
    /// payload, timestamp, key and signature, and is mined until the
    /// difficulty holds. Success is owed: an error means the user
    /// rules failed on the record, or mining exhausted the whole nonce
    /// space without meeting the difficulty.
    pub fn process_pending(&mut self, pending: PendingBlock) -> (r: Result<Block, String>)
        requires
            chain_inv(old(self)),
            pending_sig_ok(pending@),
        ensures
            chain_inv(final(self)),
            final(self).mpool@ == old(self).mpool@,
            r matches Ok(b) ==> b@.data == pending@.data && b@.timestamp == pending@.timestamp
                && b@.public_key == pending@.public_key && b@.signature == pending@.signature
                && admissible(old(self).store@, b@) && final(self).store@ =~= old(
                self,
            ).store@.push(b@),
            r is Err ==> final(self).store@ == old(self).store@ && final(self).index@ == old(
                self,
            ).index@,
            r is Err ==> !user_rules_ok(old(self).store@, pending@.data, pending@.public_key)
                || (exists|b: BlockModel| #[trigger] mining_exhausted(
                old(self).store@,
                pending@,
                b,
            )),
            !user_rules_ok(old(self).store@, pending@.data, pending@.public_key) ==> r is Err,
    {
        // the stored block count is a machine word, which bounds the height
        let block_count = self.store.block_count();
        let top = self.store.top_block();
        proof {
            if self.store@.len() > 1 {
                assert(chain_block_ok(self.store@, self.store@.len() - 1));
            }
            assert(top@.index < u64::MAX);
        }
        let mut block = Block::next(&top, pending.data);
        block.timestamp = pending.timestamp;
        block.signature = pending.signature;
        block.public_key = pending.public_key;
        let found = block.mine_block();
        let mined = block.clone();
        let ghost bm = block@;
        match self.add_block(block) {
            Ok(()) => Ok(mined),
            Err(m) => {
                proof {
                    assert(block_sig_ok(bm));
                    assert(bm.prev_hash == old(self).store@.last().hash);
                    assert(bm.index as int == old(self).store@.len());
                    if user_rules_ok(old(self).store@, pending@.data, pending@.public_key) {
                        assert(!meets_difficulty(bm.hash, spec_difficulty()));
                        assert(!found);
                        assert(bm.nonce == u64::MAX);
                        assert(mining_exhausted(old(self).store@, pending@, bm));
                    }
                }
                Err(m)
            },
        }
    }
}

/// Every block after genesis satisfies the ledger invariants: its
/// hash is the hash of its contents, it meets the difficulty, it links
/// to its predecessor's hash, its signature verifies over the canonical
/// signing string, and the user rules held over the blocks before it
/// when it was admitted.
pub proof fn lemma_chain_invariants(blocks: Seq<BlockModel>, i: int)
    requires
        chain_wf(blocks),
        1 <= i < blocks.len(),
    ensures
        block_hash_ok(blocks[i]),
        meets_difficulty(blocks[i].hash, spec_difficulty()),
        blocks[i].prev_hash == blocks[i - 1].hash,
        block_sig_ok(blocks[i]),
        user_rules_ok(blocks.take(i), blocks[i].data, blocks[i].public_key),
{
    assert(chain_block_ok(blocks, i));
}

/// Every position holds the block with that index, linked to its
/// predecessor's hash; genesis carries the sentinel previous hash.
pub proof fn lemma_chain_linkage(blocks: Seq<BlockModel>, i: int)
    requires
        chain_wf(blocks),
        0 <= i < blocks.len(),
    ensures
        blocks[i].index as int == i,
        i == 0 ==> blocks[i].prev_hash == "0"@,
        i > 0 ==> blocks[i].prev_hash == blocks[i - 1].hash,
{
    if i > 0 {
        assert(chain_block_ok(blocks, i));
    }
}

/// Some user row carries this public key.
pub open spec fn has_user_key(users: Seq<crate::index::UserModel>, pk: Seq<char>) -> bool {
    exists|i: int| 0 <= i < users.len() && (#[trigger] users[i]).public_key == pk
}

pub proof fn lemma_find_user_some_iff_exists(users: Seq<crate::index::UserModel>, pk: Seq<char>)
    ensures
        crate::index::find_user_by_key(users, pk) is Some <==> has_user_key(users, pk),
    decreases users.len(),
{
    if users.len() == 0 {
    } else if users[0].public_key == pk {
        assert(has_user_key(users, pk));
    } else {
        lemma_find_user_some_iff_exists(users.skip(1), pk);
        if crate::index::find_user_by_key(users.skip(1), pk) is Some {
            let i = choose|i: int|
                0 <= i < users.skip(1).len() && (#[trigger] users.skip(1)[i]).public_key == pk;
            assert(users[i + 1].public_key == pk);
            assert(has_user_key(users, pk));
        }
        if has_user_key(users, pk) {
            let i = choose|i: int| 0 <= i < users.len() && (#[trigger] users[i]).public_key == pk;
            assert(i != 0);
            assert(users.skip(1)[i - 1].public_key == pk);
            assert(has_user_key(users.skip(1), pk));
        }
    }
}

/// Projecting one more block never removes a user row's public key.
pub proof fn lemma_apply_preserves_user(m: IndexModel, b: BlockModel, pk: Seq<char>)
    requires
        has_user_key(m.users, pk),
    ensures
        has_user_key(apply_block(m, b).users, pk),
{
    let i = choose|i: int| 0 <= i < m.users.len() && (#[trigger] m.users[i]).public_key == pk;
    let after = apply_block(m, b).users;
    match b.data {
        BlockDataModel::User { .. } => {
            assert(after[i].public_key == pk);
        },
        BlockDataModel::UserUpdate { .. } => {
            assert(after[i].public_key == pk);
        },
        BlockDataModel::Post { .. } => {
            assert(after[i].public_key == pk);
        },
        BlockDataModel::Genesis => {
            assert(after[i].public_key == pk);
        },
    }
}

/// Every `User` block of the ledger leaves a user row with its public
/// key in the projected index.
pub proof fn lemma_user_block_indexed(blocks: Seq<BlockModel>, i: int)
    requires
        0 <= i < blocks.len(),
        blocks[i].data is User,
    ensures
        has_user_key(project_blocks(blocks).users, blocks[i].public_key),
    decreases blocks.len(),
{
    let pk = blocks[i].public_key;
    if i == blocks.len() - 1 {
        let m = project_blocks(blocks.drop_last());
        if crate::index::find_user_by_key(m.users, pk) is Some {
            lemma_find_user_some_iff_exists(m.users, pk);
            lemma_apply_preserves_user(m, blocks.last(), pk);
        } else {
            let after = apply_block(m, blocks.last()).users;
            assert(after.last().public_key == pk);
            assert(has_user_key(after, pk));
        }
    } else {
        lemma_user_block_indexed(blocks.drop_last(), i);
        lemma_apply_preserves_user(
            project_blocks(blocks.drop_last()),
            blocks.last(),
            pk,
        );
    }
}

/// Some post row carries this hash.
pub open spec fn has_post_hash(posts: Seq<crate::index::PostRowModel>, hash: Seq<char>) -> bool {
    exists|i: int| 0 <= i < posts.len() && (#[trigger] posts[i]).hash == hash
}

/// Projecting one more block never removes a post row's hash.
pub proof fn lemma_apply_preserves_post(m: IndexModel, b: BlockModel, hash: Seq<char>)
    requires
        has_post_hash(m.posts, hash),
    ensures
        has_post_hash(apply_block(m, b).posts, hash),
{
    let i = choose|i: int| 0 <= i < m.posts.len() && (#[trigger] m.posts[i]).hash == hash;
    let after = apply_block(m, b).posts;
    assert(after[i].hash == hash);
}

/// Every `Post` block of the ledger leaves a post row with its hash in
/// the projected index.
pub proof fn lemma_post_block_indexed(blocks: Seq<BlockModel>, i: int)
    requires
        0 <= i < blocks.len(),
        blocks[i].data is Post,
    ensures
        has_post_hash(project_blocks(blocks).posts, blocks[i].hash),
    decreases blocks.len(),
{
    let hash = blocks[i].hash;
    if i == blocks.len() - 1 {
        let m = project_blocks(blocks.drop_last());
        if crate::index::find_post_row(m.posts, hash) is Some {
            lemma_find_post_some_iff_exists(m.posts, hash);
            lemma_apply_preserves_post(m, blocks.last(), hash);
        } else {
            let after = apply_block(m, blocks.last()).posts;
            assert(after.last().hash == hash);
            assert(has_post_hash(after, hash));
        }
    } else {
        lemma_post_block_indexed(blocks.drop_last(), i);
        lemma_apply_preserves_post(project_blocks(blocks.drop_last()), blocks.last(), hash);
    }
}

pub proof fn lemma_find_post_some_iff_exists(posts: Seq<crate::index::PostRowModel>, hash: Seq<char>)
    ensures
        crate::index::find_post_row(posts, hash) is Some <==> has_post_hash(posts, hash),
    decreases posts.len(),
{
    if posts.len() == 0 {
    } else if posts[0].hash == hash {
        assert(has_post_hash(posts, hash));
    } else {
        lemma_find_post_some_iff_exists(posts.skip(1), hash);
        if crate::index::find_post_row(posts.skip(1), hash) is Some {
            let i = choose|i: int|
                0 <= i < posts.skip(1).len() && (#[trigger] posts.skip(1)[i]).hash == hash;
            assert(posts[i + 1].hash == hash);
            assert(has_post_hash(posts, hash));
        }
        if has_post_hash(posts, hash) {
            let i = choose|i: int| 0 <= i < posts.len() && (#[trigger] posts[i]).hash == hash;
            assert(i != 0);
            assert(posts.skip(1)[i - 1].hash == hash);
            assert(has_post_hash(posts.skip(1), hash));
        }
    }
}

/// The index covers the ledger: every public key registered by a
/// `User` block has a user row in the projection of the store.
pub proof fn lemma_projection_covers_users(blocks: Seq<BlockModel>, pk: Seq<char>)
    requires
        registered_user(blocks, pk),
    ensures
        has_user_key(project_blocks(blocks).users, pk),
{
    let j = choose|j: int|
        0 <= j < blocks.len() && (#[trigger] blocks[j]).data is User && blocks[j].public_key == pk;
    lemma_user_block_indexed(blocks, j);
}

/// The pull walk converges: while one chain is a proper prefix of a
/// well-formed chain, the block at the prefix's height is admissible on
/// the prefix and extends it by exactly one position; when the lengths
/// are equal the chains coincide, with equal hash at every index.
pub proof fn lemma_sync_converges(a: Seq<BlockModel>, b: Seq<BlockModel>)
    requires
        chain_wf(a),
        1 <= b.len() <= a.len(),
        b =~= a.take(b.len() as int),
    ensures
        b.len() < a.len() ==> admissible(b, a[b.len() as int]) && b.push(a[b.len() as int]) =~= a.take(b.len() as int + 1),
        b.len() == a.len() ==> b =~= a && (forall|i: int| 0 <= i < a.len() ==> a[i].hash == (#[trigger] b[i]).hash),
{
    let n = b.len() as int;
    if n < a.len() {
        assert(chain_block_ok(a, n));
        assert(b.last() == a[n - 1]);
        assert(a.take(n) == b);
        assert(b.push(a[n]) =~= a.take(n + 1));
    } else {
        assert(a.take(a.len() as int) =~= a);
    }
}

/// The witness that mining a pending record gave up: the successor
/// block built from the record, with the nonce space exhausted and the
/// difficulty still unmet.
pub open spec fn mining_exhausted(
    blocks: Seq<BlockModel>,
    p: PendingBlockModel,
    b: BlockModel,
) -> bool {
    &&& b.index as int == blocks.len()
    &&& b.data == p.data
    &&& b.timestamp == p.timestamp
    &&& b.public_key == p.public_key
    &&& b.signature == p.signature
    &&& b.prev_hash == blocks.last().hash
    &&& b.nonce == u64::MAX
    &&& block_hash_ok(b)
    &&& !meets_difficulty(b.hash, spec_difficulty())
}

/// A persisted block sequence that replays cleanly: a genesis block
/// followed by blocks each admissible on what came before.
pub open spec fn valid_replay(blocks: Seq<BlockModel>) -> bool {
    &&& blocks.len() >= 1
    &&& genesis_shape(blocks[0])
    &&& block_hash_ok(blocks[0])
    &&& forall|i: int| 1 <= i < blocks.len() ==> admissible(blocks.take(i), #[trigger] blocks[i])
}

/// Appending an admissible block keeps the chain well-formed.
pub proof fn lemma_chain_wf_push(blocks: Seq<BlockModel>, b: BlockModel)
    requires
        chain_wf(blocks),
        admissible(blocks, b),
    ensures
        chain_wf(blocks.push(b)),
{
    let ext = blocks.push(b);
    assert(ext[0] == blocks[0]);
    assert forall|i: int| 1 <= i < ext.len() implies #[trigger] chain_block_ok(ext, i) by {
        if i < blocks.len() {
            assert(chain_block_ok(blocks, i));
            assert(ext[i] == blocks[i]);
            assert(ext[i - 1] == blocks[i - 1]);
            assert(ext.take(i) =~= blocks.take(i));
        } else {
            assert(ext[i] == b);
            assert(ext[i - 1] == blocks.last());
            assert(ext.take(i) =~= blocks);
        }
    }
}

} // verus!
