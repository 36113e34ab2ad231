//! The block store: an ordered map from block index to block, with an
//! entry at every index up to its height.

use vstd::prelude::*;
use crate::block::Block;
use crate::block::BlockModel;

verus! {

/// The store holds the block with index `i` at position `i`.
pub open spec fn store_wf(s: Seq<BlockModel>) -> bool {
    forall|i: int| 0 <= i < s.len() ==> #[trigger] s[i].index as int == i
}

/// The ordered block store.
#[derive(Debug)]
pub struct Storage {
    blocks: Vec<Block>,
}

impl View for Storage {
    type V = Seq<BlockModel>;

    closed spec fn view(&self) -> Seq<BlockModel> {
        self.blocks@.map_values(|b: Block| b@)
    }
}

impl Storage {
    /// An empty store.
    pub fn new() -> (r: Storage)
        ensures
            r@ =~= Seq::<BlockModel>::empty(),
    {
        Storage { blocks: Vec::new() }
    }

    /// The number of stored blocks.
    pub fn block_count(&self) -> (r: usize)
        ensures
            r == self@.len(),
    {
        self.blocks.len()
    }

    /// Retrieve the block at `index`, when present.
    pub fn get_block(&self, index: u64) -> (r: Option<Block>)
        ensures
            r is Some <==> index < self@.len(),
            r matches Some(b) ==> b@ == self@[index as int],
    {
        if index < self.blocks.len() as u64 {
            Some(self.blocks[index as usize].clone())
        } else {
            None
        }
    }

    /// Write or overwrite the block at its own index. The index may be
    /// at most the current length, so the store keeps an entry at every
    /// index up to its height.
    pub fn put_block(&mut self, block: Block)
        requires
            (block@.index as int) <= old(self)@.len(),
        ensures
            (block@.index as int) < old(self)@.len() ==> final(self)@ =~= old(self)@.update(
                block@.index as int,
                block@,
            ),
            (block@.index as int) == old(self)@.len() ==> final(self)@ =~= old(self)@.push(block@),
    {
        if block.index < self.blocks.len() as u64 {
            let i = block.index as usize;
            self.blocks.set(i, block);
        } else {
            self.blocks.push(block);
        }
    }

    /// The block with the highest index.
    pub fn top_block(&self) -> (r: Block)
        requires
            self@.len() > 0,
        ensures
            r@ == self@.last(),
    {
        self.blocks[self.blocks.len() - 1].clone()
    }

    /// The height of the chain: the highest stored index.
    pub fn get_height(&self) -> (r: u64)
        requires
            self@.len() > 0,
        ensures
            r == self@.last().index,
    {
        self.top_block().index
    }
}

} // verus!
