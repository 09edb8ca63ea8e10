use vstd::prelude::*;
use crate::coord::{BlockPos, ChunkCoord};

verus! {

/// What stands at one block position.
#[derive(Clone, Copy, Debug, PartialEq, Eq, Structural, Hash)]
pub struct BlockData {
    pub id: u32,
}

/// The blocks of one chunk, as entries from position to block.
pub type ChunkContent = Seq<(BlockPos, BlockData)>;

/// One chunk of terrain. A chunk without blocks carries nothing worth
/// storing or sending.
#[derive(Clone, Debug)]
pub struct Chunk {
    pub map: Vec<(BlockPos, BlockData)>,
}

impl View for Chunk {
    type V = ChunkContent;

    open spec fn view(&self) -> ChunkContent {
        self.map@
    }
}

impl Chunk {
    pub fn new() -> (r: Chunk)
        ensures
            r@ == Seq::<(BlockPos, BlockData)>::empty(),
    {
        Chunk { map: Vec::new() }
    }

    pub fn from_blocks(map: Vec<(BlockPos, BlockData)>) -> (r: Chunk)
        ensures
            r@ == map@,
    {
        Chunk { map }
    }

    pub fn is_empty(&self) -> (r: bool)
        ensures
            r == (self@.len() == 0),
    {
        self.map.len() == 0
    }

    /// A copy with the same blocks.
    pub fn duplicate(&self) -> (r: Chunk)
        ensures
            r@ == self@,
    {
        let mut out: Vec<(BlockPos, BlockData)> = Vec::with_capacity(self.map.len());
        let mut i: usize = 0;
        while i < self.map.len()
            invariant
                i <= self.map@.len(),
                out@ == self.map@.subrange(0, i as int),
            decreases self.map@.len() - i,
        {
            out.push(self.map[i]);
            i += 1;
            proof {
                assert(out@ =~= self.map@.subrange(0, i as int));
            }
        }
        proof {
            assert(out@ =~= self.map@);
        }
        Chunk { map: out }
    }
}

} // verus!
