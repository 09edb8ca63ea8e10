use vstd::prelude::*;

verus! {

/// Integer position of a chunk in world space, in chunks.
#[derive(Clone, Copy, Debug, PartialEq, Eq, Structural, Hash)]
pub struct ChunkCoord {
    pub x: i32,
    pub y: i32,
    pub z: i32,
}

/// Integer position of a block, in blocks.
#[derive(Clone, Copy, Debug, PartialEq, Eq, Structural, Hash)]
pub struct BlockPos {
    pub x: i32,
    pub y: i32,
    pub z: i32,
}

impl ChunkCoord {
    pub fn new(x: i32, y: i32, z: i32) -> (r: ChunkCoord)
        ensures
            r == (ChunkCoord { x, y, z }),
    {
        ChunkCoord { x, y, z }
    }
}

impl BlockPos {
    pub fn new(x: i32, y: i32, z: i32) -> (r: BlockPos)
        ensures
            r == (BlockPos { x, y, z }),
    {
        BlockPos { x, y, z }
    }
}

pub open spec fn abs_diff(a: i32, b: i32) -> int {
    if a >= b {
        a - b
    } else {
        b - a
    }
}

/// A candidate chunk is in scope of a viewer when it lies in the cube of
/// half-width `radius` (in chunks) centred on the viewer's chunk.
pub open spec fn within_radius(center: ChunkCoord, candidate: ChunkCoord, radius: int) -> bool {
    &&& abs_diff(center.x, candidate.x) <= radius
    &&& abs_diff(center.y, candidate.y) <= radius
    &&& abs_diff(center.z, candidate.z) <= radius
}

fn axis_within(a: i32, b: i32, radius: i32) -> (r: bool)
    ensures
        r == (abs_diff(a, b) <= radius),
{
    let d: i64 = if a >= b {
        a as i64 - b as i64
    } else {
        b as i64 - a as i64
    };
    d <= radius as i64
}

/// Whether `candidate` is within `radius` chunks of `center` on every axis.
pub fn chunk_in_radius(center: &ChunkCoord, candidate: &ChunkCoord, radius: i32) -> (r: bool)
    ensures
        r == within_radius(*center, *candidate, radius as int),
{
    axis_within(center.x, candidate.x, radius) && axis_within(center.y, candidate.y, radius)
        && axis_within(center.z, candidate.z, radius)
}

/// Every chunk is in scope of itself for any non-negative radius.
pub proof fn lemma_radius_reflexive(c: ChunkCoord, radius: int)
    requires
        radius >= 0,
    ensures
        within_radius(c, c, radius),
{
}

} // verus!
