use vstd::prelude::*;
use std::collections::HashMap;
use crate::chunk::{Chunk, ChunkContent};
use crate::coord::ChunkCoord;
use crate::table::ChunkTable;

verus! {

/// A position in the world, each axis held as the bit pattern of an IEEE-754
/// single-precision number. Positions are copied here, never computed with.
#[derive(Clone, Copy, Debug, PartialEq, Eq, Structural, Hash)]
pub struct Position {
    pub x: u32,
    pub y: u32,
    pub z: u32,
}

/// The state of one mob, as far as clients are told of it.
#[derive(Clone, Copy, Debug, PartialEq, Eq, Structural, Hash)]
pub struct MobState {
    pub kind: u32,
    pub position: Position,
}

/// The authoritative world held by the server.
pub struct ServerWorldMap {
    /// Chunks by coordinate. Entries are added, never removed.
    pub map: ChunkTable,
    /// Coordinates whose chunk changed since the last periodic broadcast,
    /// in the order the changes were recorded; repeats are allowed.
    pub chunks_to_update: Vec<ChunkCoord>,
    /// Position of each player, by player id.
    pub player_positions: HashMap<u64, Position>,
    /// State of each mob, by mob id.
    pub mobs: HashMap<u64, MobState>,
    /// Simulation time at the last periodic broadcast.
    pub time: u64,
}

/// `after` is `before` with `content` stored at `c` and `c` marked for the
/// next periodic broadcast.
pub open spec fn records_change(before: ServerWorldMap, after: ServerWorldMap, c: ChunkCoord, content: ChunkContent) -> bool {
    &&& after.wf()
    &&& after.map@ == before.map@.insert(c, content)
    &&& after.chunks_to_update@ == before.chunks_to_update@.push(c)
    &&& after.player_positions@ == before.player_positions@
    &&& after.mobs@ == before.mobs@
    &&& after.time == before.time
}

impl ServerWorldMap {
    pub open spec fn wf(&self) -> bool {
        self.map.wf()
    }

    /// An empty world at time zero.
    pub fn new() -> (r: ServerWorldMap)
        ensures
            r.wf(),
            r.map@.is_empty(),
            r.chunks_to_update@.len() == 0,
            r.player_positions@.is_empty(),
            r.mobs@.is_empty(),
            r.time == 0,
    {
        ServerWorldMap {
            map: ChunkTable::new(),
            chunks_to_update: Vec::new(),
            player_positions: HashMap::new(),
            mobs: HashMap::new(),
            time: 0,
        }
    }

    /// Stores new content for the chunk at `c` and marks it for the next
    /// periodic broadcast.
    pub fn record_chunk_change(&mut self, c: ChunkCoord, chunk: Chunk)
        requires
            old(self).wf(),
        ensures
            records_change(*old(self), *final(self), c, chunk@),
    {
        self.map.insert(c, chunk);
        self.chunks_to_update.push(c);
    }
}

} // verus!
