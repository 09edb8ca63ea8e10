use vstd::prelude::*;
use std::collections::HashMap;
use crate::chunk::BlockData;
use crate::coord::{BlockPos, ChunkCoord};
use crate::table::ChunkTable;
use crate::world::{MobState, Position};

verus! {

/// The world state sent from server to client.
pub struct WorldUpdate {
    pub tick: u64,
    /// All player positions, not only those that changed.
    pub player_positions: HashMap<u64, Position>,
    /// The chunks sent with this update; none of them is empty.
    pub new_map: ChunkTable,
    pub time: u64,
    /// All mobs, not only those that changed.
    pub mobs: HashMap<u64, MobState>,
}

pub enum ServerToClientMessage {
    WorldUpdate(WorldUpdate),
}

pub enum ClientToServerMessage {
    ChatMessage { content: String },
    WorldUpdateRequest {
        player_chunk_position: ChunkCoord,
        requested_chunks: Vec<ChunkCoord>,
        render_distance: u32,
    },
    SaveWorldRequest { session_token: u64 },
    BlockInteraction { position: BlockPos, block_type: Option<BlockData> },
}

/// Delivery guarantee of a transport channel.
#[derive(Clone, Copy, Debug, PartialEq, Eq, Structural)]
pub enum Channel {
    /// Every message arrives, in the order sent.
    ReliableOrdered,
    /// Every message arrives, in any order.
    ReliableUnordered,
}

/// Who a server message goes to.
#[derive(Clone, Copy, Debug, PartialEq, Eq, Structural)]
pub enum Target {
    Client(u64),
    AllClients,
}

/// A server message ready for the transport.
pub struct ServerDispatch {
    pub target: Target,
    pub channel: Channel,
    pub message: ServerToClientMessage,
}

/// A client message ready for the transport.
pub struct ClientDispatch {
    pub channel: Channel,
    pub message: ClientToServerMessage,
}

} // verus!
