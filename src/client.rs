use vstd::prelude::*;
use crate::chunk::BlockData;
use crate::coord::{BlockPos, ChunkCoord};
use crate::messages::{Channel, ClientDispatch, ClientToServerMessage};

verus! {

/// Session token sent with save requests; sessions are not authenticated.
pub const UNAUTHENTICATED_SESSION_TOKEN: u64 = 0;

/// Something the local player did that the server must hear of.
pub enum NetworkAction {
    ChatMessage(String),
    WorldUpdateRequest {
        requested_chunks: Vec<ChunkCoord>,
        player_chunk_pos: ChunkCoord,
        render_distance: u32,
    },
    SaveWorldRequest,
    BlockInteraction {
        position: BlockPos,
        /// `None` removes the block at `position`, `Some` places one.
        block_type: Option<BlockData>,
    },
}

/// The wire message that stands for `action`.
pub open spec fn intent_message(action: NetworkAction) -> ClientToServerMessage {
    match action {
        NetworkAction::ChatMessage(msg) => ClientToServerMessage::ChatMessage { content: msg },
        NetworkAction::WorldUpdateRequest { requested_chunks, player_chunk_pos, render_distance } =>
            ClientToServerMessage::WorldUpdateRequest {
            player_chunk_position: player_chunk_pos,
            requested_chunks,
            render_distance,
        },
        NetworkAction::SaveWorldRequest => ClientToServerMessage::SaveWorldRequest {
            session_token: UNAUTHENTICATED_SESSION_TOKEN,
        },
        NetworkAction::BlockInteraction { position, block_type } =>
            ClientToServerMessage::BlockInteraction { position, block_type },
    }
}

/// Turns a player action into the message that reports it, to go out on the
/// ordered reliable channel so that the server applies actions in the order
/// they were taken.
pub fn send_network_action(action: NetworkAction) -> (r: ClientDispatch)
    ensures
        r.channel == Channel::ReliableOrdered,
        r.message == intent_message(action),
{
    let message = match action {
        NetworkAction::ChatMessage(msg) => ClientToServerMessage::ChatMessage { content: msg },
        NetworkAction::WorldUpdateRequest { requested_chunks, player_chunk_pos, render_distance } =>
            ClientToServerMessage::WorldUpdateRequest {
            player_chunk_position: player_chunk_pos,
            requested_chunks,
            render_distance,
        },
        NetworkAction::SaveWorldRequest => ClientToServerMessage::SaveWorldRequest {
            session_token: UNAUTHENTICATED_SESSION_TOKEN,
        },
        NetworkAction::BlockInteraction { position, block_type } =>
            ClientToServerMessage::BlockInteraction { position, block_type },
    };
    ClientDispatch { channel: Channel::ReliableOrdered, message }
}

} // verus!
