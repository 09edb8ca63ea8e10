//! Server-side world synchronisation for a multiplayer voxel world: the
//! authoritative chunk store, the radius filter that decides what a viewer
//! may see, the on-demand and periodic world updates, and the mapping of
//! client actions into wire messages.

pub mod coord;
pub mod chunk;
pub mod table;
pub mod world;
pub mod messages;
pub mod sync;
pub mod client;
