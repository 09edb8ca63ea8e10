use std::cell::RefCell;
use world_sync::chunk::{BlockData, Chunk};
use world_sync::coord::{chunk_in_radius, BlockPos, ChunkCoord};
use world_sync::messages::{Channel, ServerDispatch, ServerToClientMessage, Target, WorldUpdate};
use world_sync::sync::{
    answer_world_update_request, broadcast_world_state, dirty_chunks_without_data, send_world_update,
    to_network,
    WorldUpdateRequestEvent, BROADCAST_INTERVAL,
};
use world_sync::table::ChunkTable;
use world_sync::world::{MobState, Position, ServerWorldMap};

fn cc(x: i32, y: i32, z: i32) -> ChunkCoord {
    ChunkCoord::new(x, y, z)
}

fn chunk_with(id: u32) -> Chunk {
    Chunk::from_blocks(vec![(BlockPos::new(1, 2, 3), BlockData { id })])
}

fn block_id(ch: &Chunk) -> u32 {
    ch.map[0].1.id
}

fn update(d: ServerDispatch) -> WorldUpdate {
    match d.message {
        ServerToClientMessage::WorldUpdate(u) => u,
    }
}

fn request(chunks: Vec<ChunkCoord>, center: ChunkCoord, render_distance: u32) -> WorldUpdateRequestEvent {
    WorldUpdateRequestEvent { client: 7, chunks, render_distance, player_chunk_position: center }
}

fn populated_world() -> ServerWorldMap {
    let mut w = ServerWorldMap::new();
    w.player_positions.insert(1, Position { x: 10, y: 20, z: 30 });
    w.player_positions.insert(2, Position { x: 11, y: 21, z: 31 });
    w.mobs.insert(9, MobState { kind: 4, position: Position { x: 1, y: 2, z: 3 } });
    w.time = 123;
    w
}

#[test]
fn radius_contains_center() {
    let c = cc(-4, 17, 2_000_000_000);
    for r in [0, 1, 5, i32::MAX] {
        assert!(chunk_in_radius(&c, &c, r));
    }
}

#[test]
fn radius_is_a_cube() {
    let o = cc(0, 0, 0);
    assert!(chunk_in_radius(&o, &cc(2, -2, 2), 2));
    assert!(!chunk_in_radius(&o, &cc(3, 0, 0), 2));
    assert!(!chunk_in_radius(&o, &cc(0, 3, 0), 2));
    assert!(!chunk_in_radius(&o, &cc(0, 0, -3), 2));
    assert!(!chunk_in_radius(&o, &cc(0, 0, 0), -1));
}

#[test]
fn radius_extreme_coordinates_do_not_overflow() {
    assert!(!chunk_in_radius(&cc(i32::MIN, 0, 0), &cc(i32::MAX, 0, 0), i32::MAX));
    assert!(chunk_in_radius(&cc(-1, 0, 0), &cc(i32::MAX - 1, 0, 0), i32::MAX));
}

#[test]
fn table_insert_replaces() {
    let mut t = ChunkTable::new();
    t.insert(cc(1, 0, 0), chunk_with(1));
    t.insert(cc(2, 0, 0), chunk_with(2));
    t.insert(cc(1, 0, 0), chunk_with(3));
    assert_eq!(t.len(), 2);
    assert_eq!(block_id(t.get(&cc(1, 0, 0)).unwrap()), 3);
    assert!(t.contains_key(&cc(2, 0, 0)));
    assert!(t.get(&cc(9, 9, 9)).is_none());
    let mut keys = t.keys();
    keys.sort_by_key(|c| c.x);
    assert_eq!(keys, vec![cc(1, 0, 0), cc(2, 0, 0)]);
}

#[test]
fn on_demand_filters_by_radius_before_generating() {
    let mut w = ServerWorldMap::new();
    let calls = RefCell::new(Vec::new());
    let generate = |c: ChunkCoord, _seed: u32| -> Chunk {
        calls.borrow_mut().push(c);
        if c == cc(0, 0, 0) { chunk_with(5) } else { Chunk::new() }
    };
    let e = request(vec![cc(0, 0, 0), cc(5, 5, 5)], cc(0, 0, 0), 1);
    let u = answer_world_update_request(&mut w, 3, 42, &e, &generate);
    assert_eq!(u.new_map.keys(), vec![cc(0, 0, 0)]);
    assert_eq!(block_id(u.new_map.get(&cc(0, 0, 0)).unwrap()), 5);
    assert_eq!(w.map.keys(), vec![cc(0, 0, 0)]);
    assert_eq!(*calls.borrow(), vec![cc(0, 0, 0)]);
}

#[test]
fn on_demand_empty_generation_is_neither_stored_nor_sent() {
    let mut w = ServerWorldMap::new();
    let generate = |_c: ChunkCoord, _seed: u32| -> Chunk { Chunk::new() };
    let e = request(vec![cc(0, 0, 0), cc(1, 1, 1)], cc(0, 0, 0), 2);
    let u = answer_world_update_request(&mut w, 3, 42, &e, &generate);
    assert_eq!(u.new_map.len(), 0);
    assert_eq!(w.map.len(), 0);
}

#[test]
fn on_demand_second_request_served_from_store() {
    let mut w = ServerWorldMap::new();
    let calls = RefCell::new(0u32);
    let generate = |c: ChunkCoord, seed: u32| -> Chunk {
        *calls.borrow_mut() += 1;
        chunk_with(seed + c.x as u32)
    };
    let e = request(vec![cc(1, 0, 0), cc(2, 0, 0)], cc(0, 0, 0), 4);
    let u1 = answer_world_update_request(&mut w, 1, 100, &e, &generate);
    let u2 = answer_world_update_request(&mut w, 2, 100, &e, &generate);
    assert_eq!(*calls.borrow(), 2);
    for c in [cc(1, 0, 0), cc(2, 0, 0)] {
        assert_eq!(u1.new_map.get(&c).unwrap().map, u2.new_map.get(&c).unwrap().map);
    }
    assert_eq!(block_id(u2.new_map.get(&cc(2, 0, 0)).unwrap()), 102);
    assert_eq!(u2.tick, 2);
}

#[test]
fn on_demand_keeps_existing_chunk_and_skips_stored_empty_one() {
    let mut w = ServerWorldMap::new();
    w.map.insert(cc(0, 0, 0), chunk_with(8));
    w.map.insert(cc(0, 1, 0), Chunk::new());
    let generate = |_c: ChunkCoord, _seed: u32| -> Chunk { chunk_with(99) };
    let e = request(vec![cc(0, 0, 0), cc(0, 1, 0)], cc(0, 0, 0), 1);
    let u = answer_world_update_request(&mut w, 1, 0, &e, &generate);
    assert_eq!(u.new_map.len(), 1);
    assert_eq!(block_id(u.new_map.get(&cc(0, 0, 0)).unwrap()), 8);
    assert!(w.map.get(&cc(0, 1, 0)).unwrap().is_empty());
    assert_eq!(w.chunks_to_update.len(), 0);
}

#[test]
fn on_demand_empty_request_still_carries_full_state() {
    let mut w = populated_world();
    let generate = |_c: ChunkCoord, _seed: u32| -> Chunk { chunk_with(1) };
    let e = request(Vec::new(), cc(0, 0, 0), 3);
    let u = answer_world_update_request(&mut w, 11, 0, &e, &generate);
    assert_eq!(u.new_map.len(), 0);
    assert_eq!(u.tick, 11);
    assert_eq!(u.time, 123);
    assert_eq!(u.player_positions, w.player_positions);
    assert_eq!(u.player_positions.len(), 2);
    assert_eq!(u.mobs, w.mobs);
}

#[test]
fn send_world_update_answers_each_client() {
    let mut w = ServerWorldMap::new();
    let generate = |c: ChunkCoord, _seed: u32| -> Chunk { chunk_with(c.x as u32) };
    let mut a = request(vec![cc(1, 0, 0)], cc(0, 0, 0), 1);
    a.client = 1;
    let mut b = request(vec![cc(1, 0, 0), cc(9, 0, 0)], cc(8, 0, 0), 1);
    b.client = 2;
    let out = send_world_update(&mut w, 5, 0, &vec![a, b], &generate);
    assert_eq!(out.len(), 2);
    let targets: Vec<Target> = out.iter().map(|d| d.target).collect();
    assert_eq!(targets, vec![Target::Client(1), Target::Client(2)]);
    assert!(out.iter().all(|d| d.channel == Channel::ReliableUnordered));
    let mut it = out.into_iter();
    let ua = update(it.next().unwrap());
    let ub = update(it.next().unwrap());
    assert_eq!(ua.new_map.keys(), vec![cc(1, 0, 0)]);
    assert_eq!(ub.new_map.keys(), vec![cc(9, 0, 0)]);
    assert_eq!(w.map.len(), 2);
}

#[test]
fn broadcast_collapses_duplicate_marks() {
    let mut w = ServerWorldMap::new();
    w.record_chunk_change(cc(1, 0, 0), chunk_with(1));
    w.record_chunk_change(cc(1, 0, 0), chunk_with(2));
    w.record_chunk_change(cc(2, 0, 0), chunk_with(3));
    assert_eq!(w.chunks_to_update, vec![cc(1, 0, 0), cc(1, 0, 0), cc(2, 0, 0)]);
    let u = to_network(&mut w, 40);
    assert_eq!(u.new_map.len(), 2);
    assert_eq!(block_id(u.new_map.get(&cc(1, 0, 0)).unwrap()), 2);
    assert_eq!(block_id(u.new_map.get(&cc(2, 0, 0)).unwrap()), 3);
    assert!(w.chunks_to_update.is_empty());
}

#[test]
fn broadcast_drains_marks_between_broadcasts() {
    let mut w = ServerWorldMap::new();
    w.record_chunk_change(cc(1, 0, 0), chunk_with(1));
    let first = update(broadcast_world_state(&mut w, 0, 0).unwrap());
    assert_eq!(first.new_map.keys(), vec![cc(1, 0, 0)]);
    assert!(w.chunks_to_update.is_empty());
    w.record_chunk_change(cc(3, 0, 0), chunk_with(3));
    let second = update(broadcast_world_state(&mut w, BROADCAST_INTERVAL, 1).unwrap());
    assert_eq!(second.new_map.keys(), vec![cc(3, 0, 0)]);
    let third = update(broadcast_world_state(&mut w, 2 * BROADCAST_INTERVAL, 2).unwrap());
    assert_eq!(third.new_map.len(), 0);
}

#[test]
fn broadcast_only_on_interval_ticks() {
    let mut w = populated_world();
    w.record_chunk_change(cc(1, 0, 0), chunk_with(1));
    assert_eq!(BROADCAST_INTERVAL, 40);
    assert!(broadcast_world_state(&mut w, 39, 500).is_none());
    assert_eq!(w.time, 123);
    assert_eq!(w.chunks_to_update.len(), 1);
    let d = broadcast_world_state(&mut w, 80, 500).unwrap();
    assert_eq!(d.target, Target::AllClients);
    assert_eq!(d.channel, Channel::ReliableUnordered);
    let u = update(d);
    assert_eq!(u.tick, 80);
    assert_eq!(u.time, 500);
    assert_eq!(w.time, 500);
    assert_eq!(u.player_positions, w.player_positions);
    assert_eq!(u.mobs, w.mobs);
    assert_eq!(u.mobs.len(), 1);
}

#[test]
fn broadcast_skips_mark_without_chunk() {
    let mut w = ServerWorldMap::new();
    w.record_chunk_change(cc(1, 0, 0), chunk_with(1));
    w.chunks_to_update.push(cc(6, 6, 6));
    let u = to_network(&mut w, 0);
    assert_eq!(u.new_map.keys(), vec![cc(1, 0, 0)]);
    assert!(w.chunks_to_update.is_empty());
}

#[test]
fn chunk_duplicate_keeps_blocks() {
    let ch = Chunk::from_blocks(vec![
        (BlockPos::new(0, 0, 0), BlockData { id: 1 }),
        (BlockPos::new(15, 15, 15), BlockData { id: 2 }),
    ]);
    let d = ch.duplicate();
    assert_eq!(d.map, ch.map);
    assert!(!d.is_empty());
    assert!(Chunk::new().is_empty());
}

#[test]
fn dirty_marks_without_chunk_are_reported() {
    let mut w = ServerWorldMap::new();
    w.record_chunk_change(cc(1, 0, 0), chunk_with(1));
    w.chunks_to_update.push(cc(6, 6, 6));
    w.chunks_to_update.push(cc(1, 0, 0));
    w.chunks_to_update.push(cc(7, 0, 0));
    assert_eq!(dirty_chunks_without_data(&w), vec![cc(6, 6, 6), cc(7, 0, 0)]);
    assert!(dirty_chunks_without_data(&ServerWorldMap::new()).is_empty());
}

#[test]
fn send_world_update_generates_missing_in_scope_chunks() {
    let mut w = ServerWorldMap::new();
    let generate = |c: ChunkCoord, _seed: u32| -> Chunk {
        if c == cc(5, 5, 5) { Chunk::new() } else { chunk_with(4) }
    };
    let e = request(vec![cc(0, 0, 0), cc(5, 5, 5)], cc(0, 0, 0), 1);
    let out = send_world_update(&mut w, 1, 0, &vec![e.clone(), e], &generate);
    let mut it = out.into_iter();
    let u1 = update(it.next().unwrap());
    let u2 = update(it.next().unwrap());
    assert_eq!(u1.new_map.keys(), vec![cc(0, 0, 0)]);
    assert_eq!(u2.new_map.keys(), vec![cc(0, 0, 0)]);
    assert_eq!(u1.new_map.get(&cc(0, 0, 0)).unwrap().map, u2.new_map.get(&cc(0, 0, 0)).unwrap().map);
    assert_eq!(w.map.keys(), vec![cc(0, 0, 0)]);
}
