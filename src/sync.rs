use vstd::prelude::*;
use crate::chunk::{Chunk, ChunkContent};
use crate::coord::{chunk_in_radius, within_radius, ChunkCoord};
use crate::messages::{Channel, ServerDispatch, ServerToClientMessage, Target, WorldUpdate};
use crate::table::ChunkTable;
use crate::world::{records_change, ServerWorldMap};

verus! {

/// Simulation ticks per second of simulated time.
pub const TICKS_PER_SECOND: u64 = 20;

/// Ticks between two periodic broadcasts: two seconds of simulated time.
pub const BROADCAST_INTERVAL: u64 = 2 * TICKS_PER_SECOND;

/// A client's request for the chunks around it.
#[derive(Clone, Debug)]
pub struct WorldUpdateRequestEvent {
    pub client: u64,
    pub chunks: Vec<ChunkCoord>,
    pub render_distance: u32,
    pub player_chunk_position: ChunkCoord,
}

/// The radius a request is served with: its render distance as an `i32`.
pub open spec fn request_radius(e: WorldUpdateRequestEvent) -> int {
    e.render_distance as i32 as int
}

/// `c` is among `requested` and within `radius` of `center`.
pub open spec fn in_scope(center: ChunkCoord, radius: int, requested: Seq<ChunkCoord>, c: ChunkCoord) -> bool {
    requested.contains(c) && within_radius(center, c, radius)
}

/// The non-empty chunks of `m` that are in scope.
pub open spec fn visible(
    m: Map<ChunkCoord, ChunkContent>,
    center: ChunkCoord,
    radius: int,
    requested: Seq<ChunkCoord>,
) -> Map<ChunkCoord, ChunkContent> {
    Map::new(
        |c: ChunkCoord| in_scope(center, radius, requested, c) && m.contains_key(c) && m[c].len() > 0,
        |c: ChunkCoord| m[c],
    )
}

/// The chunks of `m` in scope of a request and not empty.
pub open spec fn visible_for(m: Map<ChunkCoord, ChunkContent>, e: WorldUpdateRequestEvent) -> Map<ChunkCoord, ChunkContent> {
    visible(m, e.player_chunk_position, request_radius(e), e.chunks@)
}

/// `generate` may be called on `c` with `seed` and hand back an empty chunk.
pub open spec fn may_generate_empty<G: Fn(ChunkCoord, u32) -> Chunk>(generate: G, c: ChunkCoord, seed: u32) -> bool {
    exists|ch: Chunk| #[trigger] call_ensures(generate, (c, seed), ch) && ch@.len() == 0
}

/// `generate` may be called on `c` with `seed` and hand back `content`.
pub open spec fn may_generate<G: Fn(ChunkCoord, u32) -> Chunk>(generate: G, c: ChunkCoord, seed: u32, content: ChunkContent) -> bool {
    exists|ch: Chunk| #[trigger] call_ensures(generate, (c, seed), ch) && ch@ == content
}

/// `generate` gives the same blocks whenever called on the same arguments.
pub open spec fn deterministic<G: Fn(ChunkCoord, u32) -> Chunk>(generate: G) -> bool {
    forall|c: ChunkCoord, s: u32, a: Chunk, b: Chunk|
        #[trigger] call_ensures(generate, (c, s), a) && #[trigger] call_ensures(generate, (c, s), b) ==> a@ == b@
}

/// The store `after` is the store `before` with chunks added for in-scope
/// coordinates that were missing and that the generator filled.
pub open spec fn grows_by_generation<G: Fn(ChunkCoord, u32) -> Chunk>(
    before: Map<ChunkCoord, ChunkContent>,
    after: Map<ChunkCoord, ChunkContent>,
    generate: G,
    seed: u32,
    center: ChunkCoord,
    radius: int,
    requested: Seq<ChunkCoord>,
) -> bool {
    &&& forall|c: ChunkCoord| #[trigger] before.contains_key(c) ==> after.contains_key(c) && after[c] == before[c]
    &&& forall|c: ChunkCoord| #[trigger] after.contains_key(c) && !before.contains_key(c) ==> {
        &&& in_scope(center, radius, requested, c)
        &&& after[c].len() > 0
        &&& may_generate(generate, c, seed, after[c])
    }
    &&& forall|c: ChunkCoord| #[trigger] in_scope(center, radius, requested, c) && !after.contains_key(c)
        ==> may_generate_empty(generate, c, seed)
}

/// Extending a prefix of `s` by one element adds exactly that element.
proof fn lemma_prefix_step(s: Seq<ChunkCoord>, i: int)
    requires
        0 <= i < s.len(),
    ensures
        forall|k: ChunkCoord| #[trigger] s.subrange(0, i + 1).contains(k)
            == (s.subrange(0, i).contains(k) || k == s[i]),
{
    let done = s.subrange(0, i);
    let next = s.subrange(0, i + 1);
    assert forall|k: ChunkCoord| #[trigger] next.contains(k) == (done.contains(k) || k == s[i]) by {
        if done.contains(k) {
            let j = choose|j: int| 0 <= j < done.len() && done[j] == k;
            assert(next[j] == k);
        }
        if next.contains(k) && k != s[i] {
            let j = choose|j: int| 0 <= j < next.len() && next[j] == k;
            assert(done[j] == k);
        }
        if k == s[i] {
            assert(next[i] == k);
        }
    }
}

/// What answering request `e` at `tick` does: `after` is `before` with
/// generated chunks added, and `u` carries the full player and mob tables
/// and the non-empty chunks in scope of `e`.
pub open spec fn answers<G: Fn(ChunkCoord, u32) -> Chunk>(
    before: ServerWorldMap,
    after: ServerWorldMap,
    u: WorldUpdate,
    generate: G,
    seed: u32,
    tick: u64,
    e: WorldUpdateRequestEvent,
) -> bool {
    &&& after.wf()
    &&& grows_by_generation(before.map@, after.map@, generate, seed, e.player_chunk_position, request_radius(e), e.chunks@)
    &&& after.chunks_to_update@ == before.chunks_to_update@
    &&& after.player_positions@ == before.player_positions@
    &&& after.mobs@ == before.mobs@
    &&& after.time == before.time
    &&& u.tick == tick
    &&& u.time == before.time
    &&& u.player_positions@ == before.player_positions@
    &&& u.mobs@ == before.mobs@
    &&& u.new_map.wf()
    &&& u.new_map@ == visible_for(after.map@, e)
}

/// Answers one request: every requested chunk within the render distance is
/// taken from the store, or generated and stored if the store lacks it;
/// empty chunks are neither stored nor sent.
pub fn answer_world_update_request<G: Fn(ChunkCoord, u32) -> Chunk>(
    world_map: &mut ServerWorldMap,
    tick: u64,
    seed: u32,
    event: &WorldUpdateRequestEvent,
    generate: &G,
) -> (u: WorldUpdate)
    requires
        old(world_map).wf(),
        forall|c: ChunkCoord|
            in_scope(event.player_chunk_position, request_radius(*event), event.chunks@, c)
                && !old(world_map).map@.contains_key(c) ==> #[trigger] call_requires(*generate, (c, seed)),
    ensures
        answers(*old(world_map), *final(world_map), u, *generate, seed, tick, *event),
{
    let ghost before = world_map.map@;
    let ghost e = *event;
    let radius: i32 = #[verifier::truncate] (event.render_distance as i32);
    let mut delta = ChunkTable::new();
    let mut i: usize = 0;
    while i < event.chunks.len()
        invariant
            i <= event.chunks@.len(),
            radius == request_radius(e),
            e == *event,
            world_map.wf(),
            delta.wf(),
            world_map.chunks_to_update@ == old(world_map).chunks_to_update@,
            world_map.player_positions@ == old(world_map).player_positions@,
            world_map.mobs@ == old(world_map).mobs@,
            world_map.time == old(world_map).time,
            before == old(world_map).map@,
            forall|c: ChunkCoord|
                in_scope(event.player_chunk_position, request_radius(*event), event.chunks@, c)
                    && !before.contains_key(c) ==> #[trigger] call_requires(*generate, (c, seed)),
            grows_by_generation(
                before,
                world_map.map@,
                *generate,
                seed,
                event.player_chunk_position,
                radius as int,
                event.chunks@.subrange(0, i as int),
            ),
            delta@ == visible(world_map.map@, event.player_chunk_position, radius as int, event.chunks@.subrange(0, i as int)),
        decreases event.chunks@.len() - i,
    {
        let c = event.chunks[i];
        let ghost done = event.chunks@.subrange(0, i as int);
        let ghost next = event.chunks@.subrange(0, i + 1);
        let ghost m0 = world_map.map@;
        proof {
            assert(event.chunks@[i as int] == c);
            lemma_prefix_step(event.chunks@, i as int);
        }
        if chunk_in_radius(&event.player_chunk_position, &c, radius) {
            if world_map.map.contains_key(&c) {
                match world_map.map.get(&c) {
                    Some(ch) => {
                        if !ch.is_empty() {
                            delta.insert(c, ch.duplicate());
                        }
                    },
                    None => {},
                }
                proof {
                    assert(delta@ =~= visible(world_map.map@, event.player_chunk_position, radius as int, next));
                }
            } else {
                let ch = generate(c, seed);
                if !ch.is_empty() {
                    delta.insert(c, ch.duplicate());
                    world_map.map.insert(c, ch);
                    proof {
                        assert(may_generate(*generate, c, seed, world_map.map@[c]));
                    }
                } else {
                    proof {
                        assert(may_generate_empty(*generate, c, seed));
                    }
                }
                proof {
                    assert(delta@ =~= visible(world_map.map@, event.player_chunk_position, radius as int, next));
                }
            }
        } else {
            proof {
                assert(delta@ =~= visible(world_map.map@, event.player_chunk_position, radius as int, next));
            }
        }
        proof {
            let m1 = world_map.map@;
            let center = event.player_chunk_position;
            assert forall|k: ChunkCoord| #[trigger] in_scope(center, radius as int, next, k) && !m1.contains_key(k)
                implies may_generate_empty(*generate, k, seed) by {
                if k != c {
                    assert(in_scope(center, radius as int, done, k));
                }
            }
            assert forall|k: ChunkCoord| #[trigger] m1.contains_key(k) && !before.contains_key(k) implies {
                &&& in_scope(center, radius as int, next, k)
                &&& m1[k].len() > 0
                &&& may_generate(*generate, k, seed, m1[k])
            } by {
                if k != c {
                    assert(m0.contains_key(k));
                }
            }
        }
        i += 1;
    }
    proof {
        assert(event.chunks@.subrange(0, i as int) =~= event.chunks@);
    }
    WorldUpdate {
        tick,
        player_positions: world_map.player_positions.clone(),
        new_map: delta,
        time: world_map.time,
        mobs: world_map.mobs.clone(),
    }
}

/// What building the periodic update at `tick` does: the update holds the
/// stored content of each distinct coordinate marked for broadcast that the
/// store has, the full player and mob tables and the store's time, and the
/// marks are cleared.
pub open spec fn drains(before: ServerWorldMap, after: ServerWorldMap, u: WorldUpdate, tick: u64) -> bool {
    &&& after.wf()
    &&& after.map@ == before.map@
    &&& after.chunks_to_update@.len() == 0
    &&& after.player_positions@ == before.player_positions@
    &&& after.mobs@ == before.mobs@
    &&& after.time == before.time
    &&& u.tick == tick
    &&& u.time == before.time
    &&& u.player_positions@ == before.player_positions@
    &&& u.mobs@ == before.mobs@
    &&& u.new_map.wf()
    &&& u.new_map@ == before.map@.restrict(before.chunks_to_update@.to_set())
}

/// Builds the periodic update from the chunks marked for broadcast and
/// clears the marks. A marked coordinate without a stored chunk is skipped.
pub fn to_network(world_map: &mut ServerWorldMap, tick: u64) -> (u: WorldUpdate)
    requires
        old(world_map).wf(),
    ensures
        drains(*old(world_map), *final(world_map), u, tick),
{
    let mut delta = ChunkTable::new();
    let mut i: usize = 0;
    while i < world_map.chunks_to_update.len()
        invariant
            i <= world_map.chunks_to_update@.len(),
            world_map.wf(),
            delta.wf(),
            world_map.chunks_to_update@ == old(world_map).chunks_to_update@,
            world_map.map@ == old(world_map).map@,
            world_map.player_positions@ == old(world_map).player_positions@,
            world_map.mobs@ == old(world_map).mobs@,
            world_map.time == old(world_map).time,
            forall|c: ChunkCoord| #[trigger] delta@.contains_key(c) <==> (
                world_map.chunks_to_update@.subrange(0, i as int).contains(c) && world_map.map@.contains_key(c)),
            forall|c: ChunkCoord| #[trigger] delta@.contains_key(c) ==> delta@[c] == world_map.map@[c],
        decreases world_map.chunks_to_update@.len() - i,
    {
        let c = world_map.chunks_to_update[i];
        proof {
            lemma_prefix_step(world_map.chunks_to_update@, i as int);
        }
        match world_map.map.get(&c) {
            Some(ch) => {
                delta.insert(c, ch.duplicate());
            },
            None => {},
        }
        i += 1;
    }
    proof {
        let dirty = world_map.chunks_to_update@;
        assert(dirty.subrange(0, i as int) =~= dirty);
        assert(delta@ =~= world_map.map@.restrict(dirty.to_set()));
    }
    world_map.chunks_to_update.clear();
    WorldUpdate {
        tick,
        player_positions: world_map.player_positions.clone(),
        new_map: delta,
        time: world_map.time,
        mobs: world_map.mobs.clone(),
    }
}

/// The world update a server message carries.
pub open spec fn update_of(d: ServerDispatch) -> WorldUpdate {
    match d.message {
        ServerToClientMessage::WorldUpdate(u) => u,
    }
}

/// Runs once per tick. On every `BROADCAST_INTERVAL`-th tick it records
/// `time` as the store's time and returns the periodic update for all
/// clients; on other ticks it does nothing.
pub fn broadcast_world_state(world_map: &mut ServerWorldMap, tick: u64, time: u64) -> (r: Option<ServerDispatch>)
    requires
        old(world_map).wf(),
    ensures
        r.is_none() <==> tick % BROADCAST_INTERVAL != 0,
        r.is_none() ==> *final(world_map) == *old(world_map),
        match r {
            Some(d) => {
                &&& d.target == Target::AllClients
                &&& d.channel == Channel::ReliableUnordered
                &&& drains(ServerWorldMap { time, ..*old(world_map) }, *final(world_map), update_of(d), tick)
            },
            None => true,
        },
{
    if tick % BROADCAST_INTERVAL != 0 {
        return None;
    }
    world_map.time = time;
    let u = to_network(world_map, tick);
    Some(ServerDispatch {
        target: Target::AllClients,
        channel: Channel::ReliableUnordered,
        message: ServerToClientMessage::WorldUpdate(u),
    })
}

/// Answers each request in turn, each with one update for the client that
/// asked, on the unordered reliable channel. Requests are answered against
/// the store as earlier ones left it.
pub fn send_world_update<G: Fn(ChunkCoord, u32) -> Chunk>(
    world_map: &mut ServerWorldMap,
    tick: u64,
    seed: u32,
    events: &Vec<WorldUpdateRequestEvent>,
    generate: &G,
) -> (out: Vec<ServerDispatch>)
    requires
        old(world_map).wf(),
        forall|c: ChunkCoord| #[trigger] call_requires(*generate, (c, seed)),
        deterministic(*generate),
    ensures
        final(world_map).wf(),
        final(world_map).chunks_to_update@ == old(world_map).chunks_to_update@,
        final(world_map).player_positions@ == old(world_map).player_positions@,
        final(world_map).mobs@ == old(world_map).mobs@,
        final(world_map).time == old(world_map).time,
        forall|c: ChunkCoord| #[trigger] old(world_map).map@.contains_key(c)
            ==> final(world_map).map@.contains_key(c) && final(world_map).map@[c] == old(world_map).map@[c],
        forall|c: ChunkCoord| #[trigger] final(world_map).map@.contains_key(c) && !old(world_map).map@.contains_key(c)
            ==> final(world_map).map@[c].len() > 0 && may_generate(*generate, c, seed, final(world_map).map@[c])
                && exists|j: int| 0 <= j < events@.len() && #[trigger] in_scope(
                    events@[j].player_chunk_position,
                    request_radius(events@[j]),
                    events@[j].chunks@,
                    c,
                ),
        forall|j: int, c: ChunkCoord| 0 <= j < events@.len() && #[trigger] in_scope(
            events@[j].player_chunk_position,
            request_radius(events@[j]),
            events@[j].chunks@,
            c,
        ) && !final(world_map).map@.contains_key(c) ==> may_generate_empty(*generate, c, seed),
        out@.len() == events@.len(),
        forall|j: int| #![trigger out@[j]] 0 <= j < out@.len() ==> {
            &&& out@[j].target == Target::Client(events@[j].client)
            &&& out@[j].channel == Channel::ReliableUnordered
            &&& update_of(out@[j]).tick == tick
            &&& update_of(out@[j]).time == old(world_map).time
            &&& update_of(out@[j]).player_positions@ == old(world_map).player_positions@
            &&& update_of(out@[j]).mobs@ == old(world_map).mobs@
            &&& update_of(out@[j]).new_map.wf()
            &&& update_of(out@[j]).new_map@ == visible_for(final(world_map).map@, events@[j])
        },
{
    let ghost before = world_map.map@;
    let mut out: Vec<ServerDispatch> = Vec::new();
    let mut i: usize = 0;
    while i < events.len()
        invariant
            i <= events@.len(),
            out@.len() == i,
            world_map.wf(),
            before == old(world_map).map@,
            forall|c: ChunkCoord| #[trigger] call_requires(*generate, (c, seed)),
            deterministic(*generate),
            world_map.chunks_to_update@ == old(world_map).chunks_to_update@,
            world_map.player_positions@ == old(world_map).player_positions@,
            world_map.mobs@ == old(world_map).mobs@,
            world_map.time == old(world_map).time,
            forall|c: ChunkCoord| #[trigger] before.contains_key(c)
                ==> world_map.map@.contains_key(c) && world_map.map@[c] == before[c],
            forall|c: ChunkCoord| #[trigger] world_map.map@.contains_key(c) && !before.contains_key(c)
                ==> world_map.map@[c].len() > 0 && may_generate(*generate, c, seed, world_map.map@[c])
                    && exists|j: int| 0 <= j < i && #[trigger] in_scope(
                        events@[j].player_chunk_position,
                        request_radius(events@[j]),
                        events@[j].chunks@,
                        c,
                    ),
            forall|j: int, c: ChunkCoord| 0 <= j < i && #[trigger] in_scope(
                events@[j].player_chunk_position,
                request_radius(events@[j]),
                events@[j].chunks@,
                c,
            ) && !world_map.map@.contains_key(c) ==> may_generate_empty(*generate, c, seed),
            forall|j: int| #![trigger out@[j]] 0 <= j < i ==> {
                &&& out@[j].target == Target::Client(events@[j].client)
                &&& out@[j].channel == Channel::ReliableUnordered
                &&& update_of(out@[j]).tick == tick
                &&& update_of(out@[j]).time == old(world_map).time
                &&& update_of(out@[j]).player_positions@ == old(world_map).player_positions@
                &&& update_of(out@[j]).mobs@ == old(world_map).mobs@
                &&& update_of(out@[j]).new_map.wf()
                &&& update_of(out@[j]).new_map@ == visible_for(world_map.map@, events@[j])
            },
        decreases events@.len() - i,
    {
        let ghost m0 = world_map.map@;
        let event = &events[i];
        let u = answer_world_update_request(world_map, tick, seed, event, generate);
        proof {
            let m1 = world_map.map@;
            assert forall|c: ChunkCoord| m1.contains_key(c) && !m0.contains_key(c) implies
                !may_generate_empty(*generate, c, seed) by {
                assert(may_generate(*generate, c, seed, m1[c]));
                let a = choose|a: Chunk| #[trigger] call_ensures(*generate, (c, seed), a) && a@ == m1[c];
                if may_generate_empty(*generate, c, seed) {
                    let b = choose|b: Chunk| #[trigger] call_ensures(*generate, (c, seed), b) && b@.len() == 0;
                    assert(a@ == b@);
                }
            }
            assert forall|j: int| 0 <= j < i implies update_of(out@[j]).new_map@ == visible_for(m1, events@[j]) by {
                let e = events@[j];
                assert forall|c: ChunkCoord| #[trigger] visible_for(m1, e).contains_key(c) implies visible_for(m0, e).contains_key(c) by {
                    if !m0.contains_key(c) {
                        assert(in_scope(e.player_chunk_position, request_radius(e), e.chunks@, c));
                        assert(may_generate_empty(*generate, c, seed));
                    }
                }
                assert(visible_for(m0, e) =~= visible_for(m1, e));
            }
            assert forall|c: ChunkCoord| #[trigger] m1.contains_key(c) && !before.contains_key(c)
                implies exists|j: int| 0 <= j < i + 1 && #[trigger] in_scope(
                    events@[j].player_chunk_position,
                    request_radius(events@[j]),
                    events@[j].chunks@,
                    c,
                ) by {
                if !m0.contains_key(c) {
                    assert(in_scope(
                        events@[i as int].player_chunk_position,
                        request_radius(events@[i as int]),
                        events@[i as int].chunks@,
                        c,
                    ));
                }
            }
        }
        out.push(ServerDispatch {
            target: Target::Client(event.client),
            channel: Channel::ReliableUnordered,
            message: ServerToClientMessage::WorldUpdate(u),
        });
        i += 1;
    }
    out
}

/// A chunk that the generator makes empty is neither stored nor sent when a
/// request asks for it.
pub proof fn lemma_empty_generation_never_stored<G: Fn(ChunkCoord, u32) -> Chunk>(
    before: ServerWorldMap,
    after: ServerWorldMap,
    u: WorldUpdate,
    generate: G,
    seed: u32,
    tick: u64,
    e: WorldUpdateRequestEvent,
    c: ChunkCoord,
)
    requires
        answers(before, after, u, generate, seed, tick, e),
        deterministic(generate),
        !before.map@.contains_key(c),
        may_generate_empty(generate, c, seed),
    ensures
        !after.map@.contains_key(c),
        !u.new_map@.contains_key(c),
{
    if after.map@.contains_key(c) {
        assert(may_generate(generate, c, seed, after.map@[c]));
        let a = choose|a: Chunk| #[trigger] call_ensures(generate, (c, seed), a) && a@ == after.map@[c];
        let b = choose|b: Chunk| #[trigger] call_ensures(generate, (c, seed), b) && b@.len() == 0;
        assert(a@ == b@);
    }
}

/// Answering the same request twice, with nothing else changing the store in
/// between, sends the same chunks both times and leaves the store as the
/// first answer left it.
pub proof fn lemma_request_idempotent<G: Fn(ChunkCoord, u32) -> Chunk>(
    s0: ServerWorldMap,
    s1: ServerWorldMap,
    u1: WorldUpdate,
    s2: ServerWorldMap,
    u2: WorldUpdate,
    generate: G,
    seed: u32,
    tick1: u64,
    tick2: u64,
    e: WorldUpdateRequestEvent,
)
    requires
        answers(s0, s1, u1, generate, seed, tick1, e),
        answers(s1, s2, u2, generate, seed, tick2, e),
        deterministic(generate),
    ensures
        s2.map@ == s1.map@,
        u2.new_map@ == u1.new_map@,
{
    assert forall|c: ChunkCoord| #[trigger] s2.map@.contains_key(c) implies s1.map@.contains_key(c) by {
        if !s1.map@.contains_key(c) {
            lemma_empty_generation_never_stored(s1, s2, u2, generate, seed, tick2, e, c);
        }
    }
    assert(s2.map@ =~= s1.map@);
    assert(u2.new_map@ =~= u1.new_map@);
}

/// After a periodic broadcast nothing is left marked, and a change recorded
/// after it reaches the next broadcast, once, with the recorded content, and
/// is the only chunk that broadcast sends.
pub proof fn lemma_change_reaches_next_broadcast(
    w0: ServerWorldMap,
    w1: ServerWorldMap,
    u1: WorldUpdate,
    w2: ServerWorldMap,
    w3: ServerWorldMap,
    u2: WorldUpdate,
    tick1: u64,
    tick2: u64,
    c: ChunkCoord,
    content: ChunkContent,
)
    requires
        drains(w0, w1, u1, tick1),
        records_change(w1, w2, c, content),
        drains(w2, w3, u2, tick2),
    ensures
        w1.chunks_to_update@.len() == 0,
        w3.chunks_to_update@.len() == 0,
        u2.new_map@ == Map::<ChunkCoord, ChunkContent>::empty().insert(c, content),
{
    let d = w2.chunks_to_update@;
    assert(d =~= seq![c]);
    assert forall|k: ChunkCoord| d.to_set().contains(k) == (k == c) by {
        if k == c {
            assert(d[0] == c);
        }
    }
    assert(u2.new_map@ =~= Map::<ChunkCoord, ChunkContent>::empty().insert(c, content));
}

/// The coordinates marked for broadcast that have no stored chunk, in the
/// order they were marked. Building the periodic update skips them; a
/// caller reports them, since a mark without a chunk is a defect elsewhere.
pub fn dirty_chunks_without_data(world_map: &ServerWorldMap) -> (r: Vec<ChunkCoord>)
    requires
        world_map.wf(),
    ensures
        r@ == world_map.chunks_to_update@.filter(|c: ChunkCoord| !world_map.map@.contains_key(c)),
{
    let mut out: Vec<ChunkCoord> = Vec::new();
    let mut i: usize = 0;
    while i < world_map.chunks_to_update.len()
        invariant
            i <= world_map.chunks_to_update@.len(),
            world_map.wf(),
            out@ == world_map.chunks_to_update@.subrange(0, i as int).filter(
                |c: ChunkCoord| !world_map.map@.contains_key(c),
            ),
        decreases world_map.chunks_to_update@.len() - i,
    {
        let c = world_map.chunks_to_update[i];
        proof {
            let s = world_map.chunks_to_update@;
            assert(s.subrange(0, i + 1).drop_last() =~= s.subrange(0, i as int));
            assert(s.subrange(0, i + 1).last() == c);
            reveal(Seq::filter);
        }
        if !world_map.map.contains_key(&c) {
            out.push(c);
        }
        i += 1;
    }
    proof {
        assert(world_map.chunks_to_update@.subrange(0, i as int) =~= world_map.chunks_to_update@);
    }
    out
}

} // verus!
