use crate::events::{
    AssignWorkerEvent, PlaceBuildingEvent, ReplayEvent, ReplayEventData, StartProductionEvent, TransferResourceEvent,
};
use crate::pathfinding::searchable;
use crate::resources::MapData;
use crate::simulation::{is_placement, no_placements, same_but_queues, state_hash, step_post, steps_chain, SimulationApp};
use vstd::prelude::*;

verus! {

/// Records input requests with the tick they were sent at.
pub struct ReplayRecorder {
    events: Vec<ReplayEvent>,
    initial_seed: u64,
}

/// Seed recorded for a new replay.
pub const DEFAULT_SEED: u64 = 12345;

impl ReplayRecorder {
    pub closed spec fn recorded(&self) -> Seq<ReplayEvent> {
        self.events@
    }

    pub closed spec fn seed(&self) -> u64 {
        self.initial_seed
    }

    pub fn new() -> (r: Self)
        ensures
            r.recorded().len() == 0,
            r.seed() == DEFAULT_SEED,
    {
        ReplayRecorder { events: Vec::new(), initial_seed: DEFAULT_SEED }
    }

    pub fn record_event(&mut self, tick: u64, event_data: ReplayEventData)
        ensures
            final(self).recorded() == old(self).recorded().push(ReplayEvent { tick, event_data }),
            final(self).seed() == old(self).seed(),
    {
        self.events.push(ReplayEvent { tick, event_data });
    }

    pub fn events(&self) -> (r: &Vec<ReplayEvent>)
        ensures
            r@ == self.recorded(),
    {
        &self.events
    }

    pub fn initial_seed(&self) -> (r: u64)
        ensures
            r == self.seed(),
    {
        self.initial_seed
    }
}

pub fn start_recording() -> (r: ReplayRecorder)
    ensures
        r.recorded().len() == 0,
        r.seed() == DEFAULT_SEED,
{
    ReplayRecorder::new()
}

/// A copy of a request.
fn copy_request(e: &ReplayEventData) -> (r: ReplayEventData)
    ensures
        r == *e,
{
    match e {
        ReplayEventData::PlaceBuilding(p) => ReplayEventData::PlaceBuilding(
            PlaceBuildingEvent { building_type: p.building_type.clone(), position: p.position },
        ),
        ReplayEventData::AssignWorker(a) => ReplayEventData::AssignWorker(
            AssignWorkerEvent { worker: a.worker, building: a.building },
        ),
        ReplayEventData::StartProduction(s) => ReplayEventData::StartProduction(
            StartProductionEvent { building: s.building, recipe_id: s.recipe_id.clone() },
        ),
        ReplayEventData::TransferResource(t) => ReplayEventData::TransferResource(
            TransferResourceEvent { from: t.from, to: t.to, resource: t.resource.clone(), amount: t.amount },
        ),
    }
}

/// A copy of a map, tile for tile.
pub fn copy_map(map: &MapData) -> (r: MapData)
    requires
        map.wf(),
    ensures
        r.wf(),
        r.width == map.width,
        r.height == map.height,
        forall|x: int, y: int| #[trigger] r.tile(x, y) == map.tile(x, y),
{
    let mut tiles: Vec<Vec<crate::components::Tile>> = Vec::new();
    let mut y: usize = 0;
    while y < map.tiles.len()
        invariant
            map.wf(),
            y <= map.tiles@.len(),
            tiles@.len() == y,
            forall|j: int| 0 <= j < y ==> (#[trigger] tiles@[j])@ == map.tiles@[j]@,
        decreases map.tiles@.len() - y,
    {
        let row = &map.tiles[y];
        let mut copy: Vec<crate::components::Tile> = Vec::new();
        let mut x: usize = 0;
        while x < row.len()
            invariant
                x <= row@.len(),
                copy@ == row@.subrange(0, x as int),
            decreases row@.len() - x,
        {
            copy.push(row[x]);
            x = x + 1;
        }
        assert(copy@ == row@);
        tiles.push(copy);
        y = y + 1;
    }
    MapData { width: map.width, height: map.height, tiles }
}

/// The events are in the order of their ticks.
pub open spec fn sorted_by_tick(events: Seq<ReplayEvent>) -> bool {
    forall|i: int, j: int| 0 <= i <= j < events.len() ==> events[i].tick <= events[j].tick
}

/// A simulation as `SimulationApp::new` and `initialize_demo` leave it, on a copy of `map`.
pub open spec fn fresh_on(s: SimulationApp, map: MapData) -> bool {
    &&& s.wf()
    &&& s.tick.current == 0
    &&& s.tick.target_tps == 20
    &&& s.buildings@.len() == 0
    &&& s.workers@.len() == 0
    &&& s.requests@.len() == 0
    &&& s.transfers@.len() == 0
    &&& s.path_requests@.len() == 0
    &&& s.cache.len() == 0
    &&& !s.map_changed
    &&& s.map.width == map.width
    &&& s.map.height == map.height
    &&& forall|x: int, y: int| #[trigger] s.map.tile(x, y) == map.tile(x, y)
}

/// Sending one recorded event: steps are run while the tick is before the event's tick, then
/// the request is queued. `states` are the worlds from `s0` through those steps.
pub open spec fn event_sent(s0: SimulationApp, s1: SimulationApp, e: ReplayEvent, states: Seq<SimulationApp>) -> bool {
    &&& states.len() >= 1
    &&& states[0] == s0
    &&& steps_chain(states)
    &&& forall|j: int| 0 <= j < states.len() - 1 ==> (#[trigger] states[j]).tick.current < e.tick
    &&& states.last().tick.current >= e.tick
    &&& s1.requests@ == states.last().requests@.push(e.event_data)
    &&& same_but_queues(states.last(), s1)
    &&& s1.transfers == states.last().transfers
    &&& s1.path_requests == states.last().path_requests
    &&& s1.notifications == states.last().notifications
}

/// `ws[k]` is the replayed simulation before event `k`, and `runs[k]` the steps run for it.
pub open spec fn replay_chain(ws: Seq<SimulationApp>, runs: Seq<Seq<SimulationApp>>, events: Seq<ReplayEvent>) -> bool {
    &&& ws.len() == events.len() + 1
    &&& runs.len() == events.len()
    &&& forall|k: int| 0 <= k < events.len() ==> #[trigger] event_sent(ws[k], ws[k + 1], events[k], runs[k])
}

/// The tick of the last event, or 0 without events.
pub open spec fn last_tick(events: Seq<ReplayEvent>) -> u64 {
    if events.len() > 0 {
        events.last().tick
    } else {
        0
    }
}

/// Replays `events` into one fresh simulation, sending each before the step of its tick, runs a
/// second fresh simulation without events to the tick of the last event, and compares the two
/// state fingerprints. Events that place no building leave the fingerprints equal.
pub fn verify_replay(events: &Vec<ReplayEvent>, map: &MapData) -> (r: bool)
    requires
        searchable(*map),
    ensures
        exists|
            ws: Seq<SimulationApp>,
            runs: Seq<Seq<SimulationApp>>,
            plain: Seq<SimulationApp>,
        |
            #![trigger replay_chain(ws, runs, events@), steps_chain(plain)]
            replay_chain(ws, runs, events@) && fresh_on(ws[0], *map) && steps_chain(plain)
                && plain.len() == last_tick(events@) + 1 && fresh_on(plain[0], *map) && r == (state_hash(ws.last())
                == state_hash(plain.last())),
        (sorted_by_tick(events@) && forall|i: int| 0 <= i < events@.len() ==> !is_placement(
            #[trigger] events@[i].event_data,
        )) ==> r,
{
    let ghost quiet = forall|i: int| 0 <= i < events@.len() ==> !is_placement(#[trigger] events@[i].event_data);
    let mut sim1 = SimulationApp::new();
    sim1.initialize_demo(copy_map(map));
    let mut sim2 = SimulationApp::new();
    sim2.initialize_demo(copy_map(map));
    let ghost start1 = sim1;
    let ghost start2 = sim2;
    assert(fresh_on(start1, *map));
    assert(fresh_on(start2, *map));
    let ghost mut ws: Seq<SimulationApp> = seq![sim1];
    let ghost mut runs: Seq<Seq<SimulationApp>> = Seq::empty();
    let mut k: usize = 0;
    while k < events.len()
        invariant
            sim1.wf(),
            k <= events@.len(),
            sim1.workers@.len() == if sim1.tick.current >= 1 {
                5nat
            } else {
                0
            },
            k == 0 ==> sim1.tick.current == 0,
            k > 0 && sorted_by_tick(events@) ==> sim1.tick.current == events@[k - 1].tick,
            quiet ==> sim1.buildings@.len() == 0 && no_placements(sim1),
            quiet == forall|i: int| 0 <= i < events@.len() ==> !is_placement(#[trigger] events@[i].event_data),
            ws.len() == k + 1,
            runs.len() == k,
            ws[0] == start1,
            ws.last() == sim1,
            forall|j: int| 0 <= j < k ==> #[trigger] event_sent(ws[j], ws[j + 1], events@[j], runs[j]),
        decreases events@.len() - k,
    {
        let target = events[k].tick;
        let ghost mut st: Seq<SimulationApp> = seq![sim1];
        while sim1.current_tick() < target
            invariant
                sim1.wf(),
                sim1.workers@.len() == if sim1.tick.current >= 1 {
                    5nat
                } else {
                    0
                },
                quiet ==> sim1.buildings@.len() == 0 && no_placements(sim1),
                k == 0 ==> sim1.tick.current <= target,
                k > 0 && sorted_by_tick(events@) ==> sim1.tick.current <= target,
                k > 0 && sorted_by_tick(events@) ==> sim1.tick.current >= events@[k - 1].tick,
                target == events@[k as int].tick,
                st.len() >= 1,
                st[0] == ws.last(),
                st.last() == sim1,
                steps_chain(st),
                forall|j: int| 0 <= j < st.len() - 1 ==> (#[trigger] st[j]).tick.current < target,
            decreases target - sim1.tick.current,
        {
            let ghost before = sim1;
            sim1.tick();
            proof {
                let st2 = st.push(sim1);
                assert forall|j: int| 0 <= j < st2.len() - 1 implies #[trigger] step_post(st2[j], st2[j + 1]) by {
                    if j < st.len() - 1 {
                        assert(st2[j] == st[j] && st2[j + 1] == st[j + 1]);
                    } else {
                        assert(st2[j] == before);
                    }
                }
                assert forall|j: int| 0 <= j < st2.len() - 1 implies (#[trigger] st2[j]).tick.current < target by {
                    if j < st.len() - 1 {
                        assert(st2[j] == st[j]);
                    } else {
                        assert(st2[j] == before);
                    }
                }
                st = st2;
            }
        }
        proof {
            if quiet {
                assert(!is_placement(events@[k as int].event_data));
            }
        }
        let request = copy_request(&events[k].event_data);
        sim1.send_event(request);
        proof {
            assert(event_sent(ws.last(), sim1, events@[k as int], st));
            let ws2 = ws.push(sim1);
            let runs2 = runs.push(st);
            assert forall|j: int| 0 <= j < k + 1 implies #[trigger] event_sent(ws2[j], ws2[j + 1], events@[j], runs2[j]) by {
                if j < k {
                    assert(ws2[j] == ws[j] && ws2[j + 1] == ws[j + 1] && runs2[j] == runs[j]);
                }
            }
            ws = ws2;
            runs = runs2;
        }
        k = k + 1;
    }
    assert(replay_chain(ws, runs, events@));
    let final_tick: u64 = if events.len() > 0 {
        events[events.len() - 1].tick
    } else {
        0
    };
    sim2.run_ticks(final_tick);
    let ghost plain = choose|states: Seq<SimulationApp>|
        #[trigger] steps_chain(states) && states.len() == final_tick + 1 && states[0] == start2 && states.last() == sim2;
    let h1 = sim1.calculate_state_hash();
    let h2 = sim2.calculate_state_hash();
    proof {
        if sorted_by_tick(events@) && quiet {
            assert(sim1.tick.current == sim2.tick.current);
            assert(sim1.buildings@.len() == sim2.buildings@.len());
            assert(sim1.workers@.len() == sim2.workers@.len());
        }
        assert(final_tick == last_tick(events@));
        assert(replay_chain(ws, runs, events@) && fresh_on(ws[0], *map) && steps_chain(plain) && plain.len()
            == last_tick(events@) + 1 && fresh_on(plain[0], *map) && (h1 == h2) == (state_hash(ws.last()) == state_hash(
            plain.last(),
        )));
    }
    h1 == h2
}

} // verus!
