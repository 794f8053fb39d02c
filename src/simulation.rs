use crate::cache::PathfindingCache;
use crate::components::{BuildingEntity, Producer, WorkerEntity};
use crate::config::{lookup, GameConfig};
use crate::events::{
    MapChangeType, MapChangedEvent, Notification, PathfindingRequestEvent, ReplayEventData, StartProductionEvent,
    TaskCompletedEvent,
    TransferResourceEvent,
};
use crate::pathfinding::{cache_matches, searchable, MAX_SEARCH_TILES};
use crate::production::{recipe_wf, start_production};
use crate::resources::{GameTick, MapData};
use crate::systems::{
    advance_stage_post, ai_stage_post, assignment_stage_post, completion_stage_post, construction_stage_post,
    invalidate_stage_post, movement_stage_post, path_stage_post, placement_stage_post, production_stage_post,
    spawn_stage_post, start_stage_post, transfers_among, transport_stage_post,
    advance_tick_system, building_placement_system, construction_system, invalidate_pathfinding_cache_system,
    movement_system, pathfinding_system, production_system, requested_transfers, spawn_workers_system,
    start_production_system, transport_completion_system, transport_system, worker_ai_system,
    worker_assignment_system,
};
use crate::transport::{distribution_due, plan_buildings, resource_distribution_system};
use std::hash::Hasher;
use vstd::prelude::*;

verus! {

/// Counters kept for observability.
#[derive(Clone, Copy, Debug, PartialEq, Eq, Structural)]
pub struct PerformanceMetrics {
    pub entities_count: u64,
    pub pathfinding_requests: u64,
}

/// The name of the fingerprint `calculate_state_hash` computes from a tick number and an entity
/// count.
pub uninterp spec fn state_hash_of(tick: u64, entities: u64) -> u64;

/// Relies on std's `DefaultHasher::new`, `Hasher::write` and `Hasher::finish`: every hasher made
/// by `new` starts from the same state, and the two numbers go in as little-endian bytes, so the
/// result depends on the two numbers alone.
#[verifier::external_body]
fn hash_state(tick: u64, entities: u64) -> (r: u64)
    ensures
        r == state_hash_of(tick, entities),
{
    let mut hasher = std::collections::hash_map::DefaultHasher::new();
    hasher.write(&tick.to_le_bytes());
    hasher.write(&entities.to_le_bytes());
    hasher.finish()
}

/// The whole simulation state, advanced one fixed step at a time.
#[derive(Debug)]
pub struct SimulationApp {
    pub tick: GameTick,
    pub map: MapData,
    pub cache: PathfindingCache,
    pub metrics: PerformanceMetrics,
    pub config: GameConfig,
    pub buildings: Vec<BuildingEntity>,
    pub workers: Vec<WorkerEntity>,
    /// Input requests waiting for the next step.
    pub requests: Vec<ReplayEventData>,
    /// Transfers planned by the last distribution pass, handled in the next step.
    pub transfers: Vec<TransferResourceEvent>,
    /// Routes asked for after the path stage of the last step, searched in the next step.
    pub path_requests: Vec<PathfindingRequestEvent>,
    /// Whether the map changed since the cache was last cleared.
    pub map_changed: bool,
    /// What the last step reported.
    pub notifications: Vec<Notification>,
}

/// Capacity of the path cache of a new simulation.
pub const PATH_CACHE_SIZE: usize = 1000;

/// The number of entities, as counted for the state fingerprint.
pub open spec fn entity_count(s: SimulationApp) -> u64 {
    let n = s.buildings@.len() + s.workers@.len();
    if n <= u64::MAX {
        n as u64
    } else {
        u64::MAX
    }
}

/// The fingerprint of a simulation state.
pub open spec fn state_hash(s: SimulationApp) -> u64 {
    state_hash_of(s.tick.current, entity_count(s))
}

pub open spec fn is_placement(r: ReplayEventData) -> bool {
    r is PlaceBuilding
}

/// No placement request is waiting.
pub open spec fn no_placements(s: SimulationApp) -> bool {
    forall|i: int| 0 <= i < s.requests@.len() ==> !is_placement(#[trigger] s.requests@[i])
}

/// Workers a step adds: the initial five, on the first tick.
pub open spec fn spawned_on(tick: u64) -> nat {
    if tick == 1 {
        5
    } else {
        0
    }
}

/// What running `n` steps from `s0` guarantees of the state `s1` reached.
pub open spec fn run_post(s0: SimulationApp, s1: SimulationApp, n: u64) -> bool {
    &&& s1.wf()
    &&& s1.tick.current == s0.tick.current + n
    &&& s1.tick.target_tps == s0.tick.target_tps
    &&& n > 0 ==> s1.requests@.len() == 0
    &&& no_placements(s0) ==> s1.buildings@.len() == s0.buildings@.len()
    &&& s1.buildings@.len() >= s0.buildings@.len()
    &&& s1.workers@.len() == s0.workers@.len() + (if s0.tick.current < 1 && 1 <= s0.tick.current + n {
        5nat
    } else {
        0
    })
}

/// The two worlds agree on everything but the queues: requests, planned transfers, pending
/// routes and notifications.
pub open spec fn same_but_queues(a: SimulationApp, b: SimulationApp) -> bool {
    &&& a.tick == b.tick
    &&& a.map == b.map
    &&& a.cache == b.cache
    &&& a.metrics == b.metrics
    &&& a.config == b.config
    &&& a.buildings == b.buildings
    &&& a.workers == b.workers
    &&& a.map_changed == b.map_changed
}

/// The stages of one step, in their fixed order, from `s0` to `s1`: `m[k]` is the world after
/// the `k`-th part of the step, `fresh` and `done` are the routes asked for and the tasks
/// completed by the worker stage, and `rts` the routes collected by the two transport stages
/// and the completion stage.
pub open spec fn step_stages(
    s0: SimulationApp,
    s1: SimulationApp,
    m: Seq<SimulationApp>,
    fresh: Seq<PathfindingRequestEvent>,
    done: Seq<TaskCompletedEvent>,
    rts: Seq<Seq<PathfindingRequestEvent>>,
) -> bool {
    &&& m.len() == 20
    &&& rts.len() == 3
    // last step's reports are dropped
    &&& same_but_queues(s0, m[0]) && m[0].requests == s0.requests && m[0].transfers == s0.transfers
        && m[0].path_requests == s0.path_requests && m[0].notifications@.len() == 0
    &&& advance_stage_post(m[0], m[1])
    &&& placement_stage_post(m[1], m[2])
    &&& assignment_stage_post(m[2], m[3])
    &&& start_stage_post(m[3], m[4])
    // the requests have been handled
    &&& same_but_queues(m[4], m[5]) && m[5].requests@.len() == 0 && m[5].transfers == m[4].transfers
        && m[5].path_requests == m[4].path_requests && m[5].notifications == m[4].notifications
    &&& construction_stage_post(m[5], m[6])
    &&& production_stage_post(m[6], m[7])
    &&& ai_stage_post(m[7], m[8], fresh, done)
    // the routes asked for last step are taken up
    &&& same_but_queues(m[8], m[9]) && m[9].path_requests@.len() == 0 && m[9].requests == m[8].requests
        && m[9].transfers == m[8].transfers && m[9].notifications == m[8].notifications
    &&& path_stage_post(m[9], m[10], m[8].path_requests@)
    &&& path_stage_post(m[10], m[11], fresh)
    &&& movement_stage_post(m[11], m[12])
    // the transfers planned last step are taken up
    &&& same_but_queues(m[12], m[13]) && m[13].transfers@.len() == 0 && m[13].requests == m[12].requests
        && m[13].path_requests == m[12].path_requests && m[13].notifications == m[12].notifications
    &&& transport_stage_post(m[13], m[14], m[12].transfers@, Seq::empty(), rts[0])
    &&& transport_stage_post(
        m[14],
        m[15],
        transfers_among(m[1].requests@, m[1].requests@.len() as int),
        rts[0],
        rts[1],
    )
    // the distribution pass plans next step's transfers
    &&& same_but_queues(m[15], m[16]) && m[16].requests == m[15].requests && m[16].path_requests
        == m[15].path_requests && m[16].notifications == m[15].notifications
    &&& m[16].transfers@ == if distribution_due(m[15].tick) {
        plan_buildings(m[15].buildings@, m[15].buildings@.len() as int)
    } else {
        Seq::empty()
    }
    &&& completion_stage_post(m[16], m[17], done, rts[1], rts[2])
    // the routes collected are searched next step
    &&& same_but_queues(m[17], m[18]) && m[18].requests == m[17].requests && m[18].transfers == m[17].transfers
        && m[18].notifications == m[17].notifications && m[18].path_requests@ == rts[2]
    &&& invalidate_stage_post(m[18], m[19])
    &&& spawn_stage_post(m[19], s1)
}

/// `s1` is what one step makes of `s0`.
pub open spec fn step_post(s0: SimulationApp, s1: SimulationApp) -> bool {
    exists|
        m: Seq<SimulationApp>,
        fresh: Seq<PathfindingRequestEvent>,
        done: Seq<TaskCompletedEvent>,
        rts: Seq<Seq<PathfindingRequestEvent>>,
    | #[trigger] step_stages(s0, s1, m, fresh, done, rts)
}

/// `states[k]` is the world after `k` steps, each one step after the one before.
pub open spec fn steps_chain(states: Seq<SimulationApp>) -> bool {
    forall|k: int| 0 <= k < states.len() - 1 ==> #[trigger] step_post(states[k], states[k + 1])
}

impl SimulationApp {
    /// The map is searchable, cached paths are routes on it, stockpiles are consistent, recipes
    /// name each item once, and game time advances.
    pub open spec fn wf(&self) -> bool {
        &&& searchable(self.map)
        &&& self.cache.wf()
        &&& cache_matches(self.cache, self.map)
        &&& forall|i: int| 0 <= i < self.buildings@.len() ==> (#[trigger] self.buildings@[i]).stockpile.wf()
        &&& forall|i: int| 0 <= i < self.config.recipes@.len() ==> recipe_wf(#[trigger] self.config.recipes@[i].1)
        &&& self.tick.target_tps > 0
    }

    /// A simulation at tick 0 with no entities, an empty map and the stock configuration.
    pub fn new() -> (r: Self)
        ensures
            r.wf(),
            r.tick.current == 0,
            r.tick.target_tps == 20,
            r.buildings@.len() == 0,
            r.workers@.len() == 0,
            r.requests@.len() == 0,
            r.transfers@.len() == 0,
            r.path_requests@.len() == 0,
            r.notifications@.len() == 0,
            r.cache.len() == 0,
            r.cache.cache_hits == 0,
            r.cache.cache_misses == 0,
            !r.map_changed,
            r.metrics == (PerformanceMetrics { entities_count: 0, pathfinding_requests: 0 }),
    {
        let config = GameConfig::default();
        assert forall|i: int| 0 <= i < config.recipes@.len() implies recipe_wf(#[trigger] config.recipes@[i].1) by {
            assert(config.recipes@[i].1.inputs@.len() <= 1);
            assert(config.recipes@[i].1.outputs@.len() <= 1);
        }
        Self::with_config(config)
    }

    /// A simulation at tick 0 with no entities, an empty map and the given configuration.
    pub fn with_config(config: GameConfig) -> (r: Self)
        requires
            forall|i: int| 0 <= i < config.recipes@.len() ==> recipe_wf(#[trigger] config.recipes@[i].1),
        ensures
            r.wf(),
            r.tick.current == 0,
            r.tick.target_tps == 20,
            r.buildings@.len() == 0,
            r.workers@.len() == 0,
            r.requests@.len() == 0,
            r.transfers@.len() == 0,
            r.path_requests@.len() == 0,
            r.notifications@.len() == 0,
            r.cache.len() == 0,
            r.cache.cache_hits == 0,
            r.cache.cache_misses == 0,
            !r.map_changed,
            r.metrics == (PerformanceMetrics { entities_count: 0, pathfinding_requests: 0 }),
            r.map.width == 0 && r.map.height == 0,
            r.config == config,
    {
        SimulationApp {
            tick: GameTick::default(),
            map: MapData::new(0, 0),
            cache: PathfindingCache::new(PATH_CACHE_SIZE),
            metrics: PerformanceMetrics { entities_count: 0, pathfinding_requests: 0 },
            config,
            buildings: Vec::new(),
            workers: Vec::new(),
            requests: Vec::new(),
            transfers: Vec::new(),
            path_requests: Vec::new(),
            map_changed: false,
            notifications: Vec::new(),
        }
    }

    /// Installs the map to play on; cached paths are dropped.
    pub fn initialize_demo(&mut self, map: MapData)
        requires
            old(self).wf(),
            searchable(map),
        ensures
            final(self).wf(),
            final(self).map == map,
            final(self).tick == old(self).tick,
            final(self).buildings == old(self).buildings,
            final(self).workers == old(self).workers,
            final(self).requests == old(self).requests,
            final(self).transfers == old(self).transfers,
            final(self).path_requests == old(self).path_requests,
            final(self).notifications == old(self).notifications,
            final(self).metrics == old(self).metrics,
            final(self).map_changed == old(self).map_changed,
            final(self).config == old(self).config,
            final(self).cache.len() == 0,
            final(self).cache.cache_hits == old(self).cache.cache_hits,
            final(self).cache.cache_misses == old(self).cache.cache_misses,
            final(self).cache.max_cache_size == old(self).cache.max_cache_size,
    {
        self.map = map;
        self.cache.clear();
    }

    /// Changes one tile; cached paths are dropped and the change is reported.
    pub fn set_tile(&mut self, x: i32, y: i32, tile: crate::components::Tile) -> (changed: bool)
        requires
            old(self).wf(),
        ensures
            final(self).wf(),
            changed == old(self).map.in_bounds(x as int, y as int),
            final(self).tick == old(self).tick,
            final(self).buildings == old(self).buildings,
            final(self).workers == old(self).workers,
            final(self).requests == old(self).requests,
    {
        let changed = self.map.set_tile(x, y, tile);
        if changed {
            self.cache.clear();
            self.notifications.push(
                Notification::MapChanged(
                    MapChangedEvent {
                        position: crate::components::Position::new(x, y),
                        change_type: MapChangeType::TerrainChanged,
                    },
                ),
            );
        }
        changed
    }

    /// Replaces the state with one read back from storage: the tick, the map and the entities.
    /// Refused, with nothing changed, when the map is malformed or too large to search, or a
    /// stockpile is inconsistent. Cached paths and pending requests are dropped.
    pub fn restore(&mut self, tick: u64, map: MapData, buildings: Vec<BuildingEntity>, workers: Vec<WorkerEntity>) -> (ok: bool)
        requires
            old(self).wf(),
        ensures
            final(self).wf(),
            ok == (searchable(map) && forall|i: int|
                0 <= i < buildings@.len() ==> (#[trigger] buildings@[i]).stockpile.wf()),
            !ok ==> *final(self) == *old(self),
            ok ==> {
                &&& final(self).tick.current == tick
                &&& final(self).tick.target_tps == old(self).tick.target_tps
                &&& final(self).map == map
                &&& final(self).buildings == buildings
                &&& final(self).workers == workers
                &&& final(self).requests@.len() == 0
                &&& final(self).cache.len() == 0
            },
    {
        let w = map.width as u64;
        let h = map.height as u64;
        assert(w * h <= 0xffff_ffffu64 * 0xffff_ffffu64) by (nonlinear_arith)
            requires
                w <= 0xffff_ffffu64,
                h <= 0xffff_ffffu64,
        ;
        if !map.is_well_formed() || w * h > MAX_SEARCH_TILES {
            return false;
        }
        let mut i: usize = 0;
        while i < buildings.len()
            invariant
                *self == *old(self),
                self.wf(),
                i <= buildings@.len(),
                forall|j: int| 0 <= j < i ==> (#[trigger] buildings@[j]).stockpile.wf(),
            decreases buildings@.len() - i,
        {
            if !buildings[i].stockpile.is_consistent() {
                return false;
            }
            i = i + 1;
        }
        self.tick.current = tick;
        self.map = map;
        self.buildings = buildings;
        self.workers = workers;
        self.cache.clear();
        self.requests = Vec::new();
        self.transfers = Vec::new();
        self.path_requests = Vec::new();
        self.map_changed = false;
        self.notifications = Vec::new();
        true
    }

    pub fn current_tick(&self) -> (r: u64)
        ensures
            r == self.tick.current,
    {
        self.tick.current
    }

    pub fn get_metrics(&self) -> (r: &PerformanceMetrics)
        ensures
            *r == self.metrics,
    {
        &self.metrics
    }

    /// Queues an input request for the next step.
    pub fn send_event(&mut self, event: ReplayEventData)
        ensures
            final(self).requests@ == old(self).requests@.push(event),
            final(self).tick == old(self).tick,
            final(self).map == old(self).map,
            final(self).cache == old(self).cache,
            final(self).config == old(self).config,
            final(self).buildings == old(self).buildings,
            final(self).workers == old(self).workers,
            same_but_queues(*old(self), *final(self)),
            final(self).transfers == old(self).transfers,
            final(self).path_requests == old(self).path_requests,
            final(self).notifications == old(self).notifications,
    {
        self.requests.push(event);
    }

    /// The fingerprint of the current state: the tick number and the number of entities.
    pub fn calculate_state_hash(&self) -> (r: u64)
        ensures
            r == state_hash(*self),
    {
        let b = self.buildings.len() as u128;
        let w = self.workers.len() as u128;
        let n: u64 = if b + w <= u64::MAX as u128 {
            (b + w) as u64
        } else {
            u64::MAX
        };
        hash_state(self.tick.current, n)
    }








    /// Advances the simulation by one step, running the stages in their fixed order.
    pub fn tick(&mut self)
        requires
            old(self).wf(),
            old(self).tick.current < u64::MAX,
        ensures
            final(self).wf(),
            final(self).tick.current == old(self).tick.current + 1,
            final(self).tick.target_tps == old(self).tick.target_tps,
            final(self).requests@.len() == 0,
            final(self).buildings@.len() >= old(self).buildings@.len(),
            no_placements(*old(self)) ==> final(self).buildings@.len() == old(self).buildings@.len(),
            final(self).workers@.len() == old(self).workers@.len() + spawned_on(final(self).tick.current),
            step_post(*old(self), *final(self)),
    {
        self.notifications = Vec::new();
        let ghost m0 = *self;
        advance_tick_system(self);
        let ghost m1 = *self;
        let transfers_requested = requested_transfers(&self.requests);
        building_placement_system(self);
        let ghost m2 = *self;
        worker_assignment_system(self);
        let ghost m3 = *self;
        start_production_system(self);
        let ghost m4 = *self;
        self.requests = Vec::new();
        let ghost m5 = *self;
        construction_system(self);
        let ghost m6 = *self;
        production_system(self);
        let ghost m7 = *self;
        let (fresh_paths, done) = worker_ai_system(self);
        let ghost m8 = *self;
        let mut pending: Vec<PathfindingRequestEvent> = Vec::new();
        std::mem::swap(&mut pending, &mut self.path_requests);
        let ghost m9 = *self;
        pathfinding_system(self, &pending);
        let ghost m10 = *self;
        pathfinding_system(self, &fresh_paths);
        let ghost m11 = *self;
        movement_system(self);
        let ghost m12 = *self;
        let mut routes: Vec<PathfindingRequestEvent> = Vec::new();
        let mut planned: Vec<TransferResourceEvent> = Vec::new();
        std::mem::swap(&mut planned, &mut self.transfers);
        let ghost m13 = *self;
        transport_system(self, &planned, &mut routes);
        let ghost m14 = *self;
        let ghost r0 = routes@;
        transport_system(self, &transfers_requested, &mut routes);
        let ghost m15 = *self;
        let ghost r1 = routes@;
        self.transfers = resource_distribution_system(&self.buildings, &self.tick);
        let ghost m16 = *self;
        transport_completion_system(self, &done, &mut routes);
        let ghost m17 = *self;
        let ghost r2 = routes@;
        self.path_requests = routes;
        let ghost m18 = *self;
        invalidate_pathfinding_cache_system(self);
        let ghost m19 = *self;
        spawn_workers_system(self);
        proof {
            let m = seq![m0, m1, m2, m3, m4, m5, m6, m7, m8, m9, m10, m11, m12, m13, m14, m15, m16, m17, m18, m19];
            let rts = seq![r0, r1, r2];
            assert(m.len() == 20);
            assert(m[0] == m0 && m[1] == m1 && m[2] == m2 && m[3] == m3 && m[4] == m4 && m[5] == m5 && m[6] == m6);
            assert(m[7] == m7 && m[8] == m8 && m[9] == m9 && m[10] == m10 && m[11] == m11 && m[12] == m12);
            assert(m[13] == m13 && m[14] == m14 && m[15] == m15 && m[16] == m16 && m[17] == m17 && m[18] == m18);
            assert(m[19] == m19);
            assert(rts[0] == r0 && rts[1] == r1 && rts[2] == r2);
            assert(step_stages(*old(self), *self, m, fresh_paths@, done@, rts));
        }
    }

    /// Runs `ticks` steps.
    pub fn run_ticks(&mut self, ticks: u64)
        requires
            old(self).wf(),
            old(self).tick.current + ticks <= u64::MAX,
        ensures
            run_post(*old(self), *final(self), ticks),
            exists|states: Seq<SimulationApp>|
                #[trigger] steps_chain(states) && states.len() == ticks + 1 && states[0] == *old(self) && states.last()
                    == *final(self),
    {
        let ghost mut states: Seq<SimulationApp> = seq![*self];
        let mut k: u64 = 0;
        while k < ticks
            invariant
                k <= ticks,
                old(self).tick.current + ticks <= u64::MAX,
                run_post(*old(self), *self, k),
                no_placements(*old(self)) ==> no_placements(*self),
                states.len() == k + 1,
                states[0] == *old(self),
                states.last() == *self,
                steps_chain(states),
            decreases ticks - k,
        {
            let ghost before = *self;
            self.tick();
            proof {
                let s2 = states.push(*self);
                assert forall|j: int| 0 <= j < s2.len() - 1 implies #[trigger] step_post(s2[j], s2[j + 1]) by {
                    if j < states.len() - 1 {
                        assert(s2[j] == states[j] && s2[j + 1] == states[j + 1]);
                    } else {
                        assert(s2[j] == before);
                    }
                }
                states = s2;
            }
            k = k + 1;
        }
        assert(steps_chain(states));
    }

}

/// Switches a building to a known recipe, giving it a producer if it has none. A request for a
/// missing building or an unknown recipe changes nothing.
/// What a production-start request does to the buildings.
pub open spec fn start_post(b0: Seq<BuildingEntity>, b1: Seq<BuildingEntity>, config: GameConfig, event: StartProductionEvent) -> bool {
    &&& (b1.len() == b0.len())
    &&& (forall|j: int|
            0 <= j < b0.len() ==> (#[trigger] b1[j]).stockpile == b0[j].stockpile
                && b1[j].building == b0[j].building && b1[j].position
                == b0[j].position)
    &&& (forall|j: int|
            0 <= j < b0.len() && (j != event.building || lookup(config.recipes@, event.recipe_id@) is None)
                ==> #[trigger] b1[j] == b0[j])
    &&& (event.building < b0.len() && lookup(config.recipes@, event.recipe_id@) is Some ==> {
            let p = b1[event.building as int].producer;
            &&& p is Some
            &&& p.unwrap().recipe_id@ == event.recipe_id@
            &&& p.unwrap().production_progress == 0
            &&& !p.unwrap().is_producing
        })
}

pub fn start_production_request(buildings: &mut Vec<BuildingEntity>, config: &GameConfig, event: &StartProductionEvent)
    ensures
        start_post(old(buildings)@, final(buildings)@, *config, *event),
{
    if event.building >= buildings.len() {
        return;
    }
    if config.recipe(event.recipe_id.as_str()).is_none() {
        return;
    }
    let b = event.building;
    let has_producer = buildings[b].producer.is_some();
    if has_producer {
        if let Some(p) = &mut buildings[b].producer {
            start_production(p, event.recipe_id.clone());
        }
    } else {
        buildings[b].producer = Some(Producer::new(event.recipe_id.clone()));
    }
}

/// Determinism: two simulations that start at the same tick with the same numbers of buildings
/// and workers and no placement waiting, advanced by the same number of steps with no requests
/// in between, end with the same state fingerprint.
pub proof fn lemma_identical_runs_agree(
    a0: SimulationApp,
    a1: SimulationApp,
    b0: SimulationApp,
    b1: SimulationApp,
    n: u64,
)
    requires
        run_post(a0, a1, n),
        run_post(b0, b1, n),
        a0.tick.current == b0.tick.current,
        a0.buildings@.len() == b0.buildings@.len(),
        a0.workers@.len() == b0.workers@.len(),
        no_placements(a0),
        no_placements(b0),
    ensures
        state_hash(a1) == state_hash(b1),
{
}

impl Default for SimulationApp {
    fn default() -> (r: Self)
        ensures
            r.wf(),
            r.tick.current == 0,
            r.buildings@.len() == 0,
            r.workers@.len() == 0,
    {
        Self::new()
    }
}

} // verus!
