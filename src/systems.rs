use crate::components::{Pathfinding, Producer};
use crate::components::{BuildingEntity, Worker, WorkerEntity};
use crate::config::lookup;
use crate::construction::{finishes, advance_construction, constructed_once, place_building, placement_post};
use crate::config::GameConfig;
use crate::events::{
    PathfindingPriority, TaskKind,
    BuildingConstructedEvent, MapChangeType, MapChangedEvent, Notification, PathfindingRequestEvent,
    ProductionCompletedEvent, ReplayEventData, TaskCompletedEvent, TransferResourceEvent,
};
use crate::cache::PathfindingCache;
use crate::components::Position;
use crate::pathfinding::{find_path, find_path_post, is_route};
use crate::resources::MapData;
use crate::production::{production_post, recipe_value, recipe_wf, run_production};
use crate::simulation::{
    start_post,
    entity_count, is_placement, no_placements, spawned_on, start_production_request, SimulationApp,
};
use crate::stockpile::Stockpile;
use crate::transport::{completion_post, dispatch_post, dispatch_transfer, handle_task_completion, opt_seq};
use crate::worker::{completion, route_request, assign_worker, assignment_accepted, assignment_post, same_but_assigned, next_carrying, next_task, spawn_initial_workers, worker_ai, WORK_SECONDS};
use vstd::prelude::*;

verus! {

/// One queued request's effect on the buildings: a placement request does what
/// `placement_post` says; any other request leaves them alone.
pub open spec fn placement_step(
    b0: Seq<BuildingEntity>,
    b1: Seq<BuildingEntity>,
    request: ReplayEventData,
    config: GameConfig,
    map: MapData,
) -> bool {
    match request {
        ReplayEventData::PlaceBuilding(e) => placement_post(b0, b1, config, map, e.building_type@, e.position),
        _ => b1 == b0,
    }
}

/// `bs[k]` are the buildings before request `k`, each request applied in turn.
pub open spec fn placement_chain(
    bs: Seq<Seq<BuildingEntity>>,
    requests: Seq<ReplayEventData>,
    config: GameConfig,
    map: MapData,
) -> bool {
    &&& bs.len() == requests.len() + 1
    &&& forall|k: int| 0 <= k < requests.len() ==> #[trigger] placement_step(bs[k], bs[k + 1], requests[k], config, map)
}

/// What `building_placement_system` guarantees of the world before (`w0`) and after (`w1`) it.
pub open spec fn placement_stage_post(w0: SimulationApp, w1: SimulationApp) -> bool {
    &&& (w1.wf())
    &&& (w1.tick == w0.tick)
    &&& (w1.requests == w0.requests)
    &&& (w1.workers == w0.workers)
    &&& (w1.map == w0.map)
    &&& (w1.config == w0.config)
    &&& (w1.cache == w0.cache)
    &&& (w1.buildings@.len() >= w0.buildings@.len())
    &&& (no_placements(w0) ==> w1.buildings@ == w0.buildings@)
    &&& (exists|bs: Seq<Seq<BuildingEntity>>|
        #[trigger] placement_chain(bs, w0.requests@, w0.config, w0.map) && bs[0]
            == w0.buildings@ && bs.last() == w1.buildings@)
    &&& (w1.map_changed == (w0.map_changed || w1.buildings@.len() > w0.buildings@.len()))
    &&& (w1.transfers == w0.transfers)
    &&& (w1.path_requests == w0.path_requests)
    &&& (w1.metrics == w0.metrics)
}

/// Placement stage: the queued placement requests are applied in turn, each as
/// `place_building` does it; the map counts as changed once a building was placed.
pub fn building_placement_system(world: &mut SimulationApp)
    requires
        old(world).wf(),
    ensures
        placement_stage_post(*old(world), *final(world)),
{
    let ghost s0 = *world;
    let ghost mut bs: Seq<Seq<BuildingEntity>> = seq![world.buildings@];
    let mut i: usize = 0;
    while i < world.requests.len()
        invariant
            world.transfers == s0.transfers,
            world.path_requests == s0.path_requests,
            world.metrics == s0.metrics,
            world.wf(),
            world.tick == s0.tick,
            world.requests == s0.requests,
            world.workers == s0.workers,
            world.map == s0.map,
            world.config == s0.config,
            world.cache == s0.cache,
            world.buildings@.len() >= s0.buildings@.len(),
            no_placements(s0) ==> world.buildings@ == s0.buildings@,
            i <= world.requests@.len(),
            bs.len() == i + 1,
            bs[0] == s0.buildings@,
            bs.last() == world.buildings@,
            forall|k: int| 0 <= k < i ==> #[trigger] placement_step(bs[k], bs[k + 1], s0.requests@[k], s0.config, s0.map),
            world.map_changed == (s0.map_changed || world.buildings@.len() > s0.buildings@.len()),
        decreases world.requests@.len() - i,
    {
        let ghost before = world.buildings@;
        if let ReplayEventData::PlaceBuilding(e) = &world.requests[i] {
            let placed = place_building(&mut world.buildings, &world.config, &world.map, &e.building_type, e.position);
            if placed {
                world.map_changed = true;
                world.notifications.push(
                    Notification::MapChanged(
                        MapChangedEvent { position: e.position, change_type: MapChangeType::BuildingPlaced },
                    ),
                );
            }
            proof {
                if no_placements(s0) {
                    assert(!is_placement(s0.requests@[i as int]));
                }
                assert forall|j: int| 0 <= j < world.buildings@.len() implies (#[trigger] world.buildings@[j]).stockpile.wf() by {
                    if j == world.buildings@.len() - 1 && placed {
                    } else {
                        assert(world.buildings@[j] == before[j]) by {
                            if placed {
                                assert(world.buildings@.drop_last()[j] == world.buildings@[j]);
                            }
                        }
                    }
                }
            }
        }
        proof {
            assert(placement_step(before, world.buildings@, s0.requests@[i as int], s0.config, s0.map));
            let bs2 = bs.push(world.buildings@);
            assert forall|k: int| 0 <= k < i + 1 implies #[trigger] placement_step(bs2[k], bs2[k + 1], s0.requests@[k], s0.config, s0.map) by {
                if k < i {
                    assert(bs2[k] == bs[k] && bs2[k + 1] == bs[k + 1]);
                }
            }
            bs = bs2;
        }
        i = i + 1;
    }
    assert(placement_chain(bs, s0.requests@, s0.config, s0.map));
}

/// One queued request's effect on the workers and buildings: an assignment request does what
/// `assignment_post` says; any other request leaves them alone.
pub open spec fn assignment_step(
    w0: Seq<WorkerEntity>,
    b0: Seq<BuildingEntity>,
    w1: Seq<WorkerEntity>,
    b1: Seq<BuildingEntity>,
    request: ReplayEventData,
) -> bool {
    match request {
        ReplayEventData::AssignWorker(e) => assignment_post(w0, b0, w1, b1, e),
        _ => w1 == w0 && b1 == b0,
    }
}

/// `ws[k]` and `bs[k]` are the workers and buildings before request `k`, each request applied
/// in turn.
pub open spec fn assignment_chain(
    ws: Seq<Seq<WorkerEntity>>,
    bs: Seq<Seq<BuildingEntity>>,
    requests: Seq<ReplayEventData>,
) -> bool {
    &&& ws.len() == requests.len() + 1
    &&& bs.len() == requests.len() + 1
    &&& forall|k: int| 0 <= k < requests.len() ==> #[trigger] assignment_step(ws[k], bs[k], ws[k + 1], bs[k + 1], requests[k])
}

/// No building has more workers than places.
pub open spec fn within_capacity(bs: Seq<BuildingEntity>) -> bool {
    forall|i: int| 0 <= i < bs.len() ==> (#[trigger] bs[i]).building.assigned_workers <= bs[i].building.worker_capacity
}

proof fn lemma_assignment_keeps_capacity(w0: Seq<WorkerEntity>, b0: Seq<BuildingEntity>, w1: Seq<WorkerEntity>, b1: Seq<BuildingEntity>, r: ReplayEventData)
    requires
        assignment_step(w0, b0, w1, b1, r),
        within_capacity(b0),
    ensures
        within_capacity(b1),
{
    if let ReplayEventData::AssignWorker(e) = r {
        if assignment_accepted(w0, b0, e) {
            assert forall|i: int| 0 <= i < b1.len() implies (#[trigger] b1[i]).building.assigned_workers <= b1[i].building.worker_capacity by {
                assert(same_but_assigned(b1[i], b0[i]));
            }
        }
    }
}

/// What `worker_assignment_system` guarantees of the world before (`w0`) and after (`w1`) it.
pub open spec fn assignment_stage_post(w0: SimulationApp, w1: SimulationApp) -> bool {
    &&& (w1.wf())
    &&& (w1.tick == w0.tick)
    &&& (w1.requests == w0.requests)
    &&& (w1.map == w0.map)
    &&& (w1.cache == w0.cache)
    &&& (exists|ws: Seq<Seq<WorkerEntity>>,
bs: Seq<Seq<BuildingEntity>>|
        #[trigger] assignment_chain(ws, bs, w0.requests@) && ws[0] == w0.workers@ && bs[0]
            == w0.buildings@ && ws.last() == w1.workers@ && bs.last() == w1.buildings@)
    &&& (within_capacity(w0.buildings@) ==> within_capacity(w1.buildings@))
    &&& (w1.workers@.len() == w0.workers@.len())
    &&& (w1.buildings@.len() == w0.buildings@.len())
    &&& (w1.transfers == w0.transfers)
    &&& (w1.path_requests == w0.path_requests)
    &&& (w1.metrics == w0.metrics)
    &&& (w1.notifications == w0.notifications)
    &&& (w1.map_changed == w0.map_changed)
    &&& (w1.config == w0.config)
}

/// Assignment stage: the queued requests are applied in turn, each as `assign_worker` does it.
pub fn worker_assignment_system(world: &mut SimulationApp)
    requires
        old(world).wf(),
    ensures
        assignment_stage_post(*old(world), *final(world)),
{
    let ghost mut ws: Seq<Seq<WorkerEntity>> = seq![world.workers@];
    let ghost mut bs: Seq<Seq<BuildingEntity>> = seq![world.buildings@];
    let mut i: usize = 0;
    while i < world.requests.len()
        invariant
            world.transfers == old(world).transfers,
            world.path_requests == old(world).path_requests,
            world.metrics == old(world).metrics,
            world.notifications == old(world).notifications,
            world.map_changed == old(world).map_changed,
            world.config == old(world).config,
            world.wf(),
            world.tick == old(world).tick,
            world.requests == old(world).requests,
            world.map == old(world).map,
            world.cache == old(world).cache,
            i <= world.requests@.len(),
            ws.len() == i + 1,
            bs.len() == i + 1,
            ws[0] == old(world).workers@,
            bs[0] == old(world).buildings@,
            ws.last() == world.workers@,
            bs.last() == world.buildings@,
            forall|k: int| 0 <= k < i ==> #[trigger] assignment_step(ws[k], bs[k], ws[k + 1], bs[k + 1], world.requests@[k]),
            within_capacity(old(world).buildings@) ==> within_capacity(world.buildings@),
            world.workers@.len() == old(world).workers@.len(),
            world.buildings@.len() == old(world).buildings@.len(),
        decreases world.requests@.len() - i,
    {
        let ghost w0 = world.workers@;
        let ghost b0 = world.buildings@;
        if let ReplayEventData::AssignWorker(e) = &world.requests[i] {
            assign_worker(&mut world.workers, &mut world.buildings, *e);
            proof {
                assert forall|j: int| 0 <= j < world.buildings@.len() implies (#[trigger] world.buildings@[j]).stockpile.wf() by {
                    if assignment_accepted(w0, b0, *e) {
                        assert(same_but_assigned(world.buildings@[j], b0[j]));
                    }
                }
            }
        }
        proof {
            assert(assignment_step(w0, b0, world.workers@, world.buildings@, world.requests@[i as int]));
            if within_capacity(old(world).buildings@) {
                lemma_assignment_keeps_capacity(w0, b0, world.workers@, world.buildings@, world.requests@[i as int]);
            }
            let ws2 = ws.push(world.workers@);
            let bs2 = bs.push(world.buildings@);
            assert forall|k: int| 0 <= k < i + 1 implies #[trigger] assignment_step(ws2[k], bs2[k], ws2[k + 1], bs2[k + 1], world.requests@[k]) by {
                if k < i {
                    assert(ws2[k] == ws[k] && ws2[k + 1] == ws[k + 1] && bs2[k] == bs[k] && bs2[k + 1] == bs[k + 1]);
                }
            }
            ws = ws2;
            bs = bs2;
        }
        i = i + 1;
    }
    assert(assignment_chain(ws, bs, old(world).requests@));
}

/// One queued request's effect on the buildings: a production-start request does what
/// `start_post` says; any other request leaves them alone.
pub open spec fn start_step(b0: Seq<BuildingEntity>, b1: Seq<BuildingEntity>, request: ReplayEventData, config: GameConfig) -> bool {
    match request {
        ReplayEventData::StartProduction(e) => start_post(b0, b1, config, e),
        _ => b1 == b0,
    }
}

/// `bs[k]` are the buildings before request `k`, each request applied in turn.
pub open spec fn start_chain(bs: Seq<Seq<BuildingEntity>>, requests: Seq<ReplayEventData>, config: GameConfig) -> bool {
    &&& bs.len() == requests.len() + 1
    &&& forall|k: int| 0 <= k < requests.len() ==> #[trigger] start_step(bs[k], bs[k + 1], requests[k], config)
}

/// What `start_production_system` guarantees of the world before (`w0`) and after (`w1`) it.
pub open spec fn start_stage_post(w0: SimulationApp, w1: SimulationApp) -> bool {
    &&& (w1.wf())
    &&& (w1.tick == w0.tick)
    &&& (w1.requests == w0.requests)
    &&& (w1.workers == w0.workers)
    &&& (w1.map == w0.map)
    &&& (w1.cache == w0.cache)
    &&& (w1.config == w0.config)
    &&& (w1.buildings@.len() == w0.buildings@.len())
    &&& (exists|bs: Seq<Seq<BuildingEntity>>|
        #[trigger] start_chain(bs, w0.requests@, w0.config) && bs[0] == w0.buildings@
            && bs.last() == w1.buildings@)
    &&& (w1.transfers == w0.transfers)
    &&& (w1.path_requests == w0.path_requests)
    &&& (w1.metrics == w0.metrics)
    &&& (w1.notifications == w0.notifications)
    &&& (w1.map_changed == w0.map_changed)
}

/// Production start stage: the queued requests are applied in turn, each as
/// `start_production_request` does it.
pub fn start_production_system(world: &mut SimulationApp)
    requires
        old(world).wf(),
    ensures
        start_stage_post(*old(world), *final(world)),
{
    let ghost mut bs: Seq<Seq<BuildingEntity>> = seq![world.buildings@];
    let mut i: usize = 0;
    while i < world.requests.len()
        invariant
            world.transfers == old(world).transfers,
            world.path_requests == old(world).path_requests,
            world.metrics == old(world).metrics,
            world.notifications == old(world).notifications,
            world.map_changed == old(world).map_changed,
            world.wf(),
            world.tick == old(world).tick,
            world.requests == old(world).requests,
            world.workers == old(world).workers,
            world.map == old(world).map,
            world.cache == old(world).cache,
            world.config == old(world).config,
            world.buildings@.len() == old(world).buildings@.len(),
            i <= world.requests@.len(),
            bs.len() == i + 1,
            bs[0] == old(world).buildings@,
            bs.last() == world.buildings@,
            forall|k: int| 0 <= k < i ==> #[trigger] start_step(bs[k], bs[k + 1], world.requests@[k], world.config),
        decreases world.requests@.len() - i,
    {
        let ghost before = world.buildings@;
        if let ReplayEventData::StartProduction(e) = &world.requests[i] {
            start_production_request(&mut world.buildings, &world.config, e);
        }
        proof {
            assert(start_step(before, world.buildings@, world.requests@[i as int], world.config));
            let bs2 = bs.push(world.buildings@);
            assert forall|k: int| 0 <= k < i + 1 implies #[trigger] start_step(bs2[k], bs2[k + 1], world.requests@[k], world.config) by {
                if k < i {
                    assert(bs2[k] == bs[k] && bs2[k + 1] == bs[k + 1]);
                }
            }
            bs = bs2;
        }
        i = i + 1;
    }
    assert(start_chain(bs, old(world).requests@, old(world).config));
}

/// The transfer requests among the first `n` queued requests, in order.
pub open spec fn transfers_among(requests: Seq<ReplayEventData>, n: int) -> Seq<TransferResourceEvent>
    decreases n,
{
    if n <= 0 {
        Seq::empty()
    } else {
        transfers_among(requests, n - 1) + match requests[n - 1] {
            ReplayEventData::TransferResource(e) => seq![e],
            _ => Seq::empty(),
        }
    }
}

/// The queued transfer requests, in order.
pub(crate) fn requested_transfers(requests: &Vec<ReplayEventData>) -> (r: Vec<TransferResourceEvent>)
    ensures
        r@ == transfers_among(requests@, requests@.len() as int),
{
    let mut out: Vec<TransferResourceEvent> = Vec::new();
    let mut i: usize = 0;
    while i < requests.len()
        invariant
            i <= requests@.len(),
            out@ == transfers_among(requests@, i as int),
        decreases requests@.len() - i,
    {
        if let ReplayEventData::TransferResource(e) = &requests[i] {
            out.push(TransferResourceEvent { from: e.from, to: e.to, resource: e.resource.clone(), amount: e.amount });
        }
        i = i + 1;
    }
    out
}

/// What `advance_tick_system` guarantees of the world before (`w0`) and after (`w1`) it.
pub open spec fn advance_stage_post(w0: SimulationApp, w1: SimulationApp) -> bool {
    &&& (w1.wf())
    &&& (w1.tick.current == w0.tick.current + 1)
    &&& (w1.tick.target_tps == w0.tick.target_tps)
    &&& (w1.requests == w0.requests)
    &&& (w1.buildings == w0.buildings)
    &&& (w1.workers == w0.workers)
    &&& (w1.metrics.entities_count == entity_count(w0))
    &&& (w1.transfers == w0.transfers)
    &&& (w1.path_requests == w0.path_requests)
    &&& (w1.notifications == w0.notifications)
    &&& (w1.map_changed == w0.map_changed)
    &&& (w1.map == w0.map)
    &&& (w1.cache == w0.cache)
    &&& (w1.config == w0.config)
}

/// Tick stage: the counter advances and the entity count is recorded.
pub fn advance_tick_system(world: &mut SimulationApp)
    requires
        old(world).wf(),
        old(world).tick.current < u64::MAX,
    ensures
        advance_stage_post(*old(world), *final(world)),
{
    world.tick.tick();
    let b = world.buildings.len() as u128;
    let w = world.workers.len() as u128;
    world.metrics.entities_count = if b + w <= u64::MAX as u128 {
        (b + w) as u64
    } else {
        u64::MAX
    };
}

/// What `invalidate_pathfinding_cache_system` guarantees of the world before (`w0`) and after (`w1`) it.
pub open spec fn invalidate_stage_post(w0: SimulationApp, w1: SimulationApp) -> bool {
    &&& (w1.wf())
    &&& (w1.tick == w0.tick)
    &&& (w1.requests == w0.requests)
    &&& (w1.buildings == w0.buildings)
    &&& (w1.workers == w0.workers)
    &&& (!w1.map_changed)
    &&& (w0.map_changed ==> w1.cache.len() == 0)
    &&& (!w0.map_changed ==> w1.cache == w0.cache)
    &&& (w1.cache.cache_hits == w0.cache.cache_hits)
    &&& (w1.cache.cache_misses == w0.cache.cache_misses)
    &&& (w1.cache.max_cache_size == w0.cache.max_cache_size)
    &&& (w1.map == w0.map)
    &&& (w1.transfers == w0.transfers)
    &&& (w1.path_requests == w0.path_requests)
    &&& (w1.metrics == w0.metrics)
    &&& (w1.notifications == w0.notifications)
    &&& (w1.config == w0.config)
}

/// Cache maintenance stage: a map change since the last clearing drops every cached path.
pub fn invalidate_pathfinding_cache_system(world: &mut SimulationApp)
    requires
        old(world).wf(),
    ensures
        invalidate_stage_post(*old(world), *final(world)),
{
    if world.map_changed {
        world.cache.clear();
        world.map_changed = false;
    }
}

/// What `spawn_workers_system` guarantees of the world before (`w0`) and after (`w1`) it.
pub open spec fn spawn_stage_post(w0: SimulationApp, w1: SimulationApp) -> bool {
    &&& (w1.wf())
    &&& (w1.tick == w0.tick)
    &&& (w1.requests == w0.requests)
    &&& (w1.buildings == w0.buildings)
    &&& (w1.workers@.len() == w0.workers@.len() + spawned_on(w0.tick.current))
    &&& (forall|i: int| 0 <= i < w0.workers@.len() ==> w1.workers@[i] == w0.workers@[i])
    &&& (forall|i: int|
        0 <= i < spawned_on(w0.tick.current) ==> {
            let w = #[trigger] w1.workers@[w0.workers@.len() + i];
            &&& w.position == Position { x: (10 + i) as i32, y: 10 }
            &&& w.worker.current_task is Idle
            &&& w.worker.assigned_building is None
            &&& w.worker.carrying is None
            &&& w.path is None
        })
    &&& (w1.transfers == w0.transfers)
    &&& (w1.path_requests == w0.path_requests)
    &&& (w1.metrics == w0.metrics)
    &&& (w1.notifications == w0.notifications)
    &&& (w1.map_changed == w0.map_changed)
    &&& (w1.map == w0.map)
    &&& (w1.cache == w0.cache)
    &&& (w1.config == w0.config)
}

/// Start-up stage: on the first tick, the five initial workers appear.
pub fn spawn_workers_system(world: &mut SimulationApp)
    requires
        old(world).wf(),
    ensures
        spawn_stage_post(*old(world), *final(world)),
{
    if world.tick.current == 1 {
        spawn_initial_workers(&mut world.workers);
    }
}

/// The ticks a building of the given type takes to construct, if the type is known.
pub open spec fn required_ticks(world: SimulationApp, building_type: Seq<char>) -> Option<u64> {
    match lookup(world.config.buildings@, building_type) {
        Some(c) => Some((c.construction_time * world.tick.target_tps) as u64),
        None => None,
    }
}

/// A building entity after the construction stage.
pub open spec fn after_construction(world: SimulationApp, e: BuildingEntity) -> BuildingEntity {
    match required_ticks(world, e.building.building_type@) {
        Some(t) => BuildingEntity { building: constructed_once(e.building, t), ..e },
        None => e,
    }
}

/// The completion reports of the construction stage for the first `n` buildings: one for each
/// building that this tick finishes.
pub open spec fn construction_notes(world: SimulationApp, bs: Seq<BuildingEntity>, n: int) -> Seq<Notification>
    decreases n,
{
    if n <= 0 {
        Seq::empty()
    } else {
        construction_notes(world, bs, n - 1) + match required_ticks(world, bs[n - 1].building.building_type@) {
            Some(t) => if finishes(bs[n - 1].building, t) {
                seq![
                    Notification::BuildingConstructed(
                        BuildingConstructedEvent {
                            building: (n - 1) as usize,
                            building_type: bs[n - 1].building.building_type,
                            position: bs[n - 1].position,
                        },
                    ),
                ]
            } else {
                Seq::empty()
            },
            None => Seq::empty(),
        }
    }
}

/// What `construction_system` guarantees of the world before (`w0`) and after (`w1`) it.
pub open spec fn construction_stage_post(w0: SimulationApp, w1: SimulationApp) -> bool {
    &&& (w1.wf())
    &&& (w1.tick == w0.tick)
    &&& (w1.requests == w0.requests)
    &&& (w1.workers == w0.workers)
    &&& (w1.config == w0.config)
    &&& (w1.buildings@.len() == w0.buildings@.len())
    &&& (forall|i: int|
        0 <= i < w0.buildings@.len() ==> #[trigger] w1.buildings@[i] == after_construction(
            w0,
w0.buildings@[i],
))
    &&& (w1.notifications@ == w0.notifications@ + construction_notes(
        w0,
w0.buildings@,
w0.buildings@.len() as int,
))
    &&& (w1.map == w0.map)
    &&& (w1.cache == w0.cache)
    &&& (w1.transfers == w0.transfers)
    &&& (w1.path_requests == w0.path_requests)
    &&& (w1.metrics == w0.metrics)
    &&& (w1.map_changed == w0.map_changed)
}

/// Construction stage: each unfinished building of a known type gains one tick of work.
pub fn construction_system(world: &mut SimulationApp)
    requires
        old(world).wf(),
    ensures
        construction_stage_post(*old(world), *final(world)),
{
    let tps = world.tick.target_tps;
    let mut i: usize = 0;
    while i < world.buildings.len()
        invariant
            world.transfers == old(world).transfers,
            world.path_requests == old(world).path_requests,
            world.metrics == old(world).metrics,
            world.map_changed == old(world).map_changed,
            world.wf(),
            world.tick.target_tps == tps,
            world.tick == old(world).tick,
            world.config == old(world).config,
            world.requests == old(world).requests,
            world.workers == old(world).workers,
            world.buildings@.len() == old(world).buildings@.len(),
            i <= world.buildings@.len(),
            forall|j: int|
                0 <= j < i ==> #[trigger] world.buildings@[j] == after_construction(*old(world), old(world).buildings@[j]),
            forall|j: int| i <= j < world.buildings@.len() ==> #[trigger] world.buildings@[j] == old(world).buildings@[j],
            world.notifications@ == old(world).notifications@ + construction_notes(*old(world), old(world).buildings@, i as int),
            world.map == old(world).map,
            world.cache == old(world).cache,
        decreases world.buildings@.len() - i,
    {
        let required: Option<u64> = match world.config.building(world.buildings[i].building.building_type.as_str()) {
            Some(c) => Some(world.tick.ticks_for(c.construction_time)),
            None => None,
        };
        let ghost before = world.buildings@;
        if let Some(required) = required {
            let completed = advance_construction(&mut world.buildings[i].building, required);
            assert forall|j: int| 0 <= j < world.buildings@.len() implies (#[trigger] world.buildings@[j]).stockpile.wf() by {
                assert(world.buildings@[j].stockpile == before[j].stockpile);
            }
            if completed {
                let e = BuildingConstructedEvent {
                    building: i,
                    building_type: world.buildings[i].building.building_type.clone(),
                    position: world.buildings[i].position,
                };
                world.notifications.push(Notification::BuildingConstructed(e));
            }
        }
        proof {
            assert(world.buildings@[i as int] == after_construction(*old(world), old(world).buildings@[i as int]));
            assert forall|j: int| 0 <= j < world.buildings@.len() && j != i implies #[trigger] world.buildings@[j] == before[j] by {}
        }
        i = i + 1;
    }
}

/// Production stage: each building with a producer runs one tick of its recipe.
/// What production does to one building entity (`e0` to `e1`), with `out` the quantities a
/// completed run stored: one without a producer is left as it was; for one with a producer,
/// the producer and stockpile change as `production_post` says for the recipe the producer names.
pub open spec fn produced_at(
    e0: BuildingEntity,
    e1: BuildingEntity,
    config: GameConfig,
    tps: u32,
    out: Option<Vec<(String, u32)>>,
) -> bool {
    &&& e1.position == e0.position
    &&& e1.building == e0.building
    &&& match e0.producer {
        None => e1 == e0 && out is None,
        Some(prod0) => e1.producer is Some && production_post(
            e0.building,
            prod0,
            e1.producer.unwrap(),
            e0.stockpile,
            e1.stockpile,
            lookup(config.recipes@, prod0.recipe_id@),
            tps,
            out,
        ),
    }
}

/// The completion reports for the first `n` buildings, in building order.
pub open spec fn production_notes(bs: Seq<BuildingEntity>, outs: Seq<Option<Vec<(String, u32)>>>, n: int) -> Seq<Notification>
    decreases n,
{
    if n <= 0 {
        Seq::empty()
    } else {
        production_notes(bs, outs, n - 1) + match outs[n - 1] {
            Some(o) => seq![
                Notification::ProductionCompleted(
                    ProductionCompletedEvent {
                        building: (n - 1) as usize,
                        recipe_id: bs[n - 1].producer.unwrap().recipe_id,
                        outputs: o,
                    },
                ),
            ],
            None => Seq::empty(),
        }
    }
}

/// What `production_system` guarantees of the world before (`w0`) and after (`w1`) it.
pub open spec fn production_stage_post(w0: SimulationApp, w1: SimulationApp) -> bool {
    &&& (w1.wf())
    &&& (w1.tick == w0.tick)
    &&& (w1.requests == w0.requests)
    &&& (w1.workers == w0.workers)
    &&& (w1.map == w0.map)
    &&& (w1.cache == w0.cache)
    &&& (w1.config == w0.config)
    &&& (w1.buildings@.len() == w0.buildings@.len())
    &&& (exists|outs: Seq<Option<Vec<(String, u32)>>>|
        #[trigger] outs.len() == w0.buildings@.len() && (forall|i: int|
            0 <= i < w0.buildings@.len() ==> produced_at(
                w0.buildings@[i],
#[trigger] w1.buildings@[i],
w0.config,
w0.tick.target_tps,
outs[i],
)) && w1.notifications@ == w0.notifications@ + production_notes(
            w0.buildings@,
outs,
w0.buildings@.len() as int,
))
    &&& (w1.transfers == w0.transfers)
    &&& (w1.path_requests == w0.path_requests)
    &&& (w1.metrics == w0.metrics)
    &&& (w1.map_changed == w0.map_changed)
}

/// Production stage: every building with a producer runs one tick of the recipe it names, as
/// `run_production` does it; each completed run is reported.
pub fn production_system(world: &mut SimulationApp)
    requires
        old(world).wf(),
    ensures
        production_stage_post(*old(world), *final(world)),
{
    let tps = world.tick.target_tps;
    let ghost mut outs: Seq<Option<Vec<(String, u32)>>> = Seq::empty();
    let mut i: usize = 0;
    while i < world.buildings.len()
        invariant
            world.transfers == old(world).transfers,
            world.path_requests == old(world).path_requests,
            world.metrics == old(world).metrics,
            world.map_changed == old(world).map_changed,
            world.wf(),
            world.tick.target_tps == tps,
            world.tick == old(world).tick,
            world.requests == old(world).requests,
            world.workers == old(world).workers,
            world.map == old(world).map,
            world.cache == old(world).cache,
            world.config == old(world).config,
            world.buildings@.len() == old(world).buildings@.len(),
            i <= world.buildings@.len(),
            outs.len() == i,
            forall|j: int|
                0 <= j < i ==> produced_at(old(world).buildings@[j], #[trigger] world.buildings@[j], world.config, tps, outs[j]),
            forall|j: int| i <= j < world.buildings@.len() ==> #[trigger] world.buildings@[j] == old(world).buildings@[j],
            world.notifications@ == old(world).notifications@ + production_notes(old(world).buildings@, outs, i as int),
        decreases world.buildings@.len() - i,
    {
        let ghost before = world.buildings@;
        let ghost notes0 = world.notifications@;
        let ghost mut o: Option<Vec<(String, u32)>> = None;
        let mut slot: Option<Producer> = None;
        std::mem::swap(&mut slot, &mut world.buildings[i].producer);
        if let Some(mut producer) = slot {
            let mut stock = Stockpile::new(0);
            std::mem::swap(&mut stock, &mut world.buildings[i].stockpile);
            let recipe = world.config.recipe(producer.recipe_id.as_str());
            proof {
                if recipe is Some {
                    let k = crate::config::first_index(world.config.recipes@, producer.recipe_id@).unwrap();
                    crate::config::lemma_first_index_found(world.config.recipes@, producer.recipe_id@);
                    assert(recipe_wf(world.config.recipes@[k].1));
                }
                assert(before[i as int].stockpile.wf());
                assert(recipe_value(recipe) == lookup(world.config.recipes@, producer.recipe_id@));
            }
            let out = run_production(&world.buildings[i].building, &mut producer, &mut stock, recipe, tps);
            proof { o = out; }
            let recipe_id = producer.recipe_id.clone();
            world.buildings[i].producer = Some(producer);
            world.buildings[i].stockpile = stock;
            if let Some(outputs) = out {
                world.notifications.push(
                    Notification::ProductionCompleted(ProductionCompletedEvent { building: i, recipe_id, outputs }),
                );
            }
        }
        assert forall|j: int| 0 <= j < world.buildings@.len() implies (#[trigger] world.buildings@[j]).stockpile.wf() by {
            if j != i {
                assert(world.buildings@[j] == before[j]);
            }
        }
        proof {
            assert(produced_at(old(world).buildings@[i as int], world.buildings@[i as int], world.config, tps, o));
            let outs2 = outs.push(o);
            assert forall|j: int| 0 <= j < i + 1 implies produced_at(
                old(world).buildings@[j],
                #[trigger] world.buildings@[j],
                world.config,
                tps,
                outs2[j],
            ) by {
                if j < i {
                    assert(outs2[j] == outs[j]);
                    assert(world.buildings@[j] == before[j]);
                }
            }
            assert forall|j: int| i + 1 <= j < world.buildings@.len() implies #[trigger] world.buildings@[j] == old(world).buildings@[j] by {
                assert(world.buildings@[j] == before[j]);
            }
            assert(production_notes(old(world).buildings@, outs2, i as int) == production_notes(old(world).buildings@, outs, i as int)) by {
                lemma_notes_prefix(old(world).buildings@, outs, outs2, i as int);
            }
            assert(world.notifications@ == old(world).notifications@ + production_notes(old(world).buildings@, outs2, i as int + 1));
            outs = outs2;
        }
        i = i + 1;
    }
    assert(outs.len() == old(world).buildings@.len());
}

proof fn lemma_notes_prefix(
    bs: Seq<BuildingEntity>,
    a: Seq<Option<Vec<(String, u32)>>>,
    b: Seq<Option<Vec<(String, u32)>>>,
    n: int,
)
    requires
        0 <= n <= a.len(),
        n <= b.len(),
        forall|j: int| 0 <= j < n ==> a[j] == b[j],
    ensures
        production_notes(bs, a, n) == production_notes(bs, b, n),
    decreases n,
{
    if n > 0 {
        lemma_notes_prefix(bs, a, b, n - 1);
    }
}

/// A worker after one step of its state machine.
pub open spec fn after_ai(w: WorkerEntity, buildings: Seq<BuildingEntity>, work_ticks: u64) -> WorkerEntity {
    WorkerEntity {
        worker: Worker {
            current_task: next_task(w, buildings, work_ticks),
            carrying: next_carrying(w),
            ..w.worker
        },
        ..w
    }
}

/// The routes the first `n` workers ask for in the worker stage, in worker order.
pub open spec fn ai_routes(ws: Seq<WorkerEntity>, buildings: Seq<BuildingEntity>, n: int) -> Seq<PathfindingRequestEvent>
    decreases n,
{
    if n <= 0 {
        Seq::empty()
    } else {
        ai_routes(ws, buildings, n - 1) + match route_request(ws[n - 1], buildings) {
            Some(to) => seq![
                PathfindingRequestEvent {
                    entity: (n - 1) as usize,
                    from: ws[n - 1].position,
                    to,
                    priority: PathfindingPriority::Normal,
                },
            ],
            None => Seq::empty(),
        }
    }
}

/// The tasks the first `n` workers complete in the worker stage, in worker order.
pub open spec fn ai_completions(ws: Seq<WorkerEntity>, work_ticks: u64, n: int) -> Seq<TaskCompletedEvent>
    decreases n,
{
    if n <= 0 {
        Seq::empty()
    } else {
        ai_completions(ws, work_ticks, n - 1) + match completion(ws[n - 1], work_ticks) {
            Some(k) => seq![TaskCompletedEvent { worker: (n - 1) as usize, task_type: k }],
            None => Seq::empty(),
        }
    }
}

/// Ticks a work task lasts at the simulation's rate.
pub open spec fn work_duration(world: SimulationApp) -> u64 {
    (WORK_SECONDS * world.tick.target_tps) as u64
}

/// What `worker_ai_system` guarantees of the world before (`w0`) and after (`w1`) it.
pub open spec fn ai_stage_post(w0: SimulationApp, w1: SimulationApp, paths: Seq<PathfindingRequestEvent>, done: Seq<TaskCompletedEvent>) -> bool {
    &&& (w1.wf())
    &&& (w1.tick == w0.tick)
    &&& (w1.requests == w0.requests)
    &&& (w1.buildings == w0.buildings)
    &&& (w1.workers@.len() == w0.workers@.len())
    &&& (forall|i: int|
        0 <= i < w0.workers@.len() ==> #[trigger] w1.workers@[i] == after_ai(
            w0.workers@[i],
w0.buildings@,
work_duration(w0),
))
    &&& (paths == ai_routes(w0.workers@, w0.buildings@, w0.workers@.len() as int))
    &&& (done == ai_completions(w0.workers@, work_duration(w0), w0.workers@.len() as int))
    &&& (w1.map == w0.map)
    &&& (w1.cache == w0.cache)
    &&& (w1.config == w0.config)
    &&& (w1.transfers == w0.transfers)
    &&& (w1.path_requests == w0.path_requests)
    &&& (w1.metrics == w0.metrics)
    &&& (w1.notifications == w0.notifications)
    &&& (w1.map_changed == w0.map_changed)
}

/// Worker stage: each worker's state machine takes one step. Returns the routes asked for
/// and the tasks completed, in worker order.
pub fn worker_ai_system(world: &mut SimulationApp) -> (r: (Vec<PathfindingRequestEvent>, Vec<TaskCompletedEvent>))
    requires
        old(world).wf(),
    ensures
        ai_stage_post(*old(world), *final(world), r.0@, r.1@),
{
    let work_ticks = world.tick.ticks_for(WORK_SECONDS);
    let mut paths: Vec<PathfindingRequestEvent> = Vec::new();
    let mut done: Vec<TaskCompletedEvent> = Vec::new();
    let mut i: usize = 0;
    while i < world.workers.len()
        invariant
            world.transfers == old(world).transfers,
            world.path_requests == old(world).path_requests,
            world.metrics == old(world).metrics,
            world.notifications == old(world).notifications,
            world.map_changed == old(world).map_changed,
            world.wf(),
            world.tick == old(world).tick,
            world.requests == old(world).requests,
            world.buildings == old(world).buildings,
            world.workers@.len() == old(world).workers@.len(),
            i <= world.workers@.len(),
            work_ticks == work_duration(*old(world)),
            world.map == old(world).map,
            world.cache == old(world).cache,
            world.config == old(world).config,
            paths@ == ai_routes(old(world).workers@, old(world).buildings@, i as int),
            done@ == ai_completions(old(world).workers@, work_ticks, i as int),
            forall|j: int|
                0 <= j < i ==> #[trigger] world.workers@[j] == after_ai(
                    old(world).workers@[j],
                    old(world).buildings@,
                    work_ticks,
                ),
            forall|j: int| i <= j < world.workers@.len() ==> #[trigger] world.workers@[j] == old(world).workers@[j],
        decreases world.workers@.len() - i,
    {
        let ghost before = world.workers@;
        let out = worker_ai(&mut world.workers[i], i, &world.buildings, work_ticks);
        proof {
            assert(world.workers@[i as int] == after_ai(old(world).workers@[i as int], old(world).buildings@, work_ticks));
            assert forall|j: int| 0 <= j < world.workers@.len() && j != i implies #[trigger] world.workers@[j] == before[j] by {}
        }
        if let Some(p) = out.path_request {
            paths.push(p);
        }
        if let Some(c) = out.completed {
            done.push(c);
        }
        i = i + 1;
    }
    (paths, done)
}

/// One path request's effect on the workers (`w0` to `w1`) and the cache (`c0` to `c1`), with
/// `r` the route found: a request for a missing worker changes nothing; otherwise the cache
/// answers or searches as `find_path` does, and a route found becomes the worker's new path,
/// followed from its first waypoint.
pub open spec fn path_step(
    w0: Seq<WorkerEntity>,
    w1: Seq<WorkerEntity>,
    c0: PathfindingCache,
    c1: PathfindingCache,
    map: MapData,
    request: PathfindingRequestEvent,
    r: Option<Seq<Position>>,
) -> bool {
    let e = request.entity as int;
    if e < w0.len() {
        &&& find_path_post(c0, c1, map, request.from, request.to, r)
        &&& w1.len() == w0.len()
        &&& forall|j: int| 0 <= j < w0.len() && j != e ==> w1[j] == w0[j]
        &&& r is None ==> w1[e] == w0[e]
        &&& r matches Some(p) ==> {
            &&& w1[e].position == w0[e].position
            &&& w1[e].worker == w0[e].worker
            &&& answers(w1[e].path, request, map)
            &&& w1[e].path.unwrap().path@ == p
        }
    } else {
        w1 == w0 && c1 == c0 && r is None
    }
}

/// `ws[k]`, `cs[k]` are the workers and cache before request `k`, and `rs[k]` its route, each
/// request handled in turn.
pub open spec fn path_chain(
    ws: Seq<Seq<WorkerEntity>>,
    cs: Seq<PathfindingCache>,
    rs: Seq<Option<Seq<Position>>>,
    map: MapData,
    requests: Seq<PathfindingRequestEvent>,
) -> bool {
    &&& ws.len() == requests.len() + 1
    &&& cs.len() == requests.len() + 1
    &&& rs.len() == requests.len()
    &&& forall|k: int|
        0 <= k < requests.len() ==> #[trigger] path_step(ws[k], ws[k + 1], cs[k], cs[k + 1], map, requests[k], rs[k])
}

/// What `pathfinding_system` guarantees of the world before (`w0`) and after (`w1`) it.
pub open spec fn path_stage_post(w0: SimulationApp, w1: SimulationApp, requests: Seq<PathfindingRequestEvent>) -> bool {
    &&& (w1.wf())
    &&& (w1.tick == w0.tick)
    &&& (w1.requests == w0.requests)
    &&& (w1.buildings == w0.buildings)
    &&& (w1.map == w0.map)
    &&& (w1.config == w0.config)
    &&& (w1.workers@.len() == w0.workers@.len())
    &&& (forall|w: int|
        0 <= w < w0.workers@.len() ==> routed_by(
            #[trigger] w1.workers@[w],
w0.workers@[w],
w,
requests,
w0.map,
))
    &&& (exists|ws: Seq<Seq<WorkerEntity>>,
cs: Seq<PathfindingCache>,
rs: Seq<Option<Seq<Position>>>|
        #[trigger] path_chain(ws, cs, rs, w0.map, requests) && ws[0] == w0.workers@ && cs[0]
            == w0.cache && ws.last() == w1.workers@ && cs.last() == w1.cache)
    &&& (w1.transfers == w0.transfers)
    &&& (w1.path_requests == w0.path_requests)
    &&& (w1.metrics == w0.metrics)
    &&& (w1.notifications == w0.notifications)
    &&& (w1.map_changed == w0.map_changed)
}

/// Path stage: the requests are handled in turn; each for an existing worker is answered from
/// the cache or by a search, as `find_path` does it, and a route found becomes the worker's path.
pub fn pathfinding_system(world: &mut SimulationApp, requests: &Vec<PathfindingRequestEvent>)
    requires
        old(world).wf(),
    ensures
        path_stage_post(*old(world), *final(world), requests@),
{
    let ghost mut ws: Seq<Seq<WorkerEntity>> = seq![world.workers@];
    let ghost mut cs: Seq<PathfindingCache> = seq![world.cache];
    let ghost mut rs: Seq<Option<Seq<Position>>> = Seq::empty();
    let mut i: usize = 0;
    while i < requests.len()
        invariant
            world.transfers == old(world).transfers,
            world.path_requests == old(world).path_requests,
            world.metrics == old(world).metrics,
            world.notifications == old(world).notifications,
            world.map_changed == old(world).map_changed,
            world.wf(),
            world.tick == old(world).tick,
            world.requests == old(world).requests,
            world.buildings == old(world).buildings,
            world.map == old(world).map,
            world.config == old(world).config,
            world.workers@.len() == old(world).workers@.len(),
            i <= requests@.len(),
            forall|w: int|
                0 <= w < old(world).workers@.len() ==> routed_by(
                    #[trigger] world.workers@[w],
                    old(world).workers@[w],
                    w,
                    requests@,
                    old(world).map,
                ),
            ws.len() == i + 1,
            cs.len() == i + 1,
            rs.len() == i,
            ws[0] == old(world).workers@,
            cs[0] == old(world).cache,
            ws.last() == world.workers@,
            cs.last() == world.cache,
            forall|k: int|
                0 <= k < i ==> #[trigger] path_step(ws[k], ws[k + 1], cs[k], cs[k + 1], world.map, requests@[k], rs[k]),
        decreases requests@.len() - i,
    {
        let req = requests[i];
        let ghost w0 = world.workers@;
        let ghost c0 = world.cache;
        let ghost mut r: Option<Seq<Position>> = None;
        if req.entity < world.workers.len() {
            let found = find_path(&mut world.cache, &world.map, req.from, req.to);
            proof { r = crate::pathfinding::path_view(found); }
            if let Some(path) = found {
                assert(crate::pathfinding::path_view(found) == Some(path@));
                let ghost before = world.workers@;
                world.workers[req.entity].path = Some(Pathfinding::new(path));
                proof {
                    assert forall|w: int| 0 <= w < old(world).workers@.len() implies routed_by(
                        #[trigger] world.workers@[w],
                        old(world).workers@[w],
                        w,
                        requests@,
                        old(world).map,
                    ) by {
                        if w == req.entity {
                            assert(requests@[i as int] == req);
                            assert(is_route(old(world).map, path@, req.from, req.to));
                            assert(answers(world.workers@[w].path, requests@[i as int], old(world).map));
                        } else {
                            assert(world.workers@[w] == before[w]);
                        }
                    }
                }
            }
        }
        proof {
            assert(requests@[i as int] == req);
            assert(path_step(w0, world.workers@, c0, world.cache, world.map, requests@[i as int], r));
            let ws2 = ws.push(world.workers@);
            let cs2 = cs.push(world.cache);
            let rs2 = rs.push(r);
            assert forall|k: int| 0 <= k < i + 1 implies #[trigger] path_step(ws2[k], ws2[k + 1], cs2[k], cs2[k + 1], world.map, requests@[k], rs2[k]) by {
                if k < i {
                    assert(ws2[k] == ws[k] && ws2[k + 1] == ws[k + 1] && cs2[k] == cs[k] && cs2[k + 1] == cs[k + 1] && rs2[k] == rs[k]);
                }
            }
            ws = ws2;
            cs = cs2;
            rs = rs2;
        }
        i = i + 1;
    }
    assert(path_chain(ws, cs, rs, old(world).map, requests@));
}

/// A worker after the path stage: the same worker, whose path is either the one it had or a
/// fresh route, from its first waypoint, answering one of the requests made for it.
pub open spec fn routed_by(
    after: WorkerEntity,
    before: WorkerEntity,
    index: int,
    requests: Seq<PathfindingRequestEvent>,
    map: MapData,
) -> bool {
    &&& after.position == before.position
    &&& after.worker == before.worker
    &&& (after.path == before.path || exists|r: int|
        0 <= r < requests.len() && requests[r].entity == index && #[trigger] answers(after.path, requests[r], map))
}

/// `path` is a fresh route for the request.
pub open spec fn answers(path: Option<Pathfinding>, request: PathfindingRequestEvent, map: MapData) -> bool {
    match path {
        Some(p) => p.current_target_index == 0 && !p.recalculate && is_route(map, p.path@, request.from, request.to),
        None => false,
    }
}

/// What `movement_system` guarantees of the world before (`w0`) and after (`w1`) it.
pub open spec fn movement_stage_post(w0: SimulationApp, w1: SimulationApp) -> bool {
    &&& (w1.wf())
    &&& (w1.tick == w0.tick)
    &&& (w1.requests == w0.requests)
    &&& (w1.buildings == w0.buildings)
    &&& (w1.workers@.len() == w0.workers@.len())
    &&& (forall|i: int|
        0 <= i < w0.workers@.len() ==> #[trigger] w1.workers@[i] == after_move(w0.workers@[i]))
    &&& (w1.transfers == w0.transfers)
    &&& (w1.path_requests == w0.path_requests)
    &&& (w1.metrics == w0.metrics)
    &&& (w1.notifications == w0.notifications)
    &&& (w1.map_changed == w0.map_changed)
    &&& (w1.map == w0.map)
    &&& (w1.cache == w0.cache)
    &&& (w1.config == w0.config)
}

/// Movement stage: a worker with an unfinished path steps onto its current waypoint and
/// aims at the next.
pub fn movement_system(world: &mut SimulationApp)
    requires
        old(world).wf(),
    ensures
        movement_stage_post(*old(world), *final(world)),
{
    let mut i: usize = 0;
    while i < world.workers.len()
        invariant
            world.transfers == old(world).transfers,
            world.path_requests == old(world).path_requests,
            world.metrics == old(world).metrics,
            world.notifications == old(world).notifications,
            world.map_changed == old(world).map_changed,
            world.map == old(world).map,
            world.cache == old(world).cache,
            world.config == old(world).config,
            world.wf(),
            world.tick == old(world).tick,
            world.requests == old(world).requests,
            world.buildings == old(world).buildings,
            world.workers@.len() == old(world).workers@.len(),
            i <= world.workers@.len(),
            forall|j: int| 0 <= j < i ==> #[trigger] world.workers@[j] == after_move(old(world).workers@[j]),
            forall|j: int| i <= j < world.workers@.len() ==> #[trigger] world.workers@[j] == old(world).workers@[j],
        decreases world.workers@.len() - i,
    {
        let ghost before = world.workers@;
        let mut slot: Option<Pathfinding> = None;
        std::mem::swap(&mut slot, &mut world.workers[i].path);
        if let Some(mut path) = slot {
            if !path.is_complete() {
                if let Some(target) = path.current_target() {
                    world.workers[i].position = target;
                    path.advance_target();
                }
            }
            world.workers[i].path = Some(path);
        }
        proof {
            assert(world.workers@[i as int] == after_move(old(world).workers@[i as int]));
            assert forall|j: int| 0 <= j < world.workers@.len() && j != i implies #[trigger] world.workers@[j] == before[j] by {}
        }
        i = i + 1;
    }
}

/// A worker after the movement stage: one with an unfinished path steps onto its current
/// waypoint, and the path aims at the next one if there is one.
pub open spec fn after_move(w: WorkerEntity) -> WorkerEntity {
    match w.path {
        Some(p) => if p.current_target_index < p.path@.len() {
            let next = if p.current_target_index + 1 < p.path@.len() {
                (p.current_target_index + 1) as usize
            } else {
                p.current_target_index
            };
            WorkerEntity {
                position: p.path@[p.current_target_index as int],
                path: Some(Pathfinding { current_target_index: next, ..p }),
                ..w
            }
        } else {
            w
        },
        None => w,
    }
}

/// The routes asked for by a run of requests, in order.
pub open spec fn issued(outs: Seq<Option<PathfindingRequestEvent>>) -> Seq<PathfindingRequestEvent>
    decreases outs.len(),
{
    if outs.len() == 0 {
        Seq::empty()
    } else {
        issued(outs.drop_last()) + opt_seq(outs.last())
    }
}

proof fn lemma_issued_push(outs: Seq<Option<PathfindingRequestEvent>>, o: Option<PathfindingRequestEvent>)
    ensures
        issued(outs.push(o)) == issued(outs) + opt_seq(o),
{
    assert(outs.push(o).drop_last() == outs);
}

/// `ws[k]` are the workers before transfer `k` and `outs[k]` the route it asked for, each
/// transfer handed out in turn as `dispatch_transfer` does it.
pub open spec fn dispatch_chain(
    ws: Seq<Seq<WorkerEntity>>,
    outs: Seq<Option<PathfindingRequestEvent>>,
    buildings: Seq<BuildingEntity>,
    transfers: Seq<TransferResourceEvent>,
) -> bool {
    &&& ws.len() == transfers.len() + 1
    &&& outs.len() == transfers.len()
    &&& forall|k: int| 0 <= k < transfers.len() ==> #[trigger] dispatch_post(ws[k], ws[k + 1], buildings, transfers[k], outs[k])
}

/// What `transport_system` guarantees of the world before (`w0`) and after (`w1`) it.
pub open spec fn transport_stage_post(w0: SimulationApp, w1: SimulationApp, transfers: Seq<TransferResourceEvent>, routes0: Seq<PathfindingRequestEvent>, routes1: Seq<PathfindingRequestEvent>) -> bool {
    &&& (w1.wf())
    &&& (w1.tick == w0.tick)
    &&& (w1.requests == w0.requests)
    &&& (w1.buildings == w0.buildings)
    &&& (w1.map == w0.map)
    &&& (w1.cache == w0.cache)
    &&& (w1.workers@.len() == w0.workers@.len())
    &&& (exists|ws: Seq<Seq<WorkerEntity>>,
outs: Seq<Option<PathfindingRequestEvent>>|
        #[trigger] dispatch_chain(ws, outs, w0.buildings@, transfers) && ws[0] == w0.workers@
            && ws.last() == w1.workers@ && routes1 == routes0 + issued(outs))
    &&& (w1.transfers == w0.transfers)
    &&& (w1.path_requests == w0.path_requests)
    &&& (w1.metrics == w0.metrics)
    &&& (w1.notifications == w0.notifications)
    &&& (w1.map_changed == w0.map_changed)
    &&& (w1.config == w0.config)
}

/// Transport stage: the transfers are handed to free workers in turn, as `dispatch_transfer`
/// does it; the routes they need are appended to `routes`, to be searched next step.
pub fn transport_system(world: &mut SimulationApp, transfers: &Vec<TransferResourceEvent>, routes: &mut Vec<PathfindingRequestEvent>)
    requires
        old(world).wf(),
    ensures
        transport_stage_post(*old(world), *final(world), transfers@, old(routes)@, final(routes)@),
{
    let ghost mut ws: Seq<Seq<WorkerEntity>> = seq![world.workers@];
    let ghost mut outs: Seq<Option<PathfindingRequestEvent>> = Seq::empty();
    let mut i: usize = 0;
    while i < transfers.len()
        invariant
            world.transfers == old(world).transfers,
            world.path_requests == old(world).path_requests,
            world.metrics == old(world).metrics,
            world.notifications == old(world).notifications,
            world.map_changed == old(world).map_changed,
            world.config == old(world).config,
            world.wf(),
            world.tick == old(world).tick,
            world.requests == old(world).requests,
            world.buildings == old(world).buildings,
            world.map == old(world).map,
            world.cache == old(world).cache,
            world.workers@.len() == old(world).workers@.len(),
            i <= transfers@.len(),
            ws.len() == i + 1,
            outs.len() == i,
            ws[0] == old(world).workers@,
            ws.last() == world.workers@,
            routes@ == old(routes)@ + issued(outs),
            forall|k: int| 0 <= k < i ==> #[trigger] dispatch_post(ws[k], ws[k + 1], world.buildings@, transfers@[k], outs[k]),
        decreases transfers@.len() - i,
    {
        let ghost w0 = world.workers@;
        let out = dispatch_transfer(&mut world.workers, &world.buildings, &transfers[i]);
        if let Some(r) = out {
            routes.push(r);
        }
        proof {
            lemma_issued_push(outs, out);
            let ws2 = ws.push(world.workers@);
            let outs2 = outs.push(out);
            assert forall|k: int| 0 <= k < i + 1 implies #[trigger] dispatch_post(ws2[k], ws2[k + 1], world.buildings@, transfers@[k], outs2[k]) by {
                if k < i {
                    assert(ws2[k] == ws[k] && ws2[k + 1] == ws[k + 1] && outs2[k] == outs[k]);
                }
            }
            assert(routes@ == old(routes)@ + issued(outs2));
            ws = ws2;
            outs = outs2;
        }
        i = i + 1;
    }
    assert(dispatch_chain(ws, outs, old(world).buildings@, transfers@));
}

/// `ws[k]` are the workers before completion `k` and `outs[k]` the route it asked for, each
/// completion handled in turn as `handle_task_completion` does it.
pub open spec fn completion_chain(
    ws: Seq<Seq<WorkerEntity>>,
    outs: Seq<Option<PathfindingRequestEvent>>,
    buildings: Seq<BuildingEntity>,
    done: Seq<TaskCompletedEvent>,
) -> bool {
    &&& ws.len() == done.len() + 1
    &&& outs.len() == done.len()
    &&& forall|k: int| 0 <= k < done.len() ==> #[trigger] completion_post(ws[k], ws[k + 1], buildings, done[k], outs[k])
}

/// The notifications reporting a run of finished tasks.
pub open spec fn completion_notes(done: Seq<TaskCompletedEvent>) -> Seq<Notification> {
    done.map_values(|c: TaskCompletedEvent| Notification::TaskCompleted(c))
}

/// What `transport_completion_system` guarantees of the world before (`w0`) and after (`w1`) it.
pub open spec fn completion_stage_post(w0: SimulationApp, w1: SimulationApp, done: Seq<TaskCompletedEvent>, routes0: Seq<PathfindingRequestEvent>, routes1: Seq<PathfindingRequestEvent>) -> bool {
    &&& (w1.wf())
    &&& (w1.tick == w0.tick)
    &&& (w1.requests == w0.requests)
    &&& (w1.buildings == w0.buildings)
    &&& (w1.map == w0.map)
    &&& (w1.cache == w0.cache)
    &&& (w1.workers@.len() == w0.workers@.len())
    &&& (w1.notifications@ == w0.notifications@ + completion_notes(done))
    &&& (exists|ws: Seq<Seq<WorkerEntity>>,
outs: Seq<Option<PathfindingRequestEvent>>|
        #[trigger] completion_chain(ws, outs, w0.buildings@, done) && ws[0] == w0.workers@
            && ws.last() == w1.workers@ && routes1 == routes0 + issued(outs))
    &&& (w1.transfers == w0.transfers)
    &&& (w1.path_requests == w0.path_requests)
    &&& (w1.metrics == w0.metrics)
    &&& (w1.map_changed == w0.map_changed)
    &&& (w1.config == w0.config)
}

/// Completion stage: the finished tasks are handled in turn, as `handle_task_completion` does
/// it, and each is reported; the routes asked for are appended to `routes`.
pub fn transport_completion_system(world: &mut SimulationApp, done: &Vec<TaskCompletedEvent>, routes: &mut Vec<PathfindingRequestEvent>)
    requires
        old(world).wf(),
    ensures
        completion_stage_post(*old(world), *final(world), done@, old(routes)@, final(routes)@),
{
    let ghost mut ws: Seq<Seq<WorkerEntity>> = seq![world.workers@];
    let ghost mut outs: Seq<Option<PathfindingRequestEvent>> = Seq::empty();
    let mut i: usize = 0;
    while i < done.len()
        invariant
            world.transfers == old(world).transfers,
            world.path_requests == old(world).path_requests,
            world.metrics == old(world).metrics,
            world.map_changed == old(world).map_changed,
            world.config == old(world).config,
            world.wf(),
            world.tick == old(world).tick,
            world.requests == old(world).requests,
            world.buildings == old(world).buildings,
            world.map == old(world).map,
            world.cache == old(world).cache,
            world.workers@.len() == old(world).workers@.len(),
            i <= done@.len(),
            ws.len() == i + 1,
            outs.len() == i,
            ws[0] == old(world).workers@,
            ws.last() == world.workers@,
            routes@ == old(routes)@ + issued(outs),
            world.notifications@ == old(world).notifications@ + completion_notes(done@.subrange(0, i as int)),
            forall|k: int| 0 <= k < i ==> #[trigger] completion_post(ws[k], ws[k + 1], world.buildings@, done@[k], outs[k]),
        decreases done@.len() - i,
    {
        let ghost w0 = world.workers@;
        let out = handle_task_completion(&mut world.workers, &world.buildings, done[i]);
        if let Some(r) = out {
            routes.push(r);
        }
        let c = done[i];
        world.notifications.push(Notification::TaskCompleted(c));
        proof {
            lemma_issued_push(outs, out);
            assert(completion_notes(done@.subrange(0, i as int + 1)) == completion_notes(done@.subrange(0, i as int)).push(
                Notification::TaskCompleted(c),
            ));
            let ws2 = ws.push(world.workers@);
            let outs2 = outs.push(out);
            assert forall|k: int| 0 <= k < i + 1 implies #[trigger] completion_post(ws2[k], ws2[k + 1], world.buildings@, done@[k], outs2[k]) by {
                if k < i {
                    assert(ws2[k] == ws[k] && ws2[k + 1] == ws[k + 1] && outs2[k] == outs[k]);
                }
            }
            assert(routes@ == old(routes)@ + issued(outs2));
            ws = ws2;
            outs = outs2;
        }
        i = i + 1;
    }
    assert(done@.subrange(0, i as int) == done@);
    assert(completion_chain(ws, outs, old(world).buildings@, done@));
}

} // verus!
