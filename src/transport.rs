use crate::components::{BuildingEntity, TaskPurpose, WorkerEntity, WorkerTask};
use crate::events::{PathfindingPriority, PathfindingRequestEvent, TaskCompletedEvent, TaskKind, TransferResourceEvent};
use crate::resources::GameTick;
use vstd::prelude::*;

verus! {

/// Seconds of game time between two automatic distribution passes.
pub const DISTRIBUTION_PERIOD_SECONDS: u32 = 5;

/// A stockpile holding more than this of an item has a surplus of it.
pub const SURPLUS_THRESHOLD: u32 = 10;

/// A stockpile holding less than this of an item lacks it.
pub const DEFICIT_THRESHOLD: u32 = 5;

/// Largest quantity one automatic transfer moves.
pub const MAX_AUTO_TRANSFER: u32 = 5;

pub open spec fn is_free(w: WorkerEntity) -> bool {
    w.worker.current_task is Idle && w.worker.carrying is None
}

/// The first worker that is idle and carries nothing.
pub open spec fn first_free(workers: Seq<WorkerEntity>) -> Option<int> {
    if exists|i: int| 0 <= i < workers.len() && is_free(workers[i]) {
        Some(choose|i: int| 0 <= i < workers.len() && is_free(workers[i]) && forall|j: int| 0 <= j < i ==> !is_free(workers[j]))
    } else {
        None
    }
}

proof fn lemma_first_free(workers: Seq<WorkerEntity>, i: int)
    requires
        0 <= i < workers.len(),
        is_free(workers[i]),
        forall|j: int| 0 <= j < i ==> !is_free(workers[j]),
    ensures
        first_free(workers) == Some(i),
{
    let k = choose|k: int| 0 <= k < workers.len() && is_free(workers[k]) && forall|j: int| 0 <= j < k ==> !is_free(workers[j]);
    assert(k == i) by {
        if k < i {
        } else if k > i {
        }
    }
}

/// Whether a transfer request can be carried out: both buildings exist and the source holds
/// the quantity asked for.
pub open spec fn transfer_valid(buildings: Seq<BuildingEntity>, event: TransferResourceEvent) -> bool {
    &&& event.from < buildings.len()
    &&& event.to < buildings.len()
    &&& buildings[event.from as int].stockpile.count(event.resource@) >= event.amount
}

/// What handing a transfer to a worker does: the workers before (`w0`) and after (`w1`) and the
/// route asked for (`r`).
pub open spec fn dispatch_post(w0: Seq<WorkerEntity>, w1: Seq<WorkerEntity>, buildings: Seq<BuildingEntity>, event: TransferResourceEvent, r: Option<PathfindingRequestEvent>) -> bool {
    &&& (w1.len() == w0.len()
    )
    &&& (match first_free(w0) {
            Some(i) if transfer_valid(buildings, event) => {
                let source = buildings[event.from as int].position;
                &&& r == Some(
                    PathfindingRequestEvent {
                        entity: i as usize,
                        from: w0[i].position,
                        to: source,
                        priority: PathfindingPriority::Normal,
                    },
                )
                &&& forall|j: int| 0 <= j < w0.len() && j != i ==> w1[j] == w0[j]
                &&& w1[i].position == w0[i].position
                &&& w1[i].path == w0[i].path
                &&& w1[i].worker.assigned_building == w0[i].worker.assigned_building
                &&& w1[i].worker.carrying == w0[i].worker.carrying
                &&& w1[i].worker.id == w0[i].worker.id
                &&& w1[i].worker.worker_type == w0[i].worker.worker_type
                &&& w1[i].worker.movement_speed == w0[i].worker.movement_speed
                &&& w1[i].worker.current_task == (WorkerTask::MovingTo {
                    target: source,
                    purpose: TaskPurpose::PickupResource { item: event.resource, amount: event.amount },
                })
            },
            _ => r is None && w1 == w0,
        }
    )
}

/// Hands a transfer to the first free worker, sending it to the source to pick the goods up.
/// Returns the route the worker needs. Nothing changes when no worker is free or the request
/// is not valid.
pub fn dispatch_transfer(workers: &mut Vec<WorkerEntity>, buildings: &Vec<BuildingEntity>, event: &TransferResourceEvent) -> (r: Option<PathfindingRequestEvent>)
    requires
        forall|i: int| 0 <= i < buildings@.len() ==> (#[trigger] buildings@[i]).stockpile.wf(),
    ensures
        dispatch_post(old(workers)@, final(workers)@, buildings@, *event, r),
{
    let mut i: usize = 0;
    while i < workers.len()
        invariant
            i <= workers@.len(),
            workers@ == old(workers)@,
            forall|j: int| 0 <= j < buildings@.len() ==> (#[trigger] buildings@[j]).stockpile.wf(),
            forall|j: int| 0 <= j < i ==> !is_free(workers@[j]),
        decreases workers@.len() - i,
    {
        let free = match workers[i].worker.current_task {
            WorkerTask::Idle => workers[i].worker.carrying.is_none(),
            _ => false,
        };
        if free {
            proof { lemma_first_free(workers@, i as int); }
            if event.from >= buildings.len() || event.to >= buildings.len() {
                return None;
            }
            assert(buildings@[event.from as int].stockpile.wf());
            if buildings[event.from].stockpile.get_item_count(event.resource.as_str()) < event.amount {
                return None;
            }
            let source = buildings[event.from].position;
            let from = workers[i].position;
            workers[i].worker.current_task = WorkerTask::MovingTo {
                target: source,
                purpose: TaskPurpose::PickupResource { item: event.resource.clone(), amount: event.amount },
            };
            return Some(PathfindingRequestEvent { entity: i, from, to: source, priority: PathfindingPriority::Normal });
        }
        i = i + 1;
    }
    None
}

/// A stockpile that can take some of `item` in a distribution pass: it lacks the item and has
/// room.
pub open spec fn wants(b: BuildingEntity, item: Seq<char>) -> bool {
    b.stockpile.count(item) < DEFICIT_THRESHOLD && b.stockpile.space() > 0
}

pub open spec fn eligible(buildings: Seq<BuildingEntity>, source: int, item: Seq<char>, d: int) -> bool {
    0 <= d < buildings.len() && d != source && wants(buildings[d], item)
}

/// The first building other than `source` that wants `item`.
pub open spec fn first_taker(buildings: Seq<BuildingEntity>, source: int, item: Seq<char>) -> Option<int> {
    if exists|d: int| eligible(buildings, source, item, d) {
        Some(choose|d: int| eligible(buildings, source, item, d) && forall|e: int| 0 <= e < d ==> !eligible(buildings, source, item, e))
    } else {
        None
    }
}

proof fn lemma_first_taker(buildings: Seq<BuildingEntity>, source: int, item: Seq<char>, d: int)
    requires
        eligible(buildings, source, item, d),
        forall|e: int| 0 <= e < d ==> !eligible(buildings, source, item, e),
    ensures
        first_taker(buildings, source, item) == Some(d),
{
    let k = choose|k: int| eligible(buildings, source, item, k) && forall|e: int| 0 <= e < k ==> !eligible(buildings, source, item, e);
    assert(k == d) by {
        if k < d {
        } else if k > d {
        }
    }
}

pub open spec fn min3(a: nat, b: nat, c: nat) -> nat {
    let m = if a <= b { a } else { b };
    if m <= c { m } else { c }
}

/// The transfer planned for entry `e` of the stockpile of building `s`, if any: a surplus goes
/// to the first building that wants it, at most five units and no more than fits there.
pub open spec fn planned(buildings: Seq<BuildingEntity>, s: int, e: int) -> Option<TransferResourceEvent> {
    let (item, amount) = buildings[s].stockpile.items@[e];
    if amount > SURPLUS_THRESHOLD {
        match first_taker(buildings, s, item@) {
            Some(d) => Some(
                TransferResourceEvent {
                    from: s as usize,
                    to: d as usize,
                    resource: item,
                    amount: min3((amount - SURPLUS_THRESHOLD) as nat, MAX_AUTO_TRANSFER as nat, buildings[d].stockpile.space()) as u32,
                },
            ),
            None => None,
        }
    } else {
        None
    }
}

pub open spec fn opt_seq<T>(o: Option<T>) -> Seq<T> {
    match o {
        Some(t) => seq![t],
        None => Seq::empty(),
    }
}

/// Transfers planned for the first `n` entries of building `s`'s stockpile.
pub open spec fn plan_entries(buildings: Seq<BuildingEntity>, s: int, n: int) -> Seq<TransferResourceEvent>
    decreases n,
{
    if n <= 0 {
        Seq::empty()
    } else {
        plan_entries(buildings, s, n - 1) + opt_seq(planned(buildings, s, n - 1))
    }
}

/// Transfers planned for the first `m` buildings, in building order, then entry order.
pub open spec fn plan_buildings(buildings: Seq<BuildingEntity>, m: int) -> Seq<TransferResourceEvent>
    decreases m,
{
    if m <= 0 {
        Seq::empty()
    } else {
        plan_buildings(buildings, m - 1) + plan_entries(buildings, m - 1, buildings[m - 1].stockpile.items@.len() as int)
    }
}

/// Index of the first building that takes `buildings[s]`'s entry `e` in a distribution pass.
fn first_taker_index(buildings: &Vec<BuildingEntity>, s: usize, e: usize) -> (r: Option<usize>)
    requires
        s < buildings@.len(),
        e < buildings@[s as int].stockpile.items@.len(),
        forall|i: int| 0 <= i < buildings@.len() ==> (#[trigger] buildings@[i]).stockpile.wf(),
    ensures
        r matches Some(d) ==> first_taker(buildings@, s as int, buildings@[s as int].stockpile.items@[e as int].0@)
            == Some(d as int) && d < buildings@.len(),
        r is None ==> first_taker(buildings@, s as int, buildings@[s as int].stockpile.items@[e as int].0@) is None,
{
    let ghost item = buildings@[s as int].stockpile.items@[e as int].0@;
    let mut d: usize = 0;
    while d < buildings.len()
        invariant
            s < buildings@.len(),
            e < buildings@[s as int].stockpile.items@.len(),
            item == buildings@[s as int].stockpile.items@[e as int].0@,
            d <= buildings@.len(),
            forall|i: int| 0 <= i < buildings@.len() ==> (#[trigger] buildings@[i]).stockpile.wf(),
            forall|f: int| 0 <= f < d ==> !eligible(buildings@, s as int, item, f),
        decreases buildings@.len() - d,
    {
        if d != s {
            let have = buildings[d].stockpile.get_item_count(buildings[s].stockpile.items[e].0.as_str());
            let space = buildings[d].stockpile.available_space();
            if have < DEFICIT_THRESHOLD && space > 0 {
                proof { lemma_first_taker(buildings@, s as int, item, d as int); }
                return Some(d);
            }
        }
        d = d + 1;
    }
    None
}

/// The transfer planned for entry `e` of building `s`'s stockpile.
fn plan_entry(buildings: &Vec<BuildingEntity>, s: usize, e: usize) -> (r: Option<TransferResourceEvent>)
    requires
        s < buildings@.len(),
        e < buildings@[s as int].stockpile.items@.len(),
        forall|i: int| 0 <= i < buildings@.len() ==> (#[trigger] buildings@[i]).stockpile.wf(),
    ensures
        r == planned(buildings@, s as int, e as int),
{
    let amount = buildings[s].stockpile.items[e].1;
    if amount > SURPLUS_THRESHOLD {
        if let Some(d) = first_taker_index(buildings, s, e) {
            assert(buildings@[d as int].stockpile.wf());
            let space = buildings[d].stockpile.available_space();
            let surplus = amount - SURPLUS_THRESHOLD;
            let capped = if surplus < MAX_AUTO_TRANSFER { surplus } else { MAX_AUTO_TRANSFER };
            let transfer_amount = if capped < space { capped } else { space };
            return Some(
                TransferResourceEvent {
                    from: s,
                    to: d,
                    resource: buildings[s].stockpile.items[e].0.clone(),
                    amount: transfer_amount,
                },
            );
        }
    }
    None
}

/// Whether a distribution pass runs on this tick: every five seconds of game time.
pub open spec fn distribution_due(tick: GameTick) -> bool {
    tick.current as nat % (tick.target_tps as nat * DISTRIBUTION_PERIOD_SECONDS as nat) == 0
}

/// The automatic distribution pass: on the ticks it is due, plans the transfers described by
/// `plan_buildings`; on other ticks, none.
pub fn resource_distribution_system(buildings: &Vec<BuildingEntity>, tick: &GameTick) -> (r: Vec<TransferResourceEvent>)
    requires
        tick.target_tps > 0,
        forall|i: int| 0 <= i < buildings@.len() ==> (#[trigger] buildings@[i]).stockpile.wf(),
    ensures
        r@ == if distribution_due(*tick) {
            plan_buildings(buildings@, buildings@.len() as int)
        } else {
            Seq::empty()
        },
{
    let period: u64 = tick.target_tps as u64 * DISTRIBUTION_PERIOD_SECONDS as u64;
    let mut out: Vec<TransferResourceEvent> = Vec::new();
    if tick.current % period != 0 {
        return out;
    }
    let mut s: usize = 0;
    while s < buildings.len()
        invariant
            s <= buildings@.len(),
            forall|i: int| 0 <= i < buildings@.len() ==> (#[trigger] buildings@[i]).stockpile.wf(),
            out@ == plan_buildings(buildings@, s as int),
        decreases buildings@.len() - s,
    {
        let mut e: usize = 0;
        let n = buildings[s].stockpile.items.len();
        while e < n
            invariant
                s < buildings@.len(),
                n == buildings@[s as int].stockpile.items@.len(),
                e <= n,
                forall|i: int| 0 <= i < buildings@.len() ==> (#[trigger] buildings@[i]).stockpile.wf(),
                out@ == plan_buildings(buildings@, s as int) + plan_entries(buildings@, s as int, e as int),
            decreases n - e,
        {
            let planned_here = plan_entry(buildings, s, e);
            if let Some(t) = planned_here {
                out.push(t);
            }
            proof {
                assert(plan_entries(buildings@, s as int, e as int + 1) == plan_entries(buildings@, s as int, e as int)
                    + opt_seq(planned(buildings@, s as int, e as int)));
            }
            e = e + 1;
        }
        proof {
            assert(plan_buildings(buildings@, s as int + 1) == plan_buildings(buildings@, s as int) + plan_entries(
                buildings@,
                s as int,
                n as int,
            ));
        }
        s = s + 1;
    }
    out
}

/// The first building whose stockpile has room for `amount`.
pub open spec fn first_with_room(buildings: Seq<BuildingEntity>, amount: u32) -> Option<int> {
    if exists|d: int| 0 <= d < buildings.len() && buildings[d].stockpile.space() >= amount {
        Some(
            choose|d: int|
                0 <= d < buildings.len() && buildings[d].stockpile.space() >= amount && forall|e: int|
                    0 <= e < d ==> buildings[e].stockpile.space() < amount,
        )
    } else {
        None
    }
}

proof fn lemma_first_with_room(buildings: Seq<BuildingEntity>, amount: u32, d: int)
    requires
        0 <= d < buildings.len(),
        buildings[d].stockpile.space() >= amount,
        forall|e: int| 0 <= e < d ==> buildings[e].stockpile.space() < amount,
    ensures
        first_with_room(buildings, amount) == Some(d),
{
    let k = choose|k: int|
        0 <= k < buildings.len() && buildings[k].stockpile.space() >= amount && forall|e: int|
            0 <= e < k ==> buildings[e].stockpile.space() < amount;
    assert(k == d) by {
        if k < d {
        } else if k > d {
        }
    }
}

/// What reacting to a finished task does: the workers before (`w0`) and after (`w1`) and the
/// route asked for (`r`).
pub open spec fn completion_post(w0: Seq<WorkerEntity>, w1: Seq<WorkerEntity>, buildings: Seq<BuildingEntity>, event: TaskCompletedEvent, r: Option<PathfindingRequestEvent>) -> bool {
    &&& (w1.len() == w0.len()
    )
    &&& (({
            let w = event.worker as int;
            if event.task_type == TaskKind::Pickup && w < w0.len() && w0[w].worker.carrying is Some
                && first_with_room(buildings, w0[w].worker.carrying.unwrap().1) is Some {
                let (item, amount) = w0[w].worker.carrying.unwrap();
                let d = first_with_room(buildings, amount).unwrap();
                let here = w0[w].position;
                &&& r == Some(
                    PathfindingRequestEvent {
                        entity: event.worker,
                        from: here,
                        to: buildings[d].position,
                        priority: PathfindingPriority::Normal,
                    },
                )
                &&& forall|j: int| 0 <= j < w0.len() && j != w ==> w1[j] == w0[j]
                &&& w1[w].position == here
                &&& w1[w].path == w0[w].path
                &&& w1[w].worker.assigned_building == w0[w].worker.assigned_building
                &&& w1[w].worker.carrying == w0[w].worker.carrying
                &&& w1[w].worker.id == w0[w].worker.id
                &&& w1[w].worker.worker_type == w0[w].worker.worker_type
                &&& w1[w].worker.movement_speed == w0[w].worker.movement_speed
                &&& w1[w].worker.current_task == (WorkerTask::Carrying {
                    from: here,
                    to: buildings[d].position,
                    item,
                    amount,
                })
            } else {
                r is None && w1 == w0
            }
        })
    )
}

/// Reacts to a finished task: after a pickup, the worker carries its cargo toward the first
/// stockpile with room for it, and the route it needs is returned. Other completions, and a
/// pickup with nowhere to go, change nothing.
pub fn handle_task_completion(workers: &mut Vec<WorkerEntity>, buildings: &Vec<BuildingEntity>, event: TaskCompletedEvent) -> (r: Option<PathfindingRequestEvent>)
    requires
        forall|i: int| 0 <= i < buildings@.len() ==> (#[trigger] buildings@[i]).stockpile.wf(),
    ensures
        completion_post(old(workers)@, final(workers)@, buildings@, event, r),
{
    if event.task_type != TaskKind::Pickup || event.worker >= workers.len() {
        return None;
    }
    let (item, amount) = match &workers[event.worker].worker.carrying {
        Some(c) => (c.0.clone(), c.1),
        None => {
            return None;
        },
    };
    let mut d: usize = 0;
    while d < buildings.len()
        invariant
            d <= buildings@.len(),
            workers@ == old(workers)@,
            event.worker < workers@.len(),
            event.task_type == TaskKind::Pickup,
            old(workers)@[event.worker as int].worker.carrying == Some((item, amount)),
            forall|i: int| 0 <= i < buildings@.len() ==> (#[trigger] buildings@[i]).stockpile.wf(),
            forall|e: int| 0 <= e < d ==> buildings@[e].stockpile.space() < amount,
        decreases buildings@.len() - d,
    {
        if buildings[d].stockpile.available_space() >= amount {
            proof { lemma_first_with_room(buildings@, amount, d as int); }
            let here = workers[event.worker].position;
            let to = buildings[d].position;
            workers[event.worker].worker.current_task = WorkerTask::Carrying { from: here, to, item, amount };
            return Some(PathfindingRequestEvent { entity: event.worker, from: here, to, priority: PathfindingPriority::Normal });
        }
        d = d + 1;
    }
    None
}

} // verus!
