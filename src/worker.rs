use crate::components::{dist_sq, BuildingEntity, Position, TaskPurpose, Worker, WorkerEntity, WorkerTask};
use crate::events::{AssignWorkerEvent, PathfindingPriority, PathfindingRequestEvent, TaskCompletedEvent, TaskKind};
use vstd::prelude::*;

verus! {

/// Seconds of work a worker spends at its building before the work task completes.
pub const WORK_SECONDS: u32 = 10;

/// The worker's assigned building, when that building exists and is finished.
pub open spec fn workplace(w: WorkerEntity, buildings: Seq<BuildingEntity>) -> Option<int> {
    match w.worker.assigned_building {
        Some(b) => if b < buildings.len() && buildings[b as int].building.is_constructed {
            Some(b as int)
        } else {
            None
        },
        None => None,
    }
}

/// The task a worker has after one tick of its state machine.
pub open spec fn next_task(w: WorkerEntity, buildings: Seq<BuildingEntity>, work_ticks: u64) -> WorkerTask {
    match w.worker.current_task {
        WorkerTask::Idle => match workplace(w, buildings) {
            Some(b) => WorkerTask::MovingTo { target: buildings[b].position, purpose: TaskPurpose::GoToWork },
            None => WorkerTask::Idle,
        },
        WorkerTask::MovingTo { target, purpose } => if w.position == target {
            match purpose {
                TaskPurpose::GoToWork => match w.worker.assigned_building {
                    Some(b) => WorkerTask::Working { building: b, progress: 0 },
                    None => WorkerTask::Idle,
                },
                _ => WorkerTask::Idle,
            }
        } else {
            w.worker.current_task
        },
        WorkerTask::Working { building, progress } => if progress + 1 >= work_ticks {
            WorkerTask::Idle
        } else {
            WorkerTask::Working { building, progress: (progress + 1) as u64 }
        },
        WorkerTask::Carrying { from, to, item, amount } => if w.position == to {
            WorkerTask::Idle
        } else {
            w.worker.current_task
        },
    }
}

/// The cargo a worker holds after one tick: picked up on arrival for a pickup, dropped on
/// arrival for a delivery or at the end of a carry.
pub open spec fn next_carrying(w: WorkerEntity) -> Option<(String, u32)> {
    match w.worker.current_task {
        WorkerTask::MovingTo { target, purpose } => if w.position == target {
            match purpose {
                TaskPurpose::PickupResource { item, amount } => Some((item, amount)),
                TaskPurpose::DeliverResource { item, amount } => None,
                _ => w.worker.carrying,
            }
        } else {
            w.worker.carrying
        },
        WorkerTask::Carrying { from, to, item, amount } => if w.position == to {
            None
        } else {
            w.worker.carrying
        },
        _ => w.worker.carrying,
    }
}

/// The task completion a tick of the state machine reports, if any.
pub open spec fn completion(w: WorkerEntity, work_ticks: u64) -> Option<TaskKind> {
    match w.worker.current_task {
        WorkerTask::Idle => None,
        WorkerTask::MovingTo { target, purpose } => if w.position == target {
            match purpose {
                TaskPurpose::GoToWork => None,
                TaskPurpose::PickupResource { .. } => Some(TaskKind::Pickup),
                TaskPurpose::DeliverResource { .. } => Some(TaskKind::Delivery),
                TaskPurpose::Construction => Some(TaskKind::Construction),
            }
        } else {
            None
        },
        WorkerTask::Working { building, progress } => if progress + 1 >= work_ticks {
            Some(TaskKind::Work)
        } else {
            None
        },
        WorkerTask::Carrying { from, to, item, amount } => if w.position == to {
            Some(TaskKind::Delivery)
        } else {
            None
        },
    }
}

/// Where an idle worker with a finished workplace asks to be routed.
pub open spec fn route_request(w: WorkerEntity, buildings: Seq<BuildingEntity>) -> Option<Position> {
    match w.worker.current_task {
        WorkerTask::Idle => match workplace(w, buildings) {
            Some(b) => Some(buildings[b].position),
            None => None,
        },
        _ => None,
    }
}

/// What one tick of a worker's state machine asks of the rest of the simulation.
pub struct AiOutcome {
    pub path_request: Option<PathfindingRequestEvent>,
    pub completed: Option<TaskCompletedEvent>,
}

proof fn lemma_within_one_tile(a: Position, b: Position, r: nat)
    requires
        crate::components::is_floor_sqrt(dist_sq(a, b), r),
    ensures
        (r < 1) == (a == b),
{
    let dx: int = a.x - b.x;
    let dy: int = a.y - b.y;
    let n = dist_sq(a, b);
    assert(n == dx * dx + dy * dy) by (nonlinear_arith)
        requires
            n == (dx * dx + dy * dy) as nat,
    ;
    assert(r * r <= n && n < (r + 1) * (r + 1));
    if a != b {
        assert(dx * dx + dy * dy >= 1) by (nonlinear_arith)
            requires
                dx != 0 || dy != 0,
        ;
        assert(r >= 1) by (nonlinear_arith)
            requires
                n >= 1,
                n < (r + 1) * (r + 1),
        ;
    } else {
        assert(dx == 0 && dy == 0);
        assert(n == 0) by (nonlinear_arith)
            requires
                n == dx * dx + dy * dy,
                dx == 0,
                dy == 0,
        ;
        assert(r == 0) by (nonlinear_arith)
            requires
                n == 0,
                r * r <= n,
        ;
    }
}

/// Whether the worker stands within one tile of `target`.
fn arrived(pos: &Position, target: &Position) -> (r: bool)
    ensures
        r == (*pos == *target),
{
    let d = pos.distance_to(target);
    proof { lemma_within_one_tile(*pos, *target, d as nat); }
    d < 1
}

/// One tick of the worker state machine for the worker with index `index`.
pub fn worker_ai(w: &mut WorkerEntity, index: usize, buildings: &Vec<BuildingEntity>, work_ticks: u64) -> (out: AiOutcome)
    ensures
        final(w).position == old(w).position,
        final(w).path == old(w).path,
        final(w).worker.id == old(w).worker.id,
        final(w).worker.worker_type == old(w).worker.worker_type,
        final(w).worker.assigned_building == old(w).worker.assigned_building,
        final(w).worker.movement_speed == old(w).worker.movement_speed,
        final(w).worker.current_task == next_task(*old(w), buildings@, work_ticks),
        final(w).worker.carrying == next_carrying(*old(w)),
        out.completed == (match completion(*old(w), work_ticks) {
            Some(k) => Some(TaskCompletedEvent { worker: index, task_type: k }),
            None => None,
        }),
        out.path_request == (match route_request(*old(w), buildings@) {
            Some(to) => Some(
                PathfindingRequestEvent {
                    entity: index,
                    from: old(w).position,
                    to,
                    priority: PathfindingPriority::Normal,
                },
            ),
            None => None,
        }),
{
    let pos = w.position;
    let mut out = AiOutcome { path_request: None, completed: None };
    let next: Option<WorkerTask> = match &w.worker.current_task {
        WorkerTask::Idle => {
            match w.worker.assigned_building {
                Some(b) => {
                    if b < buildings.len() && buildings[b].building.is_constructed {
                        let target = buildings[b].position;
                        out.path_request = Some(
                            PathfindingRequestEvent {
                                entity: index,
                                from: pos,
                                to: target,
                                priority: PathfindingPriority::Normal,
                            },
                        );
                        Some(WorkerTask::MovingTo { target, purpose: TaskPurpose::GoToWork })
                    } else {
                        None
                    }
                },
                None => None,
            }
        },
        WorkerTask::MovingTo { target, purpose } => {
            if arrived(&pos, target) {
                match purpose {
                    TaskPurpose::GoToWork => {
                        match w.worker.assigned_building {
                            Some(b) => Some(WorkerTask::Working { building: b, progress: 0 }),
                            None => Some(WorkerTask::Idle),
                        }
                    },
                    TaskPurpose::PickupResource { item, amount } => {
                        w.worker.carrying = Some((item.clone(), *amount));
                        out.completed = Some(TaskCompletedEvent { worker: index, task_type: TaskKind::Pickup });
                        Some(WorkerTask::Idle)
                    },
                    TaskPurpose::DeliverResource { .. } => {
                        w.worker.carrying = None;
                        out.completed = Some(TaskCompletedEvent { worker: index, task_type: TaskKind::Delivery });
                        Some(WorkerTask::Idle)
                    },
                    TaskPurpose::Construction => {
                        out.completed = Some(
                            TaskCompletedEvent { worker: index, task_type: TaskKind::Construction },
                        );
                        Some(WorkerTask::Idle)
                    },
                }
            } else {
                None
            }
        },
        WorkerTask::Working { building, progress } => {
            if *progress >= work_ticks || *progress + 1 >= work_ticks {
                out.completed = Some(TaskCompletedEvent { worker: index, task_type: TaskKind::Work });
                Some(WorkerTask::Idle)
            } else {
                Some(WorkerTask::Working { building: *building, progress: *progress + 1 })
            }
        },
        WorkerTask::Carrying { to, .. } => {
            if arrived(&pos, to) {
                w.worker.carrying = None;
                out.completed = Some(TaskCompletedEvent { worker: index, task_type: TaskKind::Delivery });
                Some(WorkerTask::Idle)
            } else {
                None
            }
        },
    };
    if let Some(t) = next {
        w.worker.current_task = t;
    }
    out
}

/// Relations between a building before and after an assignment: only the worker count moves.
pub open spec fn same_but_assigned(a: BuildingEntity, b: BuildingEntity) -> bool {
    &&& a.position == b.position
    &&& a.stockpile == b.stockpile
    &&& a.producer == b.producer
    &&& a.building.building_type == b.building.building_type
    &&& a.building.construction_progress == b.building.construction_progress
    &&& a.building.is_constructed == b.building.is_constructed
    &&& a.building.worker_capacity == b.building.worker_capacity
}

/// Assigns a worker to a building with a free slot, releasing its previous slot. A request
/// naming a missing worker or building, or a full building, changes nothing.

/// Whether an assignment request is carried out: the worker and building exist and the
/// building has a free slot.
pub open spec fn assignment_accepted(ws0: Seq<WorkerEntity>, bs0: Seq<BuildingEntity>, event: AssignWorkerEvent) -> bool {
    event.worker < ws0.len() && event.building < bs0.len() && bs0[event.building as int].building.assigned_workers
        < bs0[event.building as int].building.worker_capacity
}

/// What an assignment request does to the workers and buildings.
pub open spec fn assignment_post(
    ws0: Seq<WorkerEntity>,
    bs0: Seq<BuildingEntity>,
    ws1: Seq<WorkerEntity>,
    bs1: Seq<BuildingEntity>,
    event: AssignWorkerEvent,
) -> bool {
    &&& (!assignment_accepted(ws0, bs0, event) ==> ws1 == ws0 && bs1 == bs0)
    &&& (assignment_accepted(ws0, bs0, event) ==> {
                let w0 = ws0[event.worker as int];
                let w1 = ws1[event.worker as int];
                let prev = w0.worker.assigned_building;
                &&& ws1.len() == ws0.len()
                &&& forall|i: int| 0 <= i < ws0.len() && i != event.worker ==> ws1[i] == ws0[i]
                &&& w1.position == w0.position
                &&& w1.path == w0.path
                &&& w1.worker.id == w0.worker.id
                &&& w1.worker.worker_type == w0.worker.worker_type
                &&& w1.worker.carrying == w0.worker.carrying
                &&& w1.worker.movement_speed == w0.worker.movement_speed
                &&& w1.worker.assigned_building == Some(event.building)
                &&& w1.worker.current_task is Idle
                &&& bs1.len() == bs0.len()
                &&& forall|i: int|
                    0 <= i < bs0.len() ==> same_but_assigned(#[trigger] bs1[i], bs0[i])
                        && bs1[i].building.assigned_workers == bs0[i].building.assigned_workers
                        - (if prev == Some(i as usize) && bs0[i].building.assigned_workers > 0 {
                        1int
                    } else {
                        0
                    }) + (if i == event.building {
                        1int
                    } else {
                        0
                    })
    })
}

pub fn assign_worker(workers: &mut Vec<WorkerEntity>, buildings: &mut Vec<BuildingEntity>, event: AssignWorkerEvent) -> (accepted: bool)
    ensures
        accepted == assignment_accepted(old(workers)@, old(buildings)@, event),
        assignment_post(old(workers)@, old(buildings)@, final(workers)@, final(buildings)@, event),
{
    if event.worker >= workers.len() || event.building >= buildings.len() {
        return false;
    }
    let b = event.building;
    if buildings[b].building.assigned_workers >= buildings[b].building.worker_capacity {
        return false;
    }
    let ghost bs0 = buildings@;
    let prev = workers[event.worker].worker.assigned_building;
    if let Some(ob) = prev {
        if ob < buildings.len() && buildings[ob].building.assigned_workers > 0 {
            buildings[ob].building.assigned_workers = buildings[ob].building.assigned_workers - 1;
        }
    }
    let ghost bs1 = buildings@;
    buildings[b].building.assigned_workers = buildings[b].building.assigned_workers + 1;
    workers[event.worker].worker.assigned_building = Some(b);
    workers[event.worker].worker.current_task = WorkerTask::Idle;
    proof {
        assert forall|i: int| 0 <= i < bs0.len() implies same_but_assigned(#[trigger] buildings@[i], bs0[i])
            && buildings@[i].building.assigned_workers == bs0[i].building.assigned_workers - (if prev == Some(
            i as usize,
        ) && bs0[i].building.assigned_workers > 0 {
            1int
        } else {
            0
        }) + (if i == b {
            1int
        } else {
            0
        }) by {
            assert(bs1[i].building.assigned_workers == bs0[i].building.assigned_workers - (if prev == Some(i as usize)
                && bs0[i].building.assigned_workers > 0 {
                1int
            } else {
                0
            }));
        }
    }
    true
}

/// The five workers a new game starts with, in a row from (10, 10).
pub fn spawn_initial_workers(workers: &mut Vec<WorkerEntity>)
    ensures
        final(workers)@.len() == old(workers)@.len() + 5,
        forall|i: int| 0 <= i < old(workers)@.len() ==> final(workers)@[i] == old(workers)@[i],
        forall|i: int|
            0 <= i < 5 ==> {
                let w = #[trigger] final(workers)@[old(workers)@.len() + i];
                &&& w.position == Position { x: (10 + i) as i32, y: 10 }
                &&& w.worker.current_task is Idle
                &&& w.worker.assigned_building is None
                &&& w.worker.carrying is None
                &&& w.path is None
            },
{
    let ghost n0 = workers@.len();
    let mut i: i32 = 0;
    while i < 5
        invariant
            0 <= i <= 5,
            workers@.len() == n0 + i,
            forall|j: int| 0 <= j < n0 ==> workers@[j] == old(workers)@[j],
            forall|j: int|
                0 <= j < i ==> {
                    let w = #[trigger] workers@[n0 + j];
                    &&& w.position == Position { x: (10 + j) as i32, y: 10 }
                    &&& w.worker.current_task is Idle
                    &&& w.worker.assigned_building is None
                    &&& w.worker.carrying is None
                    &&& w.path is None
                },
        decreases 5 - i,
    {
        let worker = Worker::new(String::from_str("worker"));
        workers.push(WorkerEntity { position: Position::new(10 + i, 10), worker, path: None });
        i = i + 1;
    }
}

} // verus!
