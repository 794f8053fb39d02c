use crate::components::Position;
use vstd::prelude::*;

verus! {

/// Request to place a building of a configured type with its origin at `position`.
#[derive(Clone, Debug)]
pub struct PlaceBuildingEvent {
    pub building_type: String,
    pub position: Position,
}

/// Request to assign a worker to a building; both are indices into the simulation.
#[derive(Clone, Copy, Debug, PartialEq, Eq, Structural)]
pub struct AssignWorkerEvent {
    pub worker: usize,
    pub building: usize,
}

/// Request to switch a building's production to a recipe.
#[derive(Clone, Debug)]
pub struct StartProductionEvent {
    pub building: usize,
    pub recipe_id: String,
}

/// Request to move `amount` of `resource` from one building's stockpile to another's.
#[derive(Clone, Debug)]
pub struct TransferResourceEvent {
    pub from: usize,
    pub to: usize,
    pub resource: String,
    pub amount: u32,
}

/// Kind of task a worker finished.
#[derive(Clone, Copy, Debug, PartialEq, Eq, Structural)]
pub enum TaskKind {
    Pickup,
    Delivery,
    Work,
    Construction,
}

impl TaskKind {
    /// The name observers know the kind by.
    pub fn name(&self) -> (r: &'static str)
        ensures
            r@ == match self {
                TaskKind::Pickup => "pickup"@,
                TaskKind::Delivery => "delivery"@,
                TaskKind::Work => "work"@,
                TaskKind::Construction => "construction"@,
            },
    {
        match self {
            TaskKind::Pickup => "pickup",
            TaskKind::Delivery => "delivery",
            TaskKind::Work => "work",
            TaskKind::Construction => "construction",
        }
    }
}

/// A worker finished a task.
#[derive(Clone, Copy, Debug, PartialEq, Eq, Structural)]
pub struct TaskCompletedEvent {
    pub worker: usize,
    pub task_type: TaskKind,
}

#[derive(Clone, Debug)]
pub struct BuildingConstructedEvent {
    pub building: usize,
    pub building_type: String,
    pub position: Position,
}

/// A production run finished; `outputs` holds the quantities actually stored.
#[derive(Clone, Debug)]
pub struct ProductionCompletedEvent {
    pub building: usize,
    pub recipe_id: String,
    pub outputs: Vec<(String, u32)>,
}

#[derive(Clone, Copy, Debug, PartialEq, Eq, Structural)]
pub enum PathfindingPriority {
    Low,
    Normal,
    High,
    Critical,
}

/// Request for a path for a worker.
#[derive(Clone, Copy, Debug, PartialEq, Eq, Structural)]
pub struct PathfindingRequestEvent {
    pub entity: usize,
    pub from: Position,
    pub to: Position,
    pub priority: PathfindingPriority,
}

#[derive(Clone, Copy, Debug, PartialEq, Eq, Structural)]
pub enum MapChangeType {
    BuildingPlaced,
    BuildingRemoved,
    RoadBuilt,
    TerrainChanged,
}

/// The map changed at `position`; cached paths are no longer trusted.
#[derive(Clone, Copy, Debug, PartialEq, Eq, Structural)]
pub struct MapChangedEvent {
    pub position: Position,
    pub change_type: MapChangeType,
}

/// An input request as recorded for replay.
#[derive(Clone, Debug)]
pub enum ReplayEventData {
    PlaceBuilding(PlaceBuildingEvent),
    AssignWorker(AssignWorkerEvent),
    StartProduction(StartProductionEvent),
    TransferResource(TransferResourceEvent),
}

/// A recorded input request and the tick before which it was sent.
#[derive(Clone, Debug)]
pub struct ReplayEvent {
    pub tick: u64,
    pub event_data: ReplayEventData,
}

/// Something the simulation reports to its observers.
#[derive(Clone, Debug)]
pub enum Notification {
    BuildingConstructed(BuildingConstructedEvent),
    ProductionCompleted(ProductionCompletedEvent),
    TaskCompleted(TaskCompletedEvent),
    MapChanged(MapChangedEvent),
}

} // verus!
