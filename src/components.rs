use crate::stockpile::Stockpile;
use vstd::prelude::*;

verus! {

/// A cell coordinate on the tile grid.
#[derive(Clone, Copy, Debug, PartialEq, Eq, Hash, Structural)]
pub struct Position {
    pub x: i32,
    pub y: i32,
}

/// Squared Euclidean distance between two grid cells.
pub open spec fn dist_sq(a: Position, b: Position) -> nat {
    let dx = a.x - b.x;
    let dy = a.y - b.y;
    (dx * dx + dy * dy) as nat
}

/// `r` is the Euclidean distance rounded down, for a squared distance `n`.
pub open spec fn is_floor_sqrt(n: nat, r: nat) -> bool {
    r * r <= n && n < (r + 1) * (r + 1)
}

/// Integer square root, rounded down.
fn floor_sqrt(n: u128) -> (r: u64)
    requires
        n < 0x4_0000_0000_0000_0000u128,
    ensures
        is_floor_sqrt(n as nat, r as nat),
{
    // invariant: lo * lo <= n < hi * hi
    let mut lo: u128 = 0;
    let mut hi: u128 = 0x3_0000_0000u128;
    assert(hi * hi > n) by (nonlinear_arith)
        requires
            hi == 0x3_0000_0000u128,
            n < 0x4_0000_0000_0000_0000u128,
    ;
    while hi - lo > 1
        invariant
            lo < hi <= 0x3_0000_0000u128,
            lo * lo <= n,
            n < hi * hi,
        decreases hi - lo,
    {
        let mid: u128 = lo + (hi - lo) / 2;
        assert(mid * mid <= 0x3_0000_0000u128 * 0x3_0000_0000u128) by (nonlinear_arith)
            requires
                mid < 0x3_0000_0000u128,
        ;
        if mid * mid <= n {
            lo = mid;
        } else {
            hi = mid;
        }
    }
    assert(hi == lo + 1);
    lo as u64
}

impl Position {
    pub fn new(x: i32, y: i32) -> (r: Self)
        ensures
            r == (Position { x, y }),
    {
        Position { x, y }
    }

    /// Euclidean distance to `other`, rounded down to whole tiles.
    pub fn distance_to(&self, other: &Position) -> (r: u64)
        ensures
            is_floor_sqrt(dist_sq(*self, *other), r as nat),
    {
        let dx: i64 = self.x as i64 - other.x as i64;
        let dy: i64 = self.y as i64 - other.y as i64;
        let ax: u128 = if dx < 0 { (-dx) as u128 } else { dx as u128 };
        let ay: u128 = if dy < 0 { (-dy) as u128 } else { dy as u128 };
        assert(ax * ax <= 0x1_0000_0000u128 * 0x1_0000_0000u128) by (nonlinear_arith)
            requires
                ax <= 0x1_0000_0000u128,
        ;
        assert(ay * ay <= 0x1_0000_0000u128 * 0x1_0000_0000u128) by (nonlinear_arith)
            requires
                ay <= 0x1_0000_0000u128,
        ;
        let n: u128 = ax * ax + ay * ay;
        assert(n == dist_sq(*self, *other)) by (nonlinear_arith)
            requires
                ax == (if dx < 0 { -dx } else { dx as int }),
                ay == (if dy < 0 { -dy } else { dy as int }),
                dx == self.x - other.x,
                dy == self.y - other.y,
                n == ax * ax + ay * ay,
        ;
        floor_sqrt(n)
    }
}

/// Marks an entity that blocks movement.
#[derive(Clone, Copy, Debug, PartialEq, Eq, Structural)]
pub struct Blocked;

/// A road segment; its cost is in hundredths of a tile step.
#[derive(Clone, Copy, Debug, PartialEq, Eq, Structural)]
pub struct Road {
    pub movement_cost: u32,
}

impl Default for Road {
    fn default() -> (r: Self)
        ensures
            r.movement_cost == 50,
    {
        Road { movement_cost: 50 }
    }
}

/// Terrain of a tile.
#[derive(Clone, Copy, Debug, PartialEq, Eq, Structural)]
pub enum TileType {
    Grass,
    Water,
    Stone,
    Forest,
    Road,
}

/// One cell of the grid.
#[derive(Clone, Copy, Debug, PartialEq, Eq, Structural)]
pub struct Tile {
    pub tile_type: TileType,
    pub elevation: u8,
}

/// Cost of entering a tile of the given terrain, in hundredths of a step; none for water.
pub open spec fn terrain_cost(t: TileType) -> Option<nat> {
    match t {
        TileType::Grass => Some(100),
        TileType::Water => None,
        TileType::Stone => Some(150),
        TileType::Forest => Some(200),
        TileType::Road => Some(50),
    }
}

impl Tile {
    /// Cost of entering this tile, scaled by 100; `None` where it cannot be entered.
    pub fn movement_cost(&self) -> (r: Option<u32>)
        ensures
            r matches Some(c) ==> terrain_cost(self.tile_type) == Some(c as nat),
            r is None <==> terrain_cost(self.tile_type) is None,
    {
        match self.tile_type {
            TileType::Grass => Some(100),
            TileType::Water => None,
            TileType::Stone => Some(150),
            TileType::Forest => Some(200),
            TileType::Road => Some(50),
        }
    }

    pub fn is_passable(&self) -> (r: bool)
        ensures
            r == (self.tile_type != TileType::Water),
    {
        match self.tile_type {
            TileType::Water => false,
            _ => true,
        }
    }
}

/// A placed building. Construction progress counts the ticks of work done so far; the building
/// is finished once that count reaches the number of ticks its construction takes.
#[derive(Clone, Debug)]
pub struct Building {
    pub building_type: String,
    pub construction_progress: u64,
    pub is_constructed: bool,
    pub worker_capacity: u32,
    pub assigned_workers: u32,
}

impl Building {
    pub fn new(building_type: String, worker_capacity: u32) -> (r: Self)
        ensures
            r.building_type@ == building_type@,
            r.construction_progress == 0,
            !r.is_constructed,
            r.worker_capacity == worker_capacity,
            r.assigned_workers == 0,
    {
        Building { building_type, construction_progress: 0, is_constructed: false, worker_capacity, assigned_workers: 0 }
    }
}

/// Production state of a building. Progress counts work units; a run of a recipe is complete
/// once the count reaches the units that recipe needs.
#[derive(Clone, Debug)]
pub struct Producer {
    pub recipe_id: String,
    pub production_progress: u128,
    pub is_producing: bool,
    pub production_queue: Vec<String>,
}

impl Producer {
    pub fn new(recipe_id: String) -> (r: Self)
        ensures
            r.recipe_id@ == recipe_id@,
            r.production_progress == 0,
            !r.is_producing,
            r.production_queue@.len() == 0,
    {
        Producer { recipe_id, production_progress: 0, is_producing: false, production_queue: Vec::new() }
    }
}

/// Why a worker is walking somewhere.
#[derive(Clone, Debug)]
pub enum TaskPurpose {
    GoToWork,
    PickupResource { item: String, amount: u32 },
    DeliverResource { item: String, amount: u32 },
    Construction,
}

/// What a worker is doing. `Working` progress counts ticks spent at the building.
#[derive(Clone, Debug)]
pub enum WorkerTask {
    Idle,
    MovingTo { target: Position, purpose: TaskPurpose },
    Working { building: usize, progress: u64 },
    Carrying { from: Position, to: Position, item: String, amount: u32 },
}

/// Relies on uuid::Uuid::new_v4 and Uuid::as_u128: a random identifier, of which nothing is known.
#[verifier::external_body]
fn fresh_worker_id() -> u128 {
    uuid::Uuid::new_v4().as_u128()
}

/// A worker unit. Its assigned building is an index into the simulation's buildings, and its
/// speed is in hundredths of a tile per tick.
#[derive(Clone, Debug)]
pub struct Worker {
    pub id: u128,
    pub worker_type: String,
    pub assigned_building: Option<usize>,
    pub current_task: WorkerTask,
    pub carrying: Option<(String, u32)>,
    pub movement_speed: u32,
}

impl Worker {
    pub fn new(worker_type: String) -> (r: Self)
        ensures
            r.worker_type@ == worker_type@,
            r.assigned_building is None,
            r.current_task is Idle,
            r.carrying is None,
            r.movement_speed == 100,
    {
        Worker {
            id: fresh_worker_id(),
            worker_type,
            assigned_building: None,
            current_task: WorkerTask::Idle,
            carrying: None,
            movement_speed: 100,
        }
    }
}

/// A path being followed, one waypoint per tick.
#[derive(Clone, Debug)]
pub struct Pathfinding {
    pub path: Vec<Position>,
    pub current_target_index: usize,
    pub recalculate: bool,
}

impl Pathfinding {
    pub fn new(path: Vec<Position>) -> (r: Self)
        ensures
            r.path@ == path@,
            r.current_target_index == 0,
            !r.recalculate,
    {
        Pathfinding { path, current_target_index: 0, recalculate: false }
    }

    pub fn current_target(&self) -> (r: Option<Position>)
        ensures
            r == (if self.current_target_index < self.path@.len() {
                Some(self.path@[self.current_target_index as int])
            } else {
                None
            }),
    {
        if self.current_target_index < self.path.len() {
            Some(self.path[self.current_target_index])
        } else {
            None
        }
    }

    /// Moves to the next waypoint; false, with nothing changed, at the last one.
    pub fn advance_target(&mut self) -> (r: bool)
        ensures
            r == (old(self).current_target_index + 1 < old(self).path@.len()),
            final(self).path == old(self).path,
            final(self).recalculate == old(self).recalculate,
            final(self).current_target_index == if r {
                old(self).current_target_index + 1
            } else {
                old(self).current_target_index as int
            },
    {
        if self.current_target_index < self.path.len() && self.current_target_index + 1 < self.path.len() {
            self.current_target_index = self.current_target_index + 1;
            true
        } else {
            false
        }
    }

    pub fn is_complete(&self) -> (r: bool)
        ensures
            r == (self.current_target_index >= self.path@.len()),
    {
        self.current_target_index >= self.path.len()
    }
}

/// A building entity: where it stands, its state, its storage and its production, if any.
#[derive(Clone, Debug)]
pub struct BuildingEntity {
    pub position: Position,
    pub building: Building,
    pub stockpile: Stockpile,
    pub producer: Option<Producer>,
}

/// A worker entity: where it stands, its state, and the path it follows, if any.
#[derive(Clone, Debug)]
pub struct WorkerEntity {
    pub position: Position,
    pub worker: Worker,
    pub path: Option<Pathfinding>,
}

} // verus!
