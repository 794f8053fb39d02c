//! Deterministic tick-based economy and logistics simulation for a grid city-builder.
pub mod cache;
pub mod components;
pub mod config;
pub mod construction;
pub mod data;
pub mod economy;
pub mod events;
pub mod map;
pub mod pathfinding;
pub mod production;
pub mod replay;
pub mod resources;
pub mod simulation;
pub mod stockpile;
pub mod systems;
pub mod transport;
pub mod worker;

pub use cache::PathfindingCache;
pub use components::{
    Blocked, Building, BuildingEntity, Pathfinding, Position, Producer, Road, TaskPurpose, Tile, TileType, Worker, WorkerEntity, WorkerTask,
};
pub use resources::{GameTick, MapData};
pub use stockpile::Stockpile;
pub use simulation::SimulationApp;
