use oldtimes::cache::PathfindingCache;
use oldtimes::events::{AssignWorkerEvent, PlaceBuildingEvent, ReplayEventData};
use oldtimes::map::is_suitable_for_building;
use oldtimes::pathfinding::find_path;
use oldtimes::worker::assign_worker;
use oldtimes::{
    Building, BuildingEntity, MapData, Position, SimulationApp, Stockpile, Tile, TileType, Worker, WorkerEntity,
    WorkerTask,
};

#[test]
fn grass_grid_path_runs_from_origin_to_target() {
    let map = MapData::new(10, 10);
    let mut cache = PathfindingCache::new(100);
    let path = find_path(&mut cache, &map, Position::new(0, 0), Position::new(5, 5)).unwrap();
    assert_eq!(path[0], Position::new(0, 0));
    assert_eq!(*path.last().unwrap(), Position::new(5, 5));
    assert_eq!(path.len(), 6);
}

#[test]
fn lumberjack_finishes_at_tick_six_hundred() {
    let mut sim = SimulationApp::new();
    sim.initialize_demo(MapData::new(64, 64));
    assert_eq!(sim.tick.target_tps, 20);
    sim.send_event(ReplayEventData::PlaceBuilding(PlaceBuildingEvent {
        building_type: "lumberjack".to_string(),
        position: Position::new(20, 20),
    }));
    sim.run_ticks(599);
    assert_eq!(sim.buildings.len(), 1);
    assert_eq!(sim.buildings[0].building.worker_capacity, 2);
    assert!(!sim.buildings[0].building.is_constructed);
    sim.tick();
    assert_eq!(sim.current_tick(), 600);
    assert!(sim.buildings[0].building.is_constructed);
    assert_eq!(sim.buildings[0].building.construction_progress, 600);
}

#[test]
fn stockpile_near_capacity_takes_only_what_fits() {
    let mut stockpile = Stockpile::new(10);
    assert_eq!(stockpile.add_item("wood".to_string(), 8), 8);
    assert_eq!(stockpile.add_item("wood".to_string(), 5), 2);
    assert_eq!(stockpile.get_item_count("wood"), 10);
    assert_eq!(stockpile.add_item("stone".to_string(), 1), 0);
    assert_eq!(stockpile.total_items(), 10);
}

#[test]
fn assignment_to_full_building_changes_nothing() {
    let mut workers = vec![
        WorkerEntity { position: Position::new(0, 0), worker: Worker::new("worker".to_string()), path: None },
        WorkerEntity { position: Position::new(1, 0), worker: Worker::new("worker".to_string()), path: None },
    ];
    let mut buildings = vec![BuildingEntity {
        position: Position::new(5, 5),
        building: Building::new("lumberjack".to_string(), 1),
        stockpile: Stockpile::new(10),
        producer: None,
    }];
    assert!(assign_worker(&mut workers, &mut buildings, AssignWorkerEvent { worker: 0, building: 0 }));
    assert_eq!(buildings[0].building.assigned_workers, 1);
    assert!(!assign_worker(&mut workers, &mut buildings, AssignWorkerEvent { worker: 1, building: 0 }));
    assert_eq!(buildings[0].building.assigned_workers, 1);
    assert_eq!(workers[1].worker.assigned_building, None);
    assert!(matches!(workers[1].worker.current_task, WorkerTask::Idle));
}

#[test]
fn full_building_assignment_in_simulation_keeps_worker_idle() {
    let mut sim = SimulationApp::new();
    sim.initialize_demo(MapData::new(64, 64));
    sim.send_event(ReplayEventData::PlaceBuilding(PlaceBuildingEvent {
        building_type: "lumberjack".to_string(),
        position: Position::new(30, 30),
    }));
    sim.run_ticks(2);
    assert_eq!(sim.workers.len(), 5);
    sim.buildings[0].building.assigned_workers = 2;
    sim.send_event(ReplayEventData::AssignWorker(AssignWorkerEvent { worker: 0, building: 0 }));
    sim.tick();
    assert_eq!(sim.buildings[0].building.assigned_workers, 2);
    assert_eq!(sim.workers[0].worker.assigned_building, None);
    assert!(matches!(sim.workers[0].worker.current_task, WorkerTask::Idle));
}

#[test]
fn test_building_suitability() {
    let mut map = MapData::new(10, 10);
    for y in 0..10 {
        for x in 0..10 {
            map.set_tile(x, y, Tile { tile_type: TileType::Grass, elevation: 100 });
        }
    }
    assert!(is_suitable_for_building(&map, 2, 2, (2, 2)));
    map.set_tile(3, 3, Tile { tile_type: TileType::Water, elevation: 50 });
    assert!(!is_suitable_for_building(&map, 2, 2, (2, 2)));
}

#[test]
fn footprint_off_the_map_or_on_forest_is_unsuitable() {
    let mut map = MapData::new(10, 10);
    assert!(!is_suitable_for_building(&map, 9, 9, (2, 2)));
    assert!(!is_suitable_for_building(&map, -1, 0, (1, 1)));
    map.set_tile(0, 0, Tile { tile_type: TileType::Forest, elevation: 0 });
    assert!(!is_suitable_for_building(&map, 0, 0, (1, 1)));
    map.set_tile(1, 0, Tile { tile_type: TileType::Road, elevation: 0 });
    assert!(is_suitable_for_building(&map, 1, 0, (1, 1)));
}

#[test]
fn placement_on_water_or_off_map_is_refused() {
    let mut sim = SimulationApp::new();
    let mut map = MapData::new(16, 16);
    map.set_tile(5, 5, Tile { tile_type: TileType::Water, elevation: 0 });
    sim.initialize_demo(map);
    for (x, y) in [(4, 4), (15, 15), (8, 8)] {
        sim.send_event(ReplayEventData::PlaceBuilding(PlaceBuildingEvent {
            building_type: "lumberjack".to_string(),
            position: Position::new(x, y),
        }));
    }
    sim.tick();
    assert_eq!(sim.buildings.len(), 1);
    assert_eq!(sim.buildings[0].position, Position::new(8, 8));
}
