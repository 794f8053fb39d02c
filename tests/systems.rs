use oldtimes::config::RecipeConfig;
use oldtimes::construction::is_position_occupied;
use oldtimes::events::AssignWorkerEvent;
use oldtimes::pathfinding::find_path;
use oldtimes::production::{has_required_inputs, has_space_for_outputs};
use oldtimes::events::ReplayEventData;
use oldtimes::systems::worker_assignment_system;
use oldtimes::SimulationApp;
use oldtimes::{
    Building, BuildingEntity, MapData, PathfindingCache, Position, Stockpile, Tile, TileType, Worker, WorkerEntity,
};

fn recipe(inputs: Vec<(&str, u32)>, outputs: Vec<(&str, u32)>) -> RecipeConfig {
    RecipeConfig {
        name: "Test Recipe".to_string(),
        production_time: 10,
        inputs: inputs.into_iter().map(|(k, v)| (k.to_string(), v)).collect(),
        outputs: outputs.into_iter().map(|(k, v)| (k.to_string(), v)).collect(),
        required_building: "test".to_string(),
    }
}

#[test]
fn test_position_occupation() {
    let buildings = vec![BuildingEntity {
        position: Position::new(5, 5),
        building: Building::new("test".to_string(), 1),
        stockpile: Stockpile::new(0),
        producer: None,
    }];
    let positions: Vec<Position> = buildings.iter().map(|b| b.position).collect();
    assert_eq!(positions.len(), 1);
    assert_eq!(positions[0], Position::new(5, 5));
    assert!(is_position_occupied(&buildings, Position::new(5, 5), (1, 1)));
    assert!(is_position_occupied(&buildings, Position::new(6, 6), (2, 2)));
    assert!(!is_position_occupied(&buildings, Position::new(7, 5), (2, 2)));
}

#[test]
fn test_pathfinding_simple() {
    let map = MapData::new(10, 10);
    let mut cache = PathfindingCache::new(100);
    let from = Position::new(0, 0);
    let to = Position::new(5, 5);
    let path = find_path(&mut cache, &map, from, to);
    assert!(path.is_some());
    let path = path.unwrap();
    assert_eq!(path.first(), Some(&from));
    assert_eq!(path.last(), Some(&to));
}

#[test]
fn test_pathfinding_with_obstacles() {
    let mut map = MapData::new(10, 10);
    for y in 1..9 {
        map.set_tile(5, y, Tile { tile_type: TileType::Water, elevation: 0 });
    }
    let mut cache = PathfindingCache::new(100);
    let from = Position::new(0, 5);
    let to = Position::new(9, 5);
    let path = find_path(&mut cache, &map, from, to);
    assert!(path.is_some());
    let path = path.unwrap();
    // The cheapest detour, around either end of the wall, visits ten cells: as many as the
    // straight line, with eight diagonal moves instead of nine straight ones.
    assert!(path.len() >= 10);
    assert!(path.iter().all(|p| !(p.x == 5 && (1..9).contains(&p.y))));
    assert!(path.contains(&Position::new(5, 0)) || path.contains(&Position::new(5, 9)));
}

#[test]
fn test_pathfinding_cache() {
    let map = MapData::new(10, 10);
    let mut cache = PathfindingCache::new(100);
    let from = Position::new(0, 0);
    let to = Position::new(5, 5);
    let _path1 = find_path(&mut cache, &map, from, to);
    assert_eq!(cache.cache_misses, 1);
    assert_eq!(cache.cache_hits, 0);
    let _path2 = find_path(&mut cache, &map, from, to);
    assert_eq!(cache.cache_misses, 1);
    assert_eq!(cache.cache_hits, 1);
}

#[test]
fn test_has_required_inputs() {
    let mut stockpile = Stockpile::new(100);
    stockpile.add_item("wood".to_string(), 5);
    stockpile.add_item("stone".to_string(), 3);
    let enough = recipe(vec![("wood", 2), ("stone", 1)], vec![]);
    assert!(has_required_inputs(&stockpile, &enough));
    let insufficient = recipe(vec![("wood", 10)], vec![]);
    assert!(!has_required_inputs(&stockpile, &insufficient));
}

#[test]
fn test_has_space_for_outputs() {
    let mut stockpile = Stockpile::new(10);
    stockpile.add_item("existing".to_string(), 8);
    let fits = recipe(vec![], vec![("planks", 2)]);
    assert!(has_space_for_outputs(&stockpile, &fits));
    let too_much = recipe(vec![], vec![("planks", 5)]);
    assert!(!has_space_for_outputs(&stockpile, &too_much));
}

#[test]
fn test_resource_distribution_logic() {
    let mut stockpile = Stockpile::new(100);
    stockpile.add_item("wood".to_string(), 15);
    assert!(stockpile.get_item_count("wood") > 10);
    let mut dest_stockpile = Stockpile::new(100);
    dest_stockpile.add_item("wood".to_string(), 3);
    assert!(dest_stockpile.get_item_count("wood") < 5);
    assert!(dest_stockpile.available_space() > 0);
}

#[test]
fn test_worker_assignment() {
    let mut world = SimulationApp::new();
    world.workers.push(WorkerEntity {
        position: Position::new(0, 0),
        worker: Worker::new("test_worker".to_string()),
        path: None,
    });
    world.buildings.push(BuildingEntity {
        position: Position::new(5, 5),
        building: Building::new("test_building".to_string(), 2),
        stockpile: Stockpile::new(10),
        producer: None,
    });
    world.send_event(ReplayEventData::AssignWorker(AssignWorkerEvent { worker: 0, building: 0 }));
    worker_assignment_system(&mut world);
    assert_eq!(world.workers[0].worker.assigned_building, Some(0));
    assert_eq!(world.buildings[0].building.assigned_workers, 1);
}
