use oldtimes::cache::PathfindingCache;
use oldtimes::config::{upsert, BuildingConfig, GameConfig, RecipeConfig, WorkerConfig};
use oldtimes::construction::advance_construction;
use oldtimes::data::{ConfigError, DataLoader, ModInfo, ModLoader};
use oldtimes::economy::EconomyAnalyzer;
use oldtimes::events::{ReplayEvent, ReplayEventData, StartProductionEvent, TaskKind, TransferResourceEvent};
use oldtimes::production::run_production;
use oldtimes::replay::{start_recording, verify_replay};
use oldtimes::resources::GameTick;
use oldtimes::transport::resource_distribution_system;
use oldtimes::worker::worker_ai;
use oldtimes::{
    Building, BuildingEntity, MapData, Position, Producer, Road, SimulationApp, Stockpile, TaskPurpose, Tile, TileType,
    Worker, WorkerEntity, WorkerTask,
};

fn items(list: &[(&str, u32)]) -> Vec<(String, u32)> {
    list.iter().map(|(k, v)| (k.to_string(), *v)).collect()
}

fn recipe(name: &str, time: u32, inputs: &[(&str, u32)], outputs: &[(&str, u32)], building: &str) -> RecipeConfig {
    RecipeConfig {
        name: name.to_string(),
        production_time: time,
        inputs: items(inputs),
        outputs: items(outputs),
        required_building: building.to_string(),
    }
}

fn building_config(name: &str, time: u32, capacity: u32, size: (u32, u32)) -> BuildingConfig {
    BuildingConfig {
        name: name.to_string(),
        construction_time: time,
        construction_cost: Vec::new(),
        worker_capacity: capacity,
        stockpile_capacity: 20,
        size,
    }
}

fn keyed<'a, V>(entries: &'a [(String, V)], id: &str) -> Option<&'a V> {
    entries.iter().find(|(k, _)| k == id).map(|(_, v)| v)
}

#[test]
fn test_production_graph_analysis() {
    let mut config = GameConfig::default();
    upsert(&mut config.recipes, "make_planks".to_string(), recipe("Make Planks", 5, &[("wood", 1)], &[("planks", 2)], "sawmill"));
    upsert(
        &mut config.recipes,
        "make_furniture".to_string(),
        recipe("Make Furniture", 10, &[("planks", 3)], &[("furniture", 1)], "workshop"),
    );
    let analysis = EconomyAnalyzer::new(config).analyze_production_graph();
    assert!(keyed(&analysis.dependencies, "make_planks").is_some());
    assert!(keyed(&analysis.dependencies, "make_furniture").is_some());
    assert!(keyed(&analysis.producers, "planks").is_some());
    assert!(keyed(&analysis.producers, "furniture").is_some());
    assert!(!analysis.has_cycles());
    assert!(analysis.is_resource_available("furniture"));
    assert!(!analysis.is_resource_available("gold"));
}

#[test]
fn production_cycle_is_reported() {
    let mut config = GameConfig::default();
    config.recipes.clear();
    upsert(&mut config.recipes, "a".to_string(), recipe("A", 1, &[("x", 1)], &[("y", 1)], "b"));
    upsert(&mut config.recipes, "b".to_string(), recipe("B", 1, &[("y", 1)], &[("x", 1)], "b"));
    upsert(&mut config.recipes, "c".to_string(), recipe("C", 1, &[("ore", 1)], &[("z", 1)], "b"));
    let analysis = EconomyAnalyzer::new(config).analyze_production_graph();
    assert!(analysis.has_cycles());
    assert_eq!(analysis.cycles[0], vec!["a".to_string(), "b".to_string()]);
    assert_eq!(analysis.resource_sinks, vec!["ore".to_string()]);
    assert!(analysis.resource_sources.is_empty());
}

#[test]
fn default_configuration_sources_and_sinks() {
    let analysis = EconomyAnalyzer::new(GameConfig::default()).analyze_production_graph();
    assert_eq!(analysis.resource_sources, vec!["harvest_wood", "grow_grain", "mine_stone"]);
    assert!(analysis.resource_sinks.is_empty());
    assert!(!analysis.has_cycles());
}

#[test]
fn distance_rounds_down() {
    assert_eq!(Position::new(0, 0).distance_to(&Position::new(3, 4)), 5);
    assert_eq!(Position::new(0, 0).distance_to(&Position::new(1, 1)), 1);
    assert_eq!(Position::new(2, 2).distance_to(&Position::new(2, 2)), 0);
    assert_eq!(Position::new(i32::MIN, i32::MIN).distance_to(&Position::new(i32::MAX, i32::MAX)), 6074000998);
}

#[test]
fn terrain_costs() {
    let cost = |t| Tile { tile_type: t, elevation: 0 }.movement_cost();
    assert_eq!(cost(TileType::Road), Some(50));
    assert_eq!(cost(TileType::Grass), Some(100));
    assert_eq!(cost(TileType::Stone), Some(150));
    assert_eq!(cost(TileType::Forest), Some(200));
    assert_eq!(cost(TileType::Water), None);
    assert!(!Tile { tile_type: TileType::Water, elevation: 0 }.is_passable());
    assert_eq!(Road::default().movement_cost, 50);
}

#[test]
fn map_bounds() {
    let mut map = MapData::new(4, 3);
    assert!(map.get_tile(3, 2).is_some());
    assert!(map.get_tile(4, 0).is_none());
    assert!(map.get_tile(0, -1).is_none());
    assert!(!map.set_tile(0, 3, Tile { tile_type: TileType::Road, elevation: 1 }));
    assert!(map.set_tile(1, 1, Tile { tile_type: TileType::Road, elevation: 1 }));
    assert_eq!(map.get_tile(1, 1).unwrap().tile_type, TileType::Road);
}

#[test]
fn no_route_into_water_enclosure() {
    let mut map = MapData::new(5, 5);
    for (x, y) in [(1, 1), (2, 1), (3, 1), (1, 2), (3, 2), (1, 3), (2, 3), (3, 3)] {
        map.set_tile(x, y, Tile { tile_type: TileType::Water, elevation: 0 });
    }
    let mut cache = PathfindingCache::new(10);
    assert!(oldtimes::pathfinding::find_path(&mut cache, &map, Position::new(0, 0), Position::new(2, 2)).is_none());
    assert_eq!(cache.entries.len(), 0);
    assert_eq!(cache.cache_misses, 1);
    assert!(oldtimes::pathfinding::find_path(&mut cache, &map, Position::new(0, 0), Position::new(7, 7)).is_none());
}

#[test]
fn repeated_lookup_is_answered_from_cache() {
    let map = MapData::new(8, 8);
    let mut cache = PathfindingCache::new(1);
    let first = oldtimes::pathfinding::find_path(&mut cache, &map, Position::new(0, 0), Position::new(7, 3)).unwrap();
    let second = oldtimes::pathfinding::find_path(&mut cache, &map, Position::new(0, 0), Position::new(7, 3)).unwrap();
    assert_eq!(first, second);
    assert_eq!((cache.cache_hits, cache.cache_misses), (1, 1));
    assert_eq!(cache.hit_rate(), 50);
}

#[test]
fn road_route_is_cheaper_than_grass() {
    let mut map = MapData::new(7, 3);
    for x in 0..7 {
        map.set_tile(x, 0, Tile { tile_type: TileType::Road, elevation: 0 });
    }
    let mut cache = PathfindingCache::new(10);
    let path = oldtimes::pathfinding::find_path(&mut cache, &map, Position::new(0, 1), Position::new(6, 1)).unwrap();
    assert!(path.iter().any(|p| p.y == 0));
}

#[test]
fn cache_stays_within_capacity() {
    let mut cache = PathfindingCache::new(2);
    for i in 0..5 {
        cache.insert(Position::new(i, 0), Position::new(0, i), vec![Position::new(i, 0)]);
        assert!(cache.entries.len() <= 2);
    }
    assert_eq!(cache.entries.len(), 2);
    let mut none = PathfindingCache::new(0);
    none.insert(Position::new(0, 0), Position::new(1, 1), vec![]);
    assert_eq!(none.entries.len(), 0);
    cache.clear();
    assert_eq!(cache.entries.len(), 0);
    assert_eq!(cache.get(Position::new(4, 0), Position::new(0, 4)), None);
}

#[test]
fn stockpile_totals_stay_within_capacity() {
    let mut s = Stockpile::new(12);
    s.add_item("wood".to_string(), 7);
    s.add_item("stone".to_string(), 9);
    assert_eq!(s.total_items(), 12);
    assert_eq!(s.remove_item("wood", 3), 3);
    assert_eq!(s.remove_item("stone", 50), 5);
    assert_eq!(s.get_item_count("stone"), 0);
    assert_eq!(s.total_items(), 4);
    assert!(s.can_store("iron", 8));
    assert!(!s.can_store("iron", 9));
    assert_eq!(s.remove_item("gold", 1), 0);
}

fn staffed(capacity: u32, assigned: u32) -> Building {
    let mut b = Building::new("lumberjack".to_string(), capacity);
    b.is_constructed = true;
    b.assigned_workers = assigned;
    b
}

#[test]
fn production_completes_and_resets() {
    let building = staffed(2, 2);
    let mut producer = Producer::new("make_planks".to_string());
    let mut stock = Stockpile::new(10);
    stock.add_item("wood".to_string(), 3);
    let r = recipe("Make Planks", 1, &[("wood", 1)], &[("planks", 2)], "sawmill");
    // one second at one tick per second, two workers of two: one tick per unit, two units per tick
    assert_eq!(run_production(&building, &mut producer, &mut stock, Some(&r), 1), Some(items(&[("planks", 2)])));
    assert_eq!(producer.production_progress, 0);
    assert!(!producer.is_producing);
    assert_eq!(stock.get_item_count("wood"), 2);
    assert_eq!(stock.get_item_count("planks"), 2);
}

#[test]
fn production_rate_follows_staffing() {
    let building = staffed(4, 1);
    let mut producer = Producer::new("make_planks".to_string());
    let mut stock = Stockpile::new(10);
    stock.add_item("wood".to_string(), 3);
    let r = recipe("Make Planks", 1, &[("wood", 1)], &[("planks", 2)], "sawmill");
    for _ in 0..3 {
        assert_eq!(run_production(&building, &mut producer, &mut stock, Some(&r), 1), None);
        assert!(producer.is_producing);
    }
    assert_eq!(producer.production_progress, 3);
    assert!(run_production(&building, &mut producer, &mut stock, Some(&r), 1).is_some());
    assert_eq!(producer.production_progress, 0);
}

#[test]
fn production_without_inputs_or_space_consumes_nothing() {
    let building = staffed(1, 1);
    let mut producer = Producer::new("r".to_string());
    let mut stock = Stockpile::new(3);
    stock.add_item("wood".to_string(), 2);
    let needs_more = recipe("R", 1, &[("wood", 5)], &[("planks", 1)], "x");
    assert_eq!(run_production(&building, &mut producer, &mut stock, Some(&needs_more), 1), None);
    assert_eq!(stock.get_item_count("wood"), 2);
    let too_big = recipe("R", 1, &[("wood", 1)], &[("planks", 2)], "x");
    assert_eq!(run_production(&building, &mut producer, &mut stock, Some(&too_big), 1), None);
    assert_eq!(stock.get_item_count("wood"), 2);
    assert!(!producer.is_producing);
    let idle = Building::new("x".to_string(), 1);
    assert_eq!(run_production(&idle, &mut producer, &mut stock, Some(&too_big), 1), None);
}

#[test]
fn construction_caps_at_required_ticks() {
    let mut b = Building::new("farm".to_string(), 2);
    assert!(!advance_construction(&mut b, 3));
    assert!(!advance_construction(&mut b, 3));
    assert!(advance_construction(&mut b, 3));
    assert!(b.is_constructed);
    assert_eq!(b.construction_progress, 3);
    assert!(!advance_construction(&mut b, 3));
}

fn entity(x: i32, building: Building, stock: Stockpile) -> BuildingEntity {
    BuildingEntity { position: Position::new(x, 0), building, stockpile: stock, producer: None }
}

#[test]
fn distribution_moves_surplus_to_first_taker() {
    let mut source = Stockpile::new(100);
    source.add_item("wood".to_string(), 15);
    let mut full = Stockpile::new(1);
    full.add_item("stone".to_string(), 1);
    let mut dest = Stockpile::new(100);
    dest.add_item("wood".to_string(), 3);
    let buildings = vec![
        entity(0, Building::new("a".to_string(), 1), source),
        entity(1, Building::new("b".to_string(), 1), full),
        entity(2, Building::new("c".to_string(), 1), dest),
    ];
    let due = GameTick { current: 100, target_tps: 20 };
    let planned = resource_distribution_system(&buildings, &due);
    assert_eq!(planned.len(), 1);
    assert_eq!((planned[0].from, planned[0].to, planned[0].amount), (0, 2, 5));
    assert_eq!(planned[0].resource, "wood");
    let not_due = GameTick { current: 101, target_tps: 20 };
    assert!(resource_distribution_system(&buildings, &not_due).is_empty());
}

#[test]
fn worker_goes_to_work_and_finishes() {
    let buildings = vec![entity(3, staffed(1, 1), Stockpile::new(5))];
    let mut w = WorkerEntity { position: Position::new(0, 0), worker: Worker::new("worker".to_string()), path: None };
    w.worker.assigned_building = Some(0);
    let out = worker_ai(&mut w, 7, &buildings, 2);
    assert_eq!(out.path_request.unwrap().to, Position::new(3, 0));
    assert!(matches!(w.worker.current_task, WorkerTask::MovingTo { purpose: TaskPurpose::GoToWork, .. }));
    w.position = Position::new(3, 0);
    worker_ai(&mut w, 7, &buildings, 2);
    assert!(matches!(w.worker.current_task, WorkerTask::Working { building: 0, progress: 0 }));
    assert!(worker_ai(&mut w, 7, &buildings, 2).completed.is_none());
    let done = worker_ai(&mut w, 7, &buildings, 2).completed.unwrap();
    assert_eq!((done.worker, done.task_type), (7, TaskKind::Work));
    assert_eq!(done.task_type.name(), "work");
    assert!(matches!(w.worker.current_task, WorkerTask::Idle));
}

#[test]
fn pickup_sets_cargo() {
    let buildings: Vec<BuildingEntity> = Vec::new();
    let mut w = WorkerEntity { position: Position::new(1, 1), worker: Worker::new("worker".to_string()), path: None };
    w.worker.current_task = WorkerTask::MovingTo {
        target: Position::new(1, 1),
        purpose: TaskPurpose::PickupResource { item: "wood".to_string(), amount: 4 },
    };
    let out = worker_ai(&mut w, 0, &buildings, 200);
    assert_eq!(out.completed.unwrap().task_type, TaskKind::Pickup);
    assert_eq!(w.worker.carrying, Some(("wood".to_string(), 4)));
}

#[test]
fn validation_reports_each_problem() {
    let loader = DataLoader::new();
    assert_eq!(loader.validate_building(&building_config("", 1, 1, (1, 1))), Err(ConfigError::EmptyBuildingName));
    assert_eq!(loader.validate_building(&building_config("B", 0, 1, (1, 1))), Err(ConfigError::NonPositiveConstructionTime));
    assert_eq!(loader.validate_building(&building_config("B", 1, 0, (1, 1))), Err(ConfigError::NonPositiveWorkerCapacity));
    assert_eq!(loader.validate_building(&building_config("B", 1, 1, (0, 1))), Err(ConfigError::NonPositiveBuildingSize));
    assert_eq!(loader.validate_building(&building_config("B", 1, 1, (1, 1))), Ok(()));
    assert_eq!(loader.validate_recipe(&recipe("", 1, &[], &[("a", 1)], "b")), Err(ConfigError::EmptyRecipeName));
    assert_eq!(loader.validate_recipe(&recipe("R", 0, &[], &[("a", 1)], "b")), Err(ConfigError::NonPositiveProductionTime));
    assert_eq!(loader.validate_recipe(&recipe("R", 1, &[], &[], "b")), Err(ConfigError::NoRecipeOutputs));
    assert_eq!(loader.validate_recipe(&recipe("R", 1, &[("x", 0)], &[("a", 1)], "b")), Err(ConfigError::NonPositiveInputAmount));
    assert_eq!(loader.validate_recipe(&recipe("R", 1, &[], &[("a", 0)], "b")), Err(ConfigError::NonPositiveOutputAmount));
    assert_eq!(loader.validate_recipe(&recipe("R", 1, &[("x", 1)], &[("a", 1)], "b")), Ok(()));
    let worker = |name: &str, speed, cap| WorkerConfig { name: name.to_string(), movement_speed: speed, carrying_capacity: cap };
    assert_eq!(loader.validate_worker(&worker("", 1, 1)), Err(ConfigError::EmptyWorkerName));
    assert_eq!(loader.validate_worker(&worker("W", 0, 1)), Err(ConfigError::NonPositiveMovementSpeed));
    assert_eq!(loader.validate_worker(&worker("W", 1, 0)), Err(ConfigError::NonPositiveCarryingCapacity));
    assert_eq!(loader.validate_worker(&worker("W", 1, 1)), Ok(()));
}

#[test]
fn loader_keeps_nothing_of_a_bad_batch() {
    let mut loader = DataLoader::new();
    let good = vec![("hut".to_string(), building_config("Hut", 5, 1, (1, 1)))];
    assert_eq!(loader.load_buildings(good), Ok(()));
    let bad = vec![
        ("shed".to_string(), building_config("Shed", 5, 1, (1, 1))),
        ("bad".to_string(), building_config("Bad", 0, 1, (1, 1))),
    ];
    assert_eq!(loader.load_buildings(bad), Err(ConfigError::NonPositiveConstructionTime));
    let config = loader.into_config(Default::default());
    assert_eq!(config.buildings.len(), 1);
    assert!(config.building("hut").is_some());
    assert!(config.building("shed").is_none());
}

#[test]
fn mod_overrides_and_extends_configuration() {
    let mut base = GameConfig::default();
    let mut modded = GameConfig { buildings: Vec::new(), recipes: Vec::new(), workers: Vec::new(), map_generation: Default::default() };
    upsert(&mut modded.buildings, "lumberjack".to_string(), building_config("Big Lumberjack", 10, 5, (2, 2)));
    upsert(&mut modded.buildings, "tower".to_string(), building_config("Tower", 90, 1, (1, 1)));
    let mut loader = ModLoader::new();
    let info = ModInfo {
        name: "Test Mod".to_string(),
        version: "1.0.0".to_string(),
        description: "A test mod".to_string(),
        author: "Test Author".to_string(),
        priority: 100,
    };
    loader.apply_mod(&mut base, modded, info);
    assert_eq!(loader.get_loaded_mods().len(), 1);
    assert_eq!(base.building("lumberjack").unwrap().worker_capacity, 5);
    assert!(base.building("tower").is_some());
    assert!(base.building("farm").is_some());
}

#[test]
fn replay_without_placements_verifies() {
    let mut rec = start_recording();
    rec.record_event(3, ReplayEventData::StartProduction(StartProductionEvent { building: 0, recipe_id: "x".to_string() }));
    rec.record_event(
        7,
        ReplayEventData::TransferResource(TransferResourceEvent { from: 0, to: 1, resource: "wood".to_string(), amount: 1 }),
    );
    assert_eq!(rec.events().len(), 2);
    assert_eq!(rec.initial_seed(), 12345);
    let events: Vec<ReplayEvent> = rec.events().clone();
    assert!(verify_replay(&events, &MapData::new(32, 32)));
}

#[test]
fn state_hash_changes_with_tick_and_matches_across_runs() {
    let mut a = SimulationApp::new();
    let b = SimulationApp::new();
    assert_eq!(a.calculate_state_hash(), b.calculate_state_hash());
    a.tick();
    assert_ne!(a.calculate_state_hash(), b.calculate_state_hash());
    assert_eq!(a.workers.len(), 5);
    assert_eq!(a.workers[4].position, Position::new(14, 10));
}

#[test]
fn restore_accepts_consistent_state_only() {
    let mut sim = SimulationApp::new();
    let good = vec![entity(1, Building::new("hut".to_string(), 1), Stockpile::new(5))];
    assert!(sim.restore(42, MapData::new(8, 8), good, Vec::new()));
    assert_eq!(sim.current_tick(), 42);
    assert_eq!(sim.buildings.len(), 1);
    let bad_stock = Stockpile { capacity: 2, items: vec![("wood".to_string(), 3)] };
    assert!(!bad_stock.is_consistent());
    let dup = Stockpile { capacity: 9, items: vec![("wood".to_string(), 1), ("wood".to_string(), 1)] };
    assert!(!dup.is_consistent());
    let bad = vec![entity(1, Building::new("hut".to_string(), 1), bad_stock)];
    assert!(!sim.restore(7, MapData::new(8, 8), bad, Vec::new()));
    assert_eq!(sim.current_tick(), 42);
    let ragged = MapData { width: 3, height: 1, tiles: vec![vec![]] };
    assert!(!ragged.is_well_formed());
    assert!(!sim.restore(7, ragged, Vec::new(), Vec::new()));
}
