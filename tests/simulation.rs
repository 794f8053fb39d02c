use oldtimes::events::{PlaceBuildingEvent, ReplayEventData};
use oldtimes::simulation::SimulationApp;
use oldtimes::{MapData, Position};

fn demo() -> SimulationApp {
    let mut sim = SimulationApp::new();
    sim.initialize_demo(MapData::new(64, 64));
    sim
}

#[test]
fn test_simulation_creation() {
    let mut sim = demo();
    assert_eq!(sim.current_tick(), 0);
    sim.tick();
    assert_eq!(sim.current_tick(), 1);
}

#[test]
fn test_deterministic_simulation() {
    let mut sim1 = demo();
    let mut sim2 = demo();
    sim1.run_ticks(100);
    sim2.run_ticks(100);
    assert_eq!(sim1.calculate_state_hash(), sim2.calculate_state_hash());
}

#[test]
fn test_building_placement() {
    let mut sim = demo();
    sim.send_event(ReplayEventData::PlaceBuilding(PlaceBuildingEvent {
        building_type: "lumberjack".to_string(),
        position: Position::new(10, 10),
    }));
    sim.tick();
    assert!(sim.current_tick() > 0);
    assert_eq!(sim.buildings.len(), 1);
}
