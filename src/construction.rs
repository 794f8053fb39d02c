use crate::components::{Building, BuildingEntity, Position};
use crate::config::{lookup, GameConfig};
use crate::map::{is_suitable_for_building, suitable};
use crate::resources::MapData;
use crate::stockpile::Stockpile;
use vstd::prelude::*;

verus! {

pub open spec fn abs_diff(a: i32, b: i32) -> nat {
    if a >= b {
        (a - b) as nat
    } else {
        (b - a) as nat
    }
}

/// A building standing at `existing` overlaps a footprint of `size` placed at `pos`.
pub open spec fn overlaps(existing: Position, pos: Position, size: (u32, u32)) -> bool {
    existing == pos || (abs_diff(existing.x, pos.x) < size.0 && abs_diff(existing.y, pos.y) < size.1)
}

pub open spec fn occupied(buildings: Seq<BuildingEntity>, pos: Position, size: (u32, u32)) -> bool {
    exists|i: int| 0 <= i < buildings.len() && overlaps(#[trigger] buildings[i].position, pos, size)
}

/// Whether a building of footprint `size` at `position` would overlap an existing one.
pub fn is_position_occupied(buildings: &Vec<BuildingEntity>, position: Position, size: (u32, u32)) -> (r: bool)
    ensures
        r == occupied(buildings@, position, size),
{
    let mut i: usize = 0;
    while i < buildings.len()
        invariant
            i <= buildings@.len(),
            forall|j: int| 0 <= j < i ==> !overlaps(#[trigger] buildings@[j].position, position, size),
        decreases buildings@.len() - i,
    {
        let existing = buildings[i].position;
        if existing.x == position.x && existing.y == position.y {
            return true;
        }
        let dx: i64 = if existing.x >= position.x {
            existing.x as i64 - position.x as i64
        } else {
            position.x as i64 - existing.x as i64
        };
        let dy: i64 = if existing.y >= position.y {
            existing.y as i64 - position.y as i64
        } else {
            position.y as i64 - existing.y as i64
        };
        if dx < size.0 as i64 && dy < size.1 as i64 {
            return true;
        }
        i = i + 1;
    }
    false
}

/// Whether a placement request is carried out: the type is known, every cell of its footprint
/// is buildable terrain, and no existing building overlaps it.
pub open spec fn placement_accepted(
    buildings: Seq<BuildingEntity>,
    config: GameConfig,
    map: MapData,
    building_type: Seq<char>,
    position: Position,
) -> bool {
    match lookup(config.buildings@, building_type) {
        Some(c) => suitable(map, position.x as int, position.y as int, c.size) && !occupied(buildings, position, c.size),
        None => false,
    }
}

/// What a placement request does to the buildings: nothing when refused; otherwise one new,
/// unfinished, unstaffed building with an empty stockpile at the end of the list.
pub open spec fn placement_post(
    b0: Seq<BuildingEntity>,
    b1: Seq<BuildingEntity>,
    config: GameConfig,
    map: MapData,
    building_type: Seq<char>,
    position: Position,
) -> bool {
    &&& !placement_accepted(b0, config, map, building_type, position) ==> b1 == b0
    &&& placement_accepted(b0, config, map, building_type, position) ==> {
        let c = lookup(config.buildings@, building_type).unwrap();
        let e = b1.last();
        &&& b1.len() == b0.len() + 1
        &&& b1.drop_last() == b0
        &&& e.position == position
        &&& e.building.building_type@ == building_type
        &&& e.building.construction_progress == 0
        &&& !e.building.is_constructed
        &&& e.building.worker_capacity == c.worker_capacity
        &&& e.building.assigned_workers == 0
        &&& e.stockpile.wf()
        &&& e.stockpile.capacity == c.stockpile_capacity
        &&& e.stockpile.total() == 0
        &&& e.producer is None
    }
}

/// Places a building of a configured type, unless the type is unknown, the terrain unsuitable
/// or the spot taken.
pub fn place_building(
    buildings: &mut Vec<BuildingEntity>,
    config: &GameConfig,
    map: &MapData,
    building_type: &String,
    position: Position,
) -> (placed: bool)
    requires
        map.wf(),
    ensures
        placed == placement_accepted(old(buildings)@, *config, *map, building_type@, position),
        placement_post(old(buildings)@, final(buildings)@, *config, *map, building_type@, position),
{
    let c = match config.building(building_type.as_str()) {
        Some(c) => c,
        None => {
            return false;
        },
    };
    if !is_suitable_for_building(map, position.x, position.y, c.size) {
        return false;
    }
    if is_position_occupied(buildings, position, c.size) {
        return false;
    }
    let entity = BuildingEntity {
        position,
        building: Building::new(building_type.clone(), c.worker_capacity),
        stockpile: Stockpile::new(c.stockpile_capacity),
        producer: None,
    };
    buildings.push(entity);
    proof {
        assert(buildings@.drop_last() == old(buildings)@);
    }
    true
}

/// Whether a tick of construction finishes the building.
pub open spec fn finishes(b: Building, required_ticks: u64) -> bool {
    !b.is_constructed && b.construction_progress + 1 >= required_ticks
}

/// A building after one tick of construction: an unfinished one gains a tick of work, capped at
/// the ticks required, and is finished once it has them all.
pub open spec fn constructed_once(b: Building, required_ticks: u64) -> Building {
    if b.is_constructed {
        b
    } else if finishes(b, required_ticks) {
        Building { construction_progress: required_ticks, is_constructed: true, ..b }
    } else {
        Building { construction_progress: (b.construction_progress + 1) as u64, ..b }
    }
}

/// One tick of construction. Returns true on the tick the building becomes finished.
pub fn advance_construction(building: &mut Building, required_ticks: u64) -> (completed: bool)
    ensures
        *final(building) == constructed_once(*old(building), required_ticks),
        completed == finishes(*old(building), required_ticks),
{
    if building.is_constructed {
        return false;
    }
    if building.construction_progress >= required_ticks || building.construction_progress + 1 >= required_ticks {
        building.construction_progress = required_ticks;
        building.is_constructed = true;
        true
    } else {
        building.construction_progress = building.construction_progress + 1;
        false
    }
}

/// A building after `k` ticks of construction.
pub open spec fn constructed_after(b: Building, required_ticks: u64, k: nat) -> Building
    decreases k,
{
    if k == 0 {
        b
    } else {
        constructed_once(constructed_after(b, required_ticks, (k - 1) as nat), required_ticks)
    }
}

/// A new building that needs `required_ticks` ticks of work is unfinished, with `k` ticks of
/// work done, after `k` ticks of construction for every `k` below that, and finished, with its
/// progress at the requirement, from then on.
pub proof fn lemma_construction_takes_required_ticks(b: Building, required_ticks: u64, k: nat)
    requires
        !b.is_constructed,
        b.construction_progress == 0,
        required_ticks >= 1,
    ensures
        k < required_ticks ==> !constructed_after(b, required_ticks, k).is_constructed
            && constructed_after(b, required_ticks, k).construction_progress == k,
        k >= required_ticks ==> constructed_after(b, required_ticks, k).is_constructed
            && constructed_after(b, required_ticks, k).construction_progress == required_ticks,
    decreases k,
{
    if k > 0 {
        lemma_construction_takes_required_ticks(b, required_ticks, (k - 1) as nat);
    }
}

} // verus!
