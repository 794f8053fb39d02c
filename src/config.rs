use vstd::prelude::*;

verus! {

/// Static definition of a building type. Times are in seconds of game time; the size is the
/// footprint's (width, height) in tiles.
#[derive(Debug)]
pub struct BuildingConfig {
    pub name: String,
    pub construction_time: u32,
    pub construction_cost: Vec<(String, u32)>,
    pub worker_capacity: u32,
    pub stockpile_capacity: u32,
    pub size: (u32, u32),
}

/// Static definition of a recipe: inputs consumed and outputs produced per run.
#[derive(Clone, Debug)]
pub struct RecipeConfig {
    pub name: String,
    pub production_time: u32,
    pub inputs: Vec<(String, u32)>,
    pub outputs: Vec<(String, u32)>,
    pub required_building: String,
}

/// Static definition of a worker type; speed in hundredths of a tile per tick.
#[derive(Clone, Debug)]
pub struct WorkerConfig {
    pub name: String,
    pub movement_speed: u32,
    pub carrying_capacity: u32,
}

/// Parameters of map generation; densities in percent.
#[derive(Clone, Copy, Debug, PartialEq, Eq, Structural)]
pub struct MapGenerationConfig {
    pub width: u32,
    pub height: u32,
    pub forest_density: u32,
    pub stone_density: u32,
    pub water_patches: u32,
    pub seed: u64,
}

impl Default for MapGenerationConfig {
    fn default() -> (r: Self)
        ensures
            r == (MapGenerationConfig {
                width: 0,
                height: 0,
                forest_density: 0,
                stone_density: 0,
                water_patches: 0,
                seed: 0,
            }),
    {
        MapGenerationConfig { width: 0, height: 0, forest_density: 0, stone_density: 0, water_patches: 0, seed: 0 }
    }
}

/// Index of the first entry whose key is `id`, if any.
pub open spec fn first_index<V>(entries: Seq<(String, V)>, id: Seq<char>) -> Option<int> {
    if exists|i: int| 0 <= i < entries.len() && entries[i].0@ == id {
        Some(
            choose|i: int|
                0 <= i < entries.len() && entries[i].0@ == id && forall|j: int| 0 <= j < i ==> entries[j].0@ != id,
        )
    } else {
        None
    }
}

/// The value stored under `id`: the first entry with that key.
pub open spec fn lookup<V>(entries: Seq<(String, V)>, id: Seq<char>) -> Option<V> {
    match first_index(entries, id) {
        Some(i) => Some(entries[i].1),
        None => None,
    }
}

pub proof fn lemma_first_index<V>(entries: Seq<(String, V)>, id: Seq<char>, i: int)
    requires
        0 <= i < entries.len(),
        entries[i].0@ == id,
        forall|j: int| 0 <= j < i ==> entries[j].0@ != id,
    ensures
        first_index(entries, id) == Some(i),
{
    let k = choose|k: int|
        0 <= k < entries.len() && entries[k].0@ == id && forall|j: int| 0 <= j < k ==> entries[j].0@ != id;
    assert(k == i) by {
        if k < i {
        } else if k > i {
        }
    }
}

pub proof fn lemma_first_index_found<V>(entries: Seq<(String, V)>, id: Seq<char>)
    requires
        first_index(entries, id) is Some,
    ensures
        ({
            let i = first_index(entries, id).unwrap();
            &&& 0 <= i < entries.len()
            &&& entries[i].0@ == id
            &&& forall|j: int| 0 <= j < i ==> entries[j].0@ != id
        }),
{
    let w = choose|i: int| 0 <= i < entries.len() && entries[i].0@ == id;
    lemma_least_match(entries, id, w);
}

proof fn lemma_least_match<V>(entries: Seq<(String, V)>, id: Seq<char>, w: int)
    requires
        0 <= w < entries.len(),
        entries[w].0@ == id,
    ensures
        exists|i: int|
            0 <= i < entries.len() && entries[i].0@ == id && forall|j: int| 0 <= j < i ==> entries[j].0@ != id,
    decreases w,
{
    if exists|j: int| 0 <= j < w && entries[j].0@ == id {
        let j = choose|j: int| 0 <= j < w && entries[j].0@ == id;
        lemma_least_match(entries, id, j);
    } else {
        assert(0 <= w < entries.len() && entries[w].0@ == id && forall|j: int| 0 <= j < w ==> entries[j].0@ != id);
    }
}

/// All building, recipe and worker definitions, keyed by their identifiers.
#[derive(Debug)]
pub struct GameConfig {
    pub buildings: Vec<(String, BuildingConfig)>,
    pub recipes: Vec<(String, RecipeConfig)>,
    pub workers: Vec<(String, WorkerConfig)>,
    pub map_generation: MapGenerationConfig,
}

/// A list holding one (item, quantity) entry.
fn one_item(item: &str, amount: u32) -> (r: Vec<(String, u32)>)
    ensures
        r@.len() == 1,
        r@[0].0@ == item@,
        r@[0].1 == amount,
{
    let mut v: Vec<(String, u32)> = Vec::new();
    v.push((String::from_str(item), amount));
    v
}

/// A list holding two (item, quantity) entries.
fn two_items(a: &str, x: u32, b: &str, y: u32) -> (r: Vec<(String, u32)>)
    ensures
        r@.len() == 2,
        r@[0].0@ == a@,
        r@[0].1 == x,
        r@[1].0@ == b@,
        r@[1].1 == y,
{
    let mut v: Vec<(String, u32)> = Vec::new();
    v.push((String::from_str(a), x));
    v.push((String::from_str(b), y));
    v
}

fn building_config(
    id: &str,
    name: &str,
    construction_time: u32,
    construction_cost: Vec<(String, u32)>,
    worker_capacity: u32,
    stockpile_capacity: u32,
    size: (u32, u32),
) -> (r: (String, BuildingConfig))
    ensures
        r.0@ == id@,
        r.1.name@ == name@,
        r.1.construction_time == construction_time,
        r.1.construction_cost == construction_cost,
        r.1.worker_capacity == worker_capacity,
        r.1.stockpile_capacity == stockpile_capacity,
        r.1.size == size,
{
    (
        String::from_str(id),
        BuildingConfig {
            name: String::from_str(name),
            construction_time,
            construction_cost,
            worker_capacity,
            stockpile_capacity,
            size,
        },
    )
}

fn recipe_config(
    id: &str,
    name: &str,
    production_time: u32,
    inputs: Vec<(String, u32)>,
    outputs: Vec<(String, u32)>,
    required_building: &str,
) -> (r: (String, RecipeConfig))
    ensures
        r.0@ == id@,
        r.1.name@ == name@,
        r.1.production_time == production_time,
        r.1.inputs == inputs,
        r.1.outputs == outputs,
        r.1.required_building@ == required_building@,
{
    (
        String::from_str(id),
        RecipeConfig {
            name: String::from_str(name),
            production_time,
            inputs,
            outputs,
            required_building: String::from_str(required_building),
        },
    )
}

impl Default for GameConfig {
    /// The stock buildings, recipes and worker type, on a 64 by 64 map.
    fn default() -> (r: Self)
        ensures
            r.buildings@.len() == 6,
            r.recipes@.len() == 6,
            r.workers@.len() == 1,
            r.buildings@[0].0@ == "lumberjack"@,
            r.buildings@[0].1.construction_time == 30,
            r.buildings@[0].1.worker_capacity == 2,
            r.buildings@[0].1.stockpile_capacity == 20,
            r.buildings@[0].1.size == (2u32, 2u32),
            r.recipes@[0].0@ == "harvest_wood"@,
            r.recipes@[0].1.production_time == 10,
            r.recipes@[0].1.inputs@.len() == 0,
            r.recipes@[0].1.outputs@.len() == 1,
            r.recipes@[0].1.outputs@[0].0@ == "wood"@,
            r.recipes@[0].1.outputs@[0].1 == 2,
            r.workers@[0].0@ == "worker"@,
            r.workers@[0].1.movement_speed == 100,
            r.workers@[0].1.carrying_capacity == 5,
            forall|i: int| 0 <= i < r.recipes@.len() ==> (#[trigger] r.recipes@[i]).1.inputs@.len() <= 1,
            forall|i: int| 0 <= i < r.buildings@.len() ==> crate::data::building_error((#[trigger] r.buildings@[i]).1) is None,
            forall|i: int| 0 <= i < r.recipes@.len() ==> crate::data::recipe_error((#[trigger] r.recipes@[i]).1) is None,
            forall|i: int| 0 <= i < r.workers@.len() ==> crate::data::worker_error((#[trigger] r.workers@[i]).1) is None,
            forall|i: int| 0 <= i < r.recipes@.len() ==> (#[trigger] r.recipes@[i]).1.outputs@.len() <= 1,
            r.map_generation == (MapGenerationConfig {
                width: 64,
                height: 64,
                forest_density: 30,
                stone_density: 10,
                water_patches: 3,
                seed: 12345,
            }),
    {
        let mut buildings: Vec<(String, BuildingConfig)> = Vec::new();
        buildings.push(building_config("lumberjack", "Lumberjack", 30, one_item("stone", 5), 2, 20, (2, 2)));
        buildings.push(building_config("sawmill", "Sawmill", 45, two_items("stone", 8, "wood", 10), 3, 30, (3, 3)));
        buildings.push(building_config("farm", "Farm", 40, two_items("stone", 6, "wood", 8), 2, 25, (4, 4)));
        buildings.push(building_config("mill", "Mill", 50, two_items("stone", 12, "wood", 15), 2, 20, (3, 3)));
        buildings.push(building_config("bakery", "Bakery", 35, two_items("stone", 8, "wood", 6), 3, 15, (2, 3)));
        buildings.push(building_config("quarry", "Quarry", 60, one_item("wood", 20), 4, 40, (3, 3)));

        let mut recipes: Vec<(String, RecipeConfig)> = Vec::new();
        recipes.push(recipe_config("harvest_wood", "Harvest Wood", 10, Vec::new(), one_item("wood", 2), "lumberjack"));
        recipes.push(
            recipe_config("make_planks", "Make Planks", 8, one_item("wood", 1), one_item("planks", 2), "sawmill"),
        );
        recipes.push(recipe_config("grow_grain", "Grow Grain", 20, Vec::new(), one_item("grain", 3), "farm"));
        recipes.push(recipe_config("mill_flour", "Mill Flour", 6, one_item("grain", 2), one_item("flour", 1), "mill"));
        recipes.push(
            recipe_config("bake_bread", "Bake Bread", 12, one_item("flour", 1), one_item("bread", 2), "bakery"),
        );
        recipes.push(recipe_config("mine_stone", "Mine Stone", 15, Vec::new(), one_item("stone", 1), "quarry"));

        let mut workers: Vec<(String, WorkerConfig)> = Vec::new();
        workers.push(
            (
                String::from_str("worker"),
                WorkerConfig { name: String::from_str("Worker"), movement_speed: 100, carrying_capacity: 5 },
            ),
        );
        proof {
            reveal_strlit("Lumberjack");
            reveal_strlit("Sawmill");
            reveal_strlit("Farm");
            reveal_strlit("Mill");
            reveal_strlit("Bakery");
            reveal_strlit("Quarry");
            reveal_strlit("Harvest Wood");
            reveal_strlit("Make Planks");
            reveal_strlit("Grow Grain");
            reveal_strlit("Mill Flour");
            reveal_strlit("Bake Bread");
            reveal_strlit("Mine Stone");
            reveal_strlit("Worker");
            assert forall|i: int| 0 <= i < recipes@.len() implies !crate::data::has_zero_amount(
                (#[trigger] recipes@[i]).1.inputs@,
            ) && !crate::data::has_zero_amount(recipes@[i].1.outputs@) by {}
        }
        GameConfig {
            buildings,
            recipes,
            workers,
            map_generation: MapGenerationConfig {
                width: 64,
                height: 64,
                forest_density: 30,
                stone_density: 10,
                water_patches: 3,
                seed: 12345,
            },
        }
    }
}

/// Position of the first entry keyed `id`.
fn position_of<V>(entries: &Vec<(String, V)>, id: &str) -> (r: Option<usize>)
    ensures
        r matches Some(i) ==> first_index(entries@, id@) == Some(i as int) && i < entries@.len(),
        r is None ==> first_index(entries@, id@) is None,
{
    let mut i: usize = 0;
    while i < entries.len()
        invariant
            i <= entries@.len(),
            forall|j: int| 0 <= j < i ==> entries@[j].0@ != id@,
        decreases entries@.len() - i,
    {
        if crate::stockpile::str_eq(entries[i].0.as_str(), id) {
            proof { lemma_first_index(entries@, id@, i as int); }
            return Some(i);
        }
        i = i + 1;
    }
    None
}

impl GameConfig {
    pub fn building(&self, id: &str) -> (r: Option<&BuildingConfig>)
        ensures
            r matches Some(b) ==> lookup(self.buildings@, id@) == Some(*b),
            r is None ==> lookup(self.buildings@, id@) is None,
    {
        match position_of(&self.buildings, id) {
            Some(i) => Some(&self.buildings[i].1),
            None => None,
        }
    }

    pub fn recipe(&self, id: &str) -> (r: Option<&RecipeConfig>)
        ensures
            r matches Some(c) ==> lookup(self.recipes@, id@) == Some(*c),
            r is None ==> lookup(self.recipes@, id@) is None,
    {
        match position_of(&self.recipes, id) {
            Some(i) => Some(&self.recipes[i].1),
            None => None,
        }
    }

    pub fn worker(&self, id: &str) -> (r: Option<&WorkerConfig>)
        ensures
            r matches Some(w) ==> lookup(self.workers@, id@) == Some(*w),
            r is None ==> lookup(self.workers@, id@) is None,
    {
        match position_of(&self.workers, id) {
            Some(i) => Some(&self.workers[i].1),
            None => None,
        }
    }
}

proof fn lemma_lookup_set<V>(before: Seq<(String, V)>, i: int, e: (String, V), k: Seq<char>)
    requires
        first_index(before, e.0@) == Some(i),
        0 <= i < before.len(),
    ensures
        lookup(before.update(i, e), k) == if k == e.0@ {
            Some(e.1)
        } else {
            lookup(before, k)
        },
{
    let after = before.update(i, e);
    lemma_first_index_found(before, e.0@);
    if k == e.0@ {
        lemma_first_index(after, k, i);
    } else if first_index(before, k) is Some {
        let j = first_index(before, k).unwrap();
        lemma_first_index_found(before, k);
        assert(after[j] == before[j]);
        lemma_first_index(after, k, j);
    } else {
        assert forall|j: int| 0 <= j < after.len() implies after[j].0@ != k by {
            if j != i {
                assert(after[j] == before[j]);
            }
        }
    }
}

proof fn lemma_lookup_push<V>(before: Seq<(String, V)>, e: (String, V), k: Seq<char>)
    requires
        first_index(before, e.0@) is None,
    ensures
        lookup(before.push(e), k) == if k == e.0@ {
            Some(e.1)
        } else {
            lookup(before, k)
        },
{
    let after = before.push(e);
    if k == e.0@ {
        lemma_first_index(after, k, before.len() as int);
    } else if first_index(before, k) is Some {
        let j = first_index(before, k).unwrap();
        lemma_first_index_found(before, k);
        assert(after[j] == before[j]);
        lemma_first_index(after, k, j);
    } else {
        assert forall|j: int| 0 <= j < after.len() implies after[j].0@ != k by {
            if j < before.len() {
                assert(after[j] == before[j]);
            }
        }
    }
}

/// Stores `value` under `id`: replaces the first entry with that key, or appends one.
pub fn upsert<V>(entries: &mut Vec<(String, V)>, id: String, value: V)
    ensures
        forall|k: Seq<char>| #[trigger] lookup(final(entries)@, k) == if k == id@ {
            Some(value)
        } else {
            lookup(old(entries)@, k)
        },
{
    let ghost before = entries@;
    let ghost key = id@;
    match position_of(entries, id.as_str()) {
        Some(i) => {
            let e = (id, value);
            proof {
                assert forall|k: Seq<char>| #[trigger] lookup(before.update(i as int, e), k) == if k == key {
                    Some(value)
                } else {
                    lookup(before, k)
                } by {
                    lemma_lookup_set(before, i as int, e, k);
                }
            }
            entries.set(i, e);
        },
        None => {
            let e = (id, value);
            proof {
                assert forall|k: Seq<char>| #[trigger] lookup(before.push(e), k) == if k == key {
                    Some(value)
                } else {
                    lookup(before, k)
                } by {
                    lemma_lookup_push(before, e, k);
                }
            }
            entries.push(e);
        },
    }
}

} // verus!
