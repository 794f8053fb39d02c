use crate::config::{lookup, upsert, BuildingConfig, GameConfig, MapGenerationConfig, RecipeConfig, WorkerConfig};
use vstd::prelude::*;

verus! {

/// Why a definition was refused.
#[derive(Clone, Copy, Debug, PartialEq, Eq, Structural)]
pub enum ConfigError {
    EmptyBuildingName,
    NonPositiveConstructionTime,
    NonPositiveWorkerCapacity,
    NonPositiveBuildingSize,
    EmptyRecipeName,
    NonPositiveProductionTime,
    NoRecipeOutputs,
    NonPositiveInputAmount,
    NonPositiveOutputAmount,
    EmptyWorkerName,
    NonPositiveMovementSpeed,
    NonPositiveCarryingCapacity,
}

/// The first problem with a building definition, checked in a fixed order.
pub open spec fn building_error(b: BuildingConfig) -> Option<ConfigError> {
    if b.name@.len() == 0 {
        Some(ConfigError::EmptyBuildingName)
    } else if b.construction_time == 0 {
        Some(ConfigError::NonPositiveConstructionTime)
    } else if b.worker_capacity == 0 {
        Some(ConfigError::NonPositiveWorkerCapacity)
    } else if b.size.0 == 0 || b.size.1 == 0 {
        Some(ConfigError::NonPositiveBuildingSize)
    } else {
        None
    }
}

pub open spec fn has_zero_amount(items: Seq<(String, u32)>) -> bool {
    exists|i: int| 0 <= i < items.len() && items[i].1 == 0
}

/// The first problem with a recipe definition, checked in a fixed order.
pub open spec fn recipe_error(c: RecipeConfig) -> Option<ConfigError> {
    if c.name@.len() == 0 {
        Some(ConfigError::EmptyRecipeName)
    } else if c.production_time == 0 {
        Some(ConfigError::NonPositiveProductionTime)
    } else if c.outputs@.len() == 0 {
        Some(ConfigError::NoRecipeOutputs)
    } else if has_zero_amount(c.inputs@) {
        Some(ConfigError::NonPositiveInputAmount)
    } else if has_zero_amount(c.outputs@) {
        Some(ConfigError::NonPositiveOutputAmount)
    } else {
        None
    }
}

/// The first problem with a worker definition, checked in a fixed order.
pub open spec fn worker_error(w: WorkerConfig) -> Option<ConfigError> {
    if w.name@.len() == 0 {
        Some(ConfigError::EmptyWorkerName)
    } else if w.movement_speed == 0 {
        Some(ConfigError::NonPositiveMovementSpeed)
    } else if w.carrying_capacity == 0 {
        Some(ConfigError::NonPositiveCarryingCapacity)
    } else {
        None
    }
}

pub open spec fn as_result(e: Option<ConfigError>) -> Result<(), ConfigError> {
    match e {
        Some(e) => Err(e),
        None => Ok(()),
    }
}


fn any_zero(items: &Vec<(String, u32)>) -> (r: bool)
    ensures
        r == has_zero_amount(items@),
{
    let mut i: usize = 0;
    while i < items.len()
        invariant
            i <= items@.len(),
            forall|j: int| 0 <= j < i ==> items@[j].1 != 0,
        decreases items@.len() - i,
    {
        if items[i].1 == 0 {
            return true;
        }
        i = i + 1;
    }
    false
}



/// The value under `k` after storing `added`, entry by entry, on top of `base`.
pub open spec fn merged<V>(base: Seq<(String, V)>, added: Seq<(String, V)>, k: Seq<char>) -> Option<V>
    decreases added.len(),
{
    if added.len() == 0 {
        lookup(base, k)
    } else if added.last().0@ == k {
        Some(added.last().1)
    } else {
        merged(base, added.drop_last(), k)
    }
}

/// Stores every entry of `added` in `into`; a later entry wins over an earlier one.
pub fn merge_entries<V>(into: &mut Vec<(String, V)>, added: Vec<(String, V)>)
    ensures
        forall|k: Seq<char>| #[trigger] lookup(final(into)@, k) == merged(old(into)@, added@, k),
{
    let ghost all = added@;
    let mut rest = added;
    let total = rest.len();
    let mut n: usize = 0;
    while rest.len() > 0
        invariant
            total == all.len(),
            n + rest@.len() == all.len(),
            rest@ == all.subrange(n as int, all.len() as int),
            forall|k: Seq<char>| #[trigger] lookup(into@, k) == merged(old(into)@, all.subrange(0, n as int), k),
        decreases rest@.len(),
    {
        let (id, value) = rest.remove(0);
        proof {
            assert(all[n as int] == (id, value));
        }
        let ghost key = id@;
        upsert(into, id, value);
        proof {
            assert(all.subrange(0, n as int + 1).drop_last() == all.subrange(0, n as int));
            assert(all.subrange(0, n as int + 1).last() == all[n as int]);
            assert(rest@ == all.subrange(n as int + 1, all.len() as int));
        }
        n = n + 1;
    }
    assert(all.subrange(0, n as int) == all);
}

/// Checks and collects building, recipe and worker definitions.
pub struct DataLoader {
    pub buildings: Vec<(String, BuildingConfig)>,
    pub recipes: Vec<(String, RecipeConfig)>,
    pub workers: Vec<(String, WorkerConfig)>,
}

impl DataLoader {
    pub fn new() -> (r: Self)
        ensures
            r.buildings@.len() == 0,
            r.recipes@.len() == 0,
            r.workers@.len() == 0,
    {
        DataLoader { buildings: Vec::new(), recipes: Vec::new(), workers: Vec::new() }
    }

    pub fn validate_building(&self, building: &BuildingConfig) -> (r: Result<(), ConfigError>)
        ensures
            r == as_result(building_error(*building)),
    {
        if building.name.unicode_len() == 0 {
            return Err(ConfigError::EmptyBuildingName);
        }
        if building.construction_time == 0 {
            return Err(ConfigError::NonPositiveConstructionTime);
        }
        if building.worker_capacity == 0 {
            return Err(ConfigError::NonPositiveWorkerCapacity);
        }
        if building.size.0 == 0 || building.size.1 == 0 {
            return Err(ConfigError::NonPositiveBuildingSize);
        }
        Ok(())
    }

    pub fn validate_recipe(&self, recipe: &RecipeConfig) -> (r: Result<(), ConfigError>)
        ensures
            r == as_result(recipe_error(*recipe)),
    {
        if recipe.name.unicode_len() == 0 {
            return Err(ConfigError::EmptyRecipeName);
        }
        if recipe.production_time == 0 {
            return Err(ConfigError::NonPositiveProductionTime);
        }
        if recipe.outputs.len() == 0 {
            return Err(ConfigError::NoRecipeOutputs);
        }
        if any_zero(&recipe.inputs) {
            return Err(ConfigError::NonPositiveInputAmount);
        }
        if any_zero(&recipe.outputs) {
            return Err(ConfigError::NonPositiveOutputAmount);
        }
        Ok(())
    }

    pub fn validate_worker(&self, worker: &WorkerConfig) -> (r: Result<(), ConfigError>)
        ensures
            r == as_result(worker_error(*worker)),
    {
        if worker.name.unicode_len() == 0 {
            return Err(ConfigError::EmptyWorkerName);
        }
        if worker.movement_speed == 0 {
            return Err(ConfigError::NonPositiveMovementSpeed);
        }
        if worker.carrying_capacity == 0 {
            return Err(ConfigError::NonPositiveCarryingCapacity);
        }
        Ok(())
    }

    /// Accepts building definitions if every one is valid; otherwise reports the first problem
    /// and keeps nothing of them.
    pub fn load_buildings(&mut self, entries: Vec<(String, BuildingConfig)>) -> (r: Result<(), ConfigError>)
        ensures
            final(self).recipes == old(self).recipes,
            final(self).workers == old(self).workers,
            r is Ok <==> forall|i: int| 0 <= i < entries@.len() ==> building_error(#[trigger] entries@[i].1) is None,
            r matches Err(e) ==> exists|i: int|
                0 <= i < entries@.len() && building_error(#[trigger] entries@[i].1) == Some(e) && forall|j: int|
                    0 <= j < i ==> building_error(entries@[j].1) is None,
            r is Err ==> final(self).buildings == old(self).buildings,
            r is Ok ==> forall|k: Seq<char>|
                #[trigger] lookup(final(self).buildings@, k) == merged(old(self).buildings@, entries@, k),
    {
        let mut i: usize = 0;
        while i < entries.len()
            invariant
                i <= entries@.len(),
                forall|j: int| 0 <= j < i ==> building_error(#[trigger] entries@[j].1) is None,
            decreases entries@.len() - i,
        {
            if let Err(e) = self.validate_building(&entries[i].1) {
                return Err(e);
            }
            i = i + 1;
        }
        merge_entries(&mut self.buildings, entries);
        Ok(())
    }

    /// Accepts recipe definitions if every one is valid; otherwise reports the first problem
    /// and keeps nothing of them.
    pub fn load_recipes(&mut self, entries: Vec<(String, RecipeConfig)>) -> (r: Result<(), ConfigError>)
        ensures
            final(self).buildings == old(self).buildings,
            final(self).workers == old(self).workers,
            r is Ok <==> forall|i: int| 0 <= i < entries@.len() ==> recipe_error(#[trigger] entries@[i].1) is None,
            r matches Err(e) ==> exists|i: int|
                0 <= i < entries@.len() && recipe_error(#[trigger] entries@[i].1) == Some(e) && forall|j: int|
                    0 <= j < i ==> recipe_error(entries@[j].1) is None,
            r is Err ==> final(self).recipes == old(self).recipes,
            r is Ok ==> forall|k: Seq<char>|
                #[trigger] lookup(final(self).recipes@, k) == merged(old(self).recipes@, entries@, k),
    {
        let mut i: usize = 0;
        while i < entries.len()
            invariant
                i <= entries@.len(),
                forall|j: int| 0 <= j < i ==> recipe_error(#[trigger] entries@[j].1) is None,
            decreases entries@.len() - i,
        {
            if let Err(e) = self.validate_recipe(&entries[i].1) {
                return Err(e);
            }
            i = i + 1;
        }
        merge_entries(&mut self.recipes, entries);
        Ok(())
    }

    /// Accepts worker definitions if every one is valid; otherwise reports the first problem
    /// and keeps nothing of them.
    pub fn load_workers(&mut self, entries: Vec<(String, WorkerConfig)>) -> (r: Result<(), ConfigError>)
        ensures
            final(self).buildings == old(self).buildings,
            final(self).recipes == old(self).recipes,
            r is Ok <==> forall|i: int| 0 <= i < entries@.len() ==> worker_error(#[trigger] entries@[i].1) is None,
            r matches Err(e) ==> exists|i: int|
                0 <= i < entries@.len() && worker_error(#[trigger] entries@[i].1) == Some(e) && forall|j: int|
                    0 <= j < i ==> worker_error(entries@[j].1) is None,
            r is Err ==> final(self).workers == old(self).workers,
            r is Ok ==> forall|k: Seq<char>|
                #[trigger] lookup(final(self).workers@, k) == merged(old(self).workers@, entries@, k),
    {
        let mut i: usize = 0;
        while i < entries.len()
            invariant
                i <= entries@.len(),
                forall|j: int| 0 <= j < i ==> worker_error(#[trigger] entries@[j].1) is None,
            decreases entries@.len() - i,
        {
            if let Err(e) = self.validate_worker(&entries[i].1) {
                return Err(e);
            }
            i = i + 1;
        }
        merge_entries(&mut self.workers, entries);
        Ok(())
    }

    /// The collected definitions as a configuration.
    pub fn into_config(self, map_generation: MapGenerationConfig) -> (r: GameConfig)
        ensures
            r.buildings == self.buildings,
            r.recipes == self.recipes,
            r.workers == self.workers,
            r.map_generation == map_generation,
    {
        GameConfig { buildings: self.buildings, recipes: self.recipes, workers: self.workers, map_generation }
    }
}

/// Description of a game modification.
#[derive(Clone, Debug)]
pub struct ModInfo {
    pub name: String,
    pub version: String,
    pub description: String,
    pub author: String,
    pub priority: i32,
}

/// Applies modifications on top of a configuration and remembers which were applied.
pub struct ModLoader {
    loaded_mods: Vec<ModInfo>,
}

impl ModLoader {
    pub closed spec fn loaded(&self) -> Seq<ModInfo> {
        self.loaded_mods@
    }

    pub fn new() -> (r: Self)
        ensures
            r.loaded().len() == 0,
    {
        ModLoader { loaded_mods: Vec::new() }
    }

    /// Merges a modification's definitions into `config`: each of its buildings, recipes and
    /// workers replaces the one with the same identifier, or is added.
    pub fn apply_mod(&mut self, config: &mut GameConfig, mod_config: GameConfig, mod_info: ModInfo)
        ensures
            final(self).loaded() == old(self).loaded().push(mod_info),
            final(config).map_generation == old(config).map_generation,
            forall|k: Seq<char>|
                #[trigger] lookup(final(config).buildings@, k) == merged(old(config).buildings@, mod_config.buildings@, k),
            forall|k: Seq<char>|
                #[trigger] lookup(final(config).recipes@, k) == merged(old(config).recipes@, mod_config.recipes@, k),
            forall|k: Seq<char>|
                #[trigger] lookup(final(config).workers@, k) == merged(old(config).workers@, mod_config.workers@, k),
    {
        merge_entries(&mut config.buildings, mod_config.buildings);
        merge_entries(&mut config.recipes, mod_config.recipes);
        merge_entries(&mut config.workers, mod_config.workers);
        self.loaded_mods.push(mod_info);
    }

    pub fn get_loaded_mods(&self) -> (r: &[ModInfo])
        ensures
            r@ == self.loaded(),
    {
        self.loaded_mods.as_slice()
    }
}

} // verus!
