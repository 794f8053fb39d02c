use crate::components::{Building, Producer};
use crate::config::RecipeConfig;
use crate::stockpile::{
    count_of, keys_unique, lemma_prefix_lacks_later_key, lemma_prefix_step, lemma_whole_prefix, sum_of, Stockpile,
};
use vstd::prelude::*;

verus! {

/// The stockpile holds at least the required quantity of every input.
pub open spec fn inputs_available(s: Stockpile, inputs: Seq<(String, u32)>) -> bool {
    forall|i: int| 0 <= i < inputs.len() ==> s.count(#[trigger] inputs[i].0@) >= inputs[i].1
}

/// The stockpile has room for the full output of one run.
pub open spec fn outputs_fit(s: Stockpile, outputs: Seq<(String, u32)>) -> bool {
    sum_of(outputs) <= s.space()
}

/// A recipe whose inputs and outputs each name an item once.
pub open spec fn recipe_wf(c: RecipeConfig) -> bool {
    keys_unique(c.inputs@) && keys_unique(c.outputs@)
}

/// Work units one run of a recipe takes: production time in ticks times the worker capacity.
/// Each tick adds one unit per assigned worker, so a full crew finishes in the recipe's time.
pub open spec fn production_units(production_time: u32, tps: u32, worker_capacity: u32) -> nat {
    production_time as nat * tps as nat * worker_capacity as nat
}

/// The quantities named by a list of (item, quantity) entries, entry for entry.
pub open spec fn same_entries(a: Seq<(String, u32)>, b: Seq<(String, u32)>) -> bool {
    a.len() == b.len() && forall|i: int| 0 <= i < a.len() ==> (#[trigger] a[i]).0@ == b[i].0@ && a[i].1 == b[i].1
}

pub fn has_required_inputs(stockpile: &Stockpile, recipe: &RecipeConfig) -> (r: bool)
    requires
        stockpile.wf(),
    ensures
        r == inputs_available(*stockpile, recipe.inputs@),
{
    let mut i: usize = 0;
    while i < recipe.inputs.len()
        invariant
            stockpile.wf(),
            i <= recipe.inputs@.len(),
            forall|j: int| 0 <= j < i ==> stockpile.count(#[trigger] recipe.inputs@[j].0@) >= recipe.inputs@[j].1,
        decreases recipe.inputs@.len() - i,
    {
        if stockpile.get_item_count(recipe.inputs[i].0.as_str()) < recipe.inputs[i].1 {
            return false;
        }
        i = i + 1;
    }
    true
}

/// Sum of the quantities of a list of entries.
pub fn total_amount(items: &Vec<(String, u32)>) -> (r: u128)
    ensures
        r == sum_of(items@),
{
    let mut sum: u128 = 0;
    let mut i: usize = 0;
    while i < items.len()
        invariant
            i <= items@.len(),
            sum == sum_of(items@.subrange(0, i as int)),
            sum <= i * 0xffff_ffffu128,
        decreases items@.len() - i,
    {
        proof { lemma_prefix_step(items@, i as int, Seq::empty()); }
        sum = sum + items[i].1 as u128;
        i = i + 1;
    }
    proof { lemma_whole_prefix(items@); }
    sum
}

pub fn has_space_for_outputs(stockpile: &Stockpile, recipe: &RecipeConfig) -> (r: bool)
    requires
        stockpile.wf(),
    ensures
        r == outputs_fit(*stockpile, recipe.outputs@),
{
    stockpile.available_space() as u128 >= total_amount(&recipe.outputs)
}

/// Finishes one run: takes the inputs, stores the outputs, and resets the producer. Returns
/// the quantities stored, which are the full outputs since the checks before guarantee room.
fn complete_production(producer: &mut Producer, stockpile: &mut Stockpile, recipe: &RecipeConfig) -> (r: Vec<
    (String, u32),
>)
    requires
        old(stockpile).wf(),
        recipe_wf(*recipe),
        inputs_available(*old(stockpile), recipe.inputs@),
        outputs_fit(*old(stockpile), recipe.outputs@),
    ensures
        final(stockpile).wf(),
        final(stockpile).capacity == old(stockpile).capacity,
        forall|k: Seq<char>|
            #[trigger] final(stockpile).count(k) + count_of(recipe.inputs@, k) == old(stockpile).count(k) + count_of(
                recipe.outputs@,
                k,
            ),
        same_entries(r@, recipe.outputs@),
        final(producer).production_progress == 0,
        !final(producer).is_producing,
        final(producer).recipe_id == old(producer).recipe_id,
        final(producer).production_queue == old(producer).production_queue,
{
    let ghost s0 = *stockpile;
    let ghost inputs = recipe.inputs@;
    let ghost outputs = recipe.outputs@;
    let mut i: usize = 0;
    proof { lemma_whole_prefix(inputs); }
    while i < recipe.inputs.len()
        invariant
            stockpile.wf(),
            recipe_wf(*recipe),
            inputs == recipe.inputs@,
            inputs_available(s0, inputs),
            stockpile.capacity == s0.capacity,
            i <= inputs.len(),
            forall|k: Seq<char>| #[trigger] stockpile.count(k) + count_of(inputs.subrange(0, i as int), k) == s0.count(k),
            stockpile.total() + sum_of(inputs.subrange(0, i as int)) == s0.total(),
        decreases inputs.len() - i,
    {
        proof {
            lemma_prefix_lacks_later_key(inputs, i as int, i as int);
            assert(stockpile.count(inputs[i as int].0@) + 0 == s0.count(inputs[i as int].0@));
            assert forall|k: Seq<char>| #![auto] true implies count_of(inputs.subrange(0, i as int + 1), k) == count_of(
                inputs.subrange(0, i as int),
                k,
            ) + (if inputs[i as int].0@ == k {
                inputs[i as int].1 as nat
            } else {
                0
            }) by {
                lemma_prefix_step(inputs, i as int, k);
            }
            lemma_prefix_step(inputs, i as int, Seq::empty());
        }
        stockpile.remove_item(recipe.inputs[i].0.as_str(), recipe.inputs[i].1);
        i = i + 1;
    }
    proof { lemma_whole_prefix(outputs); }
    let mut produced: Vec<(String, u32)> = Vec::new();
    let mut j: usize = 0;
    while j < recipe.outputs.len()
        invariant
            stockpile.wf(),
            recipe_wf(*recipe),
            inputs == recipe.inputs@,
            outputs == recipe.outputs@,
            i == inputs.len(),
            inputs.subrange(0, i as int) == inputs,
            outputs_fit(s0, outputs),
            s0.wf(),
            stockpile.capacity == s0.capacity,
            j <= outputs.len(),
            forall|k: Seq<char>|
                #[trigger] stockpile.count(k) + count_of(inputs, k) == s0.count(k) + count_of(
                    outputs.subrange(0, j as int),
                    k,
                ),
            stockpile.total() + sum_of(inputs) == s0.total() + sum_of(outputs.subrange(0, j as int)),
            same_entries(produced@, outputs.subrange(0, j as int)),
        decreases outputs.len() - j,
    {
        proof {
            lemma_prefix_step(outputs, j as int, Seq::empty());
            assert forall|k: Seq<char>| #![auto] true implies count_of(outputs.subrange(0, j as int + 1), k) == count_of(
                outputs.subrange(0, j as int),
                k,
            ) + (if outputs[j as int].0@ == k {
                outputs[j as int].1 as nat
            } else {
                0
            }) by {
                lemma_prefix_step(outputs, j as int, k);
            }
        }
        assert(sum_of(outputs.subrange(0, j as int)) + outputs[j as int].1 <= sum_of(outputs));
        assert(s0.total() + sum_of(outputs) <= s0.capacity);
        assert(stockpile.total() + outputs[j as int].1 <= stockpile.capacity);
        assert(outputs[j as int].1 <= stockpile.space());
        let name = recipe.outputs[j].0.clone();
        let added = stockpile.add_item(name, recipe.outputs[j].1);
        assert(added == outputs[j as int].1);
        let reported = recipe.outputs[j].0.clone();
        let ghost prev = produced@;
        produced.push((reported, added));
        proof {
            let pre = outputs.subrange(0, j as int);
            let next = outputs.subrange(0, j as int + 1);
            assert forall|m: int| 0 <= m < j + 1 implies (#[trigger] produced@[m]).0@ == next[m].0@ && produced@[m].1
                == next[m].1 by {
                if m < j {
                    assert(produced@[m] == prev[m]);
                    assert(next[m] == pre[m]);
                    assert(prev[m].0@ == pre[m].0@);
                } else {
                    assert(next[m] == outputs[j as int]);
                }
            }
        }
        j = j + 1;
    }
    producer.production_progress = 0;
    producer.is_producing = false;
    produced
}

/// What one tick of production does to a producer, following the checks in order: a building
/// that is unfinished or unstaffed stops; an unknown recipe leaves everything as it is; missing
/// inputs stop and reset; a full stockpile stops; otherwise work advances by one unit per
/// assigned worker, starting from zero if the producer was idle.
pub open spec fn advanced_progress(p: Producer, b: Building) -> nat {
    (if p.is_producing {
        p.production_progress as nat
    } else {
        0
    }) + b.assigned_workers as nat
}

/// What one tick of production does to a producer (`prod0` to `prod1`) and its stockpile (`s0` to
/// `s1`), given the building, the recipe it names (if known) and the tick rate, with `r` the
/// quantities stored when a run completes.
pub open spec fn production_post(
    b: Building,
    prod0: Producer,
    prod1: Producer,
    s0: Stockpile,
    s1: Stockpile,
    recipe: Option<RecipeConfig>,
    tps: u32,
    r: Option<Vec<(String, u32)>>,
) -> bool {
    &&& s1.wf()
    &&& s1.capacity == s0.capacity
    &&& prod1.recipe_id == prod0.recipe_id
    &&& prod1.production_queue == prod0.production_queue
    &&& !(b.is_constructed && b.assigned_workers > 0) ==> {
        &&& r is None
        &&& s1 == s0
        &&& !prod1.is_producing
        &&& prod1.production_progress == prod0.production_progress
    }
    &&& b.is_constructed && b.assigned_workers > 0 && recipe is None ==> {
        &&& r is None
        &&& s1 == s0
        &&& prod1 == prod0
    }
    &&& b.is_constructed && b.assigned_workers > 0 && recipe is Some ==> {
        let c = recipe.unwrap();
        let units = production_units(c.production_time, tps, b.worker_capacity);
        let p = advanced_progress(prod0, b);
        if !inputs_available(s0, c.inputs@) {
            &&& r is None
            &&& s1 == s0
            &&& !prod1.is_producing
            &&& prod1.production_progress == 0
        } else if !outputs_fit(s0, c.outputs@) {
            &&& r is None
            &&& s1 == s0
            &&& !prod1.is_producing
            &&& prod1.production_progress == prod0.production_progress
        } else if p >= units {
            &&& r matches Some(out) && same_entries(out@, c.outputs@)
            &&& forall|k: Seq<char>|
                #[trigger] s1.count(k) + count_of(c.inputs@, k) == s0.count(k) + count_of(c.outputs@, k)
            &&& !prod1.is_producing
            &&& prod1.production_progress == 0
        } else {
            &&& r is None
            &&& s1 == s0
            &&& prod1.is_producing
            &&& prod1.production_progress == p
            &&& p < units
        }
    }
}

/// The recipe a reference points to, as a value.
pub open spec fn recipe_value(recipe: Option<&RecipeConfig>) -> Option<RecipeConfig> {
    match recipe {
        Some(c) => Some(*c),
        None => None,
    }
}

/// One tick of production for a building. Returns the quantities stored when a run completes.
pub fn run_production(
    building: &Building,
    producer: &mut Producer,
    stockpile: &mut Stockpile,
    recipe: Option<&RecipeConfig>,
    tps: u32,
) -> (r: Option<Vec<(String, u32)>>)
    requires
        old(stockpile).wf(),
        recipe matches Some(c) ==> recipe_wf(*c),
    ensures
        production_post(*building, *old(producer), *final(producer), *old(stockpile), *final(stockpile), recipe_value(recipe), tps, r),
{
    if !building.is_constructed || building.assigned_workers == 0 {
        producer.is_producing = false;
        return None;
    }
    let recipe = match recipe {
        Some(c) => c,
        None => {
            return None;
        },
    };
    if !has_required_inputs(stockpile, recipe) {
        producer.is_producing = false;
        producer.production_progress = 0;
        return None;
    }
    if !has_space_for_outputs(stockpile, recipe) {
        producer.is_producing = false;
        return None;
    }
    if !producer.is_producing {
        producer.is_producing = true;
        producer.production_progress = 0;
    }
    let t = recipe.production_time as u128;
    let f = tps as u128;
    let w = building.worker_capacity as u128;
    assert(t * f <= 0xffff_ffff_ffff_ffffu128) by (nonlinear_arith)
        requires
            t <= 0xffff_ffffu128,
            f <= 0xffff_ffffu128,
    ;
    assert(t * f * w <= 0xffff_ffff_ffff_ffffu128 * 0xffff_ffffu128) by (nonlinear_arith)
        requires
            t * f <= 0xffff_ffff_ffff_ffffu128,
            w <= 0xffff_ffffu128,
    ;
    let units: u128 = t * f * w;
    let assigned = building.assigned_workers as u128;
    if producer.production_progress >= units || producer.production_progress + assigned >= units {
        let out = complete_production(producer, stockpile, recipe);
        Some(out)
    } else {
        producer.production_progress = producer.production_progress + assigned;
        None
    }
}

/// Sets a producer to a new recipe, to be started on the next production tick.
pub fn start_production(producer: &mut Producer, recipe_id: String)
    ensures
        final(producer).recipe_id@ == recipe_id@,
        final(producer).production_progress == 0,
        !final(producer).is_producing,
        final(producer).production_queue == old(producer).production_queue,
{
    producer.recipe_id = recipe_id;
    producer.production_progress = 0;
    producer.is_producing = false;
}

} // verus!
