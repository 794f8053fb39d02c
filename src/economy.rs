use crate::config::{GameConfig, RecipeConfig};
use crate::stockpile::str_eq;
use vstd::prelude::*;

verus! {

/// Whether a list of (item, quantity) entries names `item`.
pub open spec fn names(items: Seq<(String, u32)>, item: Seq<char>) -> bool {
    exists|i: int| 0 <= i < items.len() && items[i].0@ == item
}

/// Recipe `a` needs an item that recipe `b` makes.
pub open spec fn depends_on(recipes: Seq<(String, RecipeConfig)>, a: int, b: int) -> bool {
    exists|i: int|
        0 <= i < recipes[a].1.inputs@.len() && names(recipes[b].1.outputs@, #[trigger] recipes[a].1.inputs@[i].0@)
}

/// The recipe indices of `c` form a closed chain of dependencies: each recipe needs an item
/// the next one makes, and the last needs one the first makes.
pub open spec fn is_cycle(recipes: Seq<(String, RecipeConfig)>, c: Seq<usize>) -> bool {
    &&& c.len() > 0
    &&& forall|i: int| 0 <= i < c.len() ==> (#[trigger] c[i]) < recipes.len()
    &&& forall|i: int| 0 <= i < c.len() - 1 ==> #[trigger] depends_on(recipes, c[i] as int, c[i + 1] as int)
    &&& depends_on(recipes, c.last() as int, c[0] as int)
}

/// What the production graph of a configuration looks like.
#[derive(Debug)]
pub struct ProductionGraphAnalysis {
    /// For each recipe with inputs: its id and the items it needs.
    pub dependencies: Vec<(String, Vec<String>)>,
    /// For each item some recipe makes: the item and the ids of the recipes making it.
    pub producers: Vec<(String, Vec<String>)>,
    /// Chains of recipe ids that depend on one another in a circle.
    pub cycles: Vec<Vec<String>>,
    /// Ids of the recipes that need no input.
    pub resource_sources: Vec<String>,
    /// Items some recipe needs and no recipe makes.
    pub resource_sinks: Vec<String>,
}

pub open spec fn has_key(entries: Seq<(String, Vec<String>)>, k: Seq<char>) -> bool {
    exists|i: int| 0 <= i < entries.len() && entries[i].0@ == k
}

impl ProductionGraphAnalysis {
    pub fn new() -> (r: Self)
        ensures
            r.dependencies@.len() == 0,
            r.producers@.len() == 0,
            r.cycles@.len() == 0,
            r.resource_sources@.len() == 0,
            r.resource_sinks@.len() == 0,
    {
        ProductionGraphAnalysis {
            dependencies: Vec::new(),
            producers: Vec::new(),
            cycles: Vec::new(),
            resource_sources: Vec::new(),
            resource_sinks: Vec::new(),
        }
    }

    pub fn has_cycles(&self) -> (r: bool)
        ensures
            r == (self.cycles@.len() > 0),
    {
        self.cycles.len() > 0
    }

    /// Whether some recipe makes `resource`.
    pub fn is_resource_available(&self, resource: &str) -> (r: bool)
        ensures
            r == has_key(self.producers@, resource@),
    {
        let mut i: usize = 0;
        while i < self.producers.len()
            invariant
                i <= self.producers@.len(),
                forall|j: int| 0 <= j < i ==> self.producers@[j].0@ != resource@,
            decreases self.producers@.len() - i,
        {
            if str_eq(self.producers[i].0.as_str(), resource) {
                return true;
            }
            i = i + 1;
        }
        false
    }
}

fn position_in(items: &Vec<(String, Vec<String>)>, key: &str) -> (r: Option<usize>)
    ensures
        r matches Some(i) ==> i < items@.len() && items@[i as int].0@ == key@,
        r is None ==> !has_key(items@, key@),
{
    let mut i: usize = 0;
    while i < items.len()
        invariant
            i <= items@.len(),
            forall|j: int| 0 <= j < i ==> items@[j].0@ != key@,
        decreases items@.len() - i,
    {
        if str_eq(items[i].0.as_str(), key) {
            return Some(i);
        }
        i = i + 1;
    }
    None
}

fn contains_str(items: &Vec<String>, key: &str) -> (r: bool)
    ensures
        r == exists|i: int| 0 <= i < items@.len() && items@[i]@ == key@,
{
    let mut i: usize = 0;
    while i < items.len()
        invariant
            i <= items@.len(),
            forall|j: int| 0 <= j < i ==> items@[j]@ != key@,
        decreases items@.len() - i,
    {
        if str_eq(items[i].as_str(), key) {
            return true;
        }
        i = i + 1;
    }
    false
}

/// The list kept under `k` holds `v`.
pub open spec fn in_group(g: Seq<(String, Vec<String>)>, k: Seq<char>, v: Seq<char>) -> bool {
    exists|i: int, j: int|
        #![trigger g[i].1@[j]]
        0 <= i < g.len() && g[i].0@ == k && 0 <= j < g[i].1@.len() && g[i].1@[j]@ == v
}

/// Adds `value` to the list kept under `key`, creating the list if needed; a value already in
/// the list is not added twice.
fn add_to_group(groups: &mut Vec<(String, Vec<String>)>, key: &String, value: &String)
    ensures
        has_key(final(groups)@, key@),
        forall|k: Seq<char>| has_key(old(groups)@, k) ==> has_key(final(groups)@, k),
        forall|k: Seq<char>| has_key(final(groups)@, k) ==> has_key(old(groups)@, k) || k == key@,
        forall|k: Seq<char>, v: Seq<char>|
            #[trigger] in_group(final(groups)@, k, v) <==> in_group(old(groups)@, k, v) || (k == key@ && v == value@),
{
    let ghost before = groups@;
    match position_in(groups, key.as_str()) {
        Some(i) => {
            if !contains_str(&groups[i].1, value.as_str()) {
                let ghost n = groups@[i as int].1@.len();
                groups[i].1.push(value.clone());
                assert forall|k: Seq<char>| has_key(before, k) implies has_key(groups@, k) by {
                    let j = choose|j: int| 0 <= j < before.len() && before[j].0@ == k;
                    assert(groups@[j].0 == before[j].0);
                }
                assert forall|k: Seq<char>| has_key(groups@, k) implies has_key(before, k) by {
                    let j = choose|j: int| 0 <= j < groups@.len() && groups@[j].0@ == k;
                    assert(groups@[j].0 == before[j].0);
                }
                assert forall|k: Seq<char>, v: Seq<char>|
                    #[trigger] in_group(groups@, k, v) <==> in_group(before, k, v) || (k == key@ && v == value@) by {
                    if in_group(before, k, v) {
                        let (a, b) = choose|a: int, b: int|
                            #![trigger before[a].1@[b]]
                            0 <= a < before.len() && before[a].0@ == k && 0 <= b < before[a].1@.len() && before[a].1@[b]@ == v;
                        if a == i {
                            assert(groups@[a].1@[b] == before[a].1@[b]);
                        } else {
                            assert(groups@[a] == before[a]);
                        }
                    }
                    if k == key@ && v == value@ {
                        assert(groups@[i as int].1@[n as int]@ == v);
                    }
                    if in_group(groups@, k, v) {
                        let (a, b) = choose|a: int, b: int|
                            #![trigger groups@[a].1@[b]]
                            0 <= a < groups@.len() && groups@[a].0@ == k && 0 <= b < groups@[a].1@.len() && groups@[a].1@[b]@ == v;
                        if a == i && b == n {
                        } else if a == i {
                            assert(groups@[a].1@[b] == before[a].1@[b]);
                        } else {
                            assert(groups@[a] == before[a]);
                        }
                    }
                }
            } else {
                proof {
                    let j = choose|j: int| 0 <= j < groups@[i as int].1@.len() && groups@[i as int].1@[j]@ == value@;
                    assert(groups@[i as int].1@[j]@ == value@);
                }
            }
        },
        None => {
            let mut list: Vec<String> = Vec::new();
            list.push(value.clone());
            groups.push((key.clone(), list));
            let ghost n = before.len();
            assert(groups@[n as int].0@ == key@);
            assert forall|k: Seq<char>| has_key(before, k) implies has_key(groups@, k) by {
                let j = choose|j: int| 0 <= j < before.len() && before[j].0@ == k;
                assert(groups@[j] == before[j]);
            }
            assert forall|k: Seq<char>| has_key(groups@, k) implies has_key(before, k) || k == key@ by {
                let j = choose|j: int| 0 <= j < groups@.len() && groups@[j].0@ == k;
                if j < before.len() {
                    assert(groups@[j] == before[j]);
                }
            }
            assert forall|k: Seq<char>, v: Seq<char>|
                #[trigger] in_group(groups@, k, v) <==> in_group(before, k, v) || (k == key@ && v == value@) by {
                if in_group(before, k, v) {
                    let (a, b) = choose|a: int, b: int|
                        #![trigger before[a].1@[b]]
                        0 <= a < before.len() && before[a].0@ == k && 0 <= b < before[a].1@.len() && before[a].1@[b]@ == v;
                    assert(groups@[a] == before[a]);
                }
                if k == key@ && v == value@ {
                    assert(groups@[n as int].1@[0]@ == v);
                }
                if in_group(groups@, k, v) {
                    let (a, b) = choose|a: int, b: int|
                        #![trigger groups@[a].1@[b]]
                        0 <= a < groups@.len() && groups@[a].0@ == k && 0 <= b < groups@[a].1@.len() && groups@[a].1@[b]@ == v;
                    if a < n {
                        assert(groups@[a] == before[a]);
                    }
                }
            }
        },
    }
}

/// Whether recipe `b` makes item `item`.
fn makes(recipes: &Vec<(String, RecipeConfig)>, b: usize, item: &str) -> (r: bool)
    requires
        b < recipes@.len(),
    ensures
        r == names(recipes@[b as int].1.outputs@, item@),
{
    let outputs = &recipes[b].1.outputs;
    let mut i: usize = 0;
    while i < outputs.len()
        invariant
            outputs@ == recipes@[b as int].1.outputs@,
            i <= outputs@.len(),
            forall|j: int| 0 <= j < i ==> outputs@[j].0@ != item@,
        decreases outputs@.len() - i,
    {
        if str_eq(outputs[i].0.as_str(), item) {
            return true;
        }
        i = i + 1;
    }
    false
}

/// Looks for production cycles.
pub struct EconomyAnalyzer {
    pub config: GameConfig,
}

/// Number of recipes not yet seen by the cycle search.
pub open spec fn unseen(visited: Seq<bool>) -> nat
    decreases visited.len(),
{
    if visited.len() == 0 {
        0
    } else {
        unseen(visited.drop_last()) + (if visited.last() {
            0nat
        } else {
            1
        })
    }
}

proof fn lemma_unseen_mark(v: Seq<bool>, i: int)
    requires
        0 <= i < v.len(),
        !v[i],
    ensures
        unseen(v.update(i, true)) + 1 == unseen(v),
    decreases v.len(),
{
    if i < v.len() - 1 {
        assert(v.update(i, true).drop_last() == v.drop_last().update(i, true));
        lemma_unseen_mark(v.drop_last(), i);
    } else {
        assert(v.update(i, true).drop_last() == v.drop_last());
    }
}

proof fn lemma_unseen_grow(a: Seq<bool>, b: Seq<bool>)
    requires
        a.len() == b.len(),
        forall|i: int| 0 <= i < a.len() && a[i] ==> b[i],
    ensures
        unseen(b) <= unseen(a),
    decreases a.len(),
{
    if a.len() > 0 {
        lemma_unseen_grow(a.drop_last(), b.drop_last());
    }
}

/// The search state of the cycle detection: which recipes were seen, which are on the current
/// chain, the chain itself, and the cycles found, as recipe indices.
struct CycleSearch {
    visited: Vec<bool>,
    on_path: Vec<bool>,
    path: Vec<usize>,
    cycles: Vec<Vec<usize>>,
}

impl CycleSearch {
    spec fn wf(&self, recipes: Seq<(String, RecipeConfig)>) -> bool {
        &&& self.visited@.len() == recipes.len()
        &&& self.on_path@.len() == recipes.len()
        &&& forall|i: int| 0 <= i < self.path@.len() ==> (#[trigger] self.path@[i]) < recipes.len()
        &&& forall|i: int|
            0 <= i < self.path@.len() - 1 ==> #[trigger] depends_on(recipes, self.path@[i] as int, self.path@[i + 1] as int)
        &&& forall|j: int|
            0 <= j < recipes.len() ==> (#[trigger] self.on_path@[j] <==> exists|i: int|
                0 <= i < self.path@.len() && self.path@[i] == j)
        &&& forall|c: int| 0 <= c < self.cycles@.len() ==> is_cycle(recipes, #[trigger] self.cycles@[c]@)
    }

    /// Depth-first search from recipe `r`: follows each input of `r` to the recipes making it,
    /// and records the part of the chain that closes on a recipe already on it.
    fn visit(&mut self, recipes: &Vec<(String, RecipeConfig)>, r: usize)
        requires
            old(self).wf(recipes@),
            r < recipes@.len(),
            !old(self).visited@[r as int],
            !old(self).on_path@[r as int],
            old(self).path@.len() > 0 ==> depends_on(recipes@, old(self).path@.last() as int, r as int),
        ensures
            final(self).wf(recipes@),
            final(self).path@ == old(self).path@,
            final(self).on_path@ == old(self).on_path@,
            final(self).visited@[r as int],
            forall|j: int| 0 <= j < recipes@.len() && old(self).visited@[j] ==> final(self).visited@[j],
        decreases unseen(old(self).visited@),
    {
        let ghost v0 = self.visited@;
        self.visited.set(r, true);
        proof { lemma_unseen_mark(v0, r as int); }
        self.on_path.set(r, true);
        self.path.push(r);
        proof {
            let p = self.path@;
            assert forall|j: int| 0 <= j < recipes@.len() implies (#[trigger] self.on_path@[j] <==> exists|i: int|
                0 <= i < p.len() && p[i] == j) by {
                if j == r {
                    assert(p[p.len() - 1] == r);
                } else if old(self).on_path@[j] {
                    let i = choose|i: int| 0 <= i < old(self).path@.len() && old(self).path@[i] == j;
                    assert(p[i] == j);
                } else {
                    if exists|i: int| 0 <= i < p.len() && p[i] == j {
                        let i = choose|i: int| 0 <= i < p.len() && p[i] == j;
                        assert(old(self).path@[i] == j);
                    }
                }
            }
            assert forall|i: int| 0 <= i < p.len() - 1 implies #[trigger] depends_on(recipes@, p[i] as int, p[i + 1] as int) by {
                if i < p.len() - 2 {
                    assert(p[i] == old(self).path@[i] && p[i + 1] == old(self).path@[i + 1]);
                }
            }
        }
        let n_inputs = recipes[r].1.inputs.len();
        let mut i: usize = 0;
        while i < n_inputs
            invariant
                self.wf(recipes@),
                r < recipes@.len(),
                n_inputs == recipes@[r as int].1.inputs@.len(),
                i <= n_inputs,
                self.path@ == old(self).path@.push(r),
                self.visited@[r as int],
                unseen(self.visited@) < unseen(old(self).visited@),
                forall|j: int| 0 <= j < recipes@.len() && old(self).visited@[j] ==> self.visited@[j],
            decreases n_inputs - i,
        {
            let mut p: usize = 0;
            while p < recipes.len()
                invariant
                    self.wf(recipes@),
                    r < recipes@.len(),
                    i < recipes@[r as int].1.inputs@.len(),
                    p <= recipes@.len(),
                    self.path@ == old(self).path@.push(r),
                    self.visited@[r as int],
                    unseen(self.visited@) < unseen(old(self).visited@),
                    forall|j: int| 0 <= j < recipes@.len() && old(self).visited@[j] ==> self.visited@[j],
                decreases recipes@.len() - p,
            {
                if makes(recipes, p, recipes[r].1.inputs[i].0.as_str()) {
                    proof {
                        assert(depends_on(recipes@, r as int, p as int));
                    }
                    if self.on_path[p] {
                        self.record_cycle(recipes, r, p);
                    } else if !self.visited[p] {
                        let ghost before = self.visited@;
                        self.visit(recipes, p);
                        proof {
                            lemma_unseen_grow(before, self.visited@);
                        }
                    }
                }
                p = p + 1;
            }
            i = i + 1;
        }
        self.path.pop();
        self.on_path.set(r, false);
        proof {
            let p = self.path@;
            assert(p == old(self).path@);
            assert forall|j: int| 0 <= j < recipes@.len() implies (#[trigger] self.on_path@[j] <==> exists|k: int|
                0 <= k < p.len() && p[k] == j) by {
                if j != r {
                    assert(self.on_path@[j] == old(self).on_path@[j]);
                }
            }
            assert(self.on_path@ == old(self).on_path@);
        }
    }

    /// Records the part of the current chain from recipe `p` on, which closes a cycle through
    /// the chain's last recipe `r`.
    fn record_cycle(&mut self, recipes: &Vec<(String, RecipeConfig)>, r: usize, p: usize)
        requires
            old(self).wf(recipes@),
            p < recipes@.len(),
            old(self).on_path@[p as int],
            old(self).path@.len() > 0,
            old(self).path@.last() == r,
            depends_on(recipes@, r as int, p as int),
        ensures
            final(self).wf(recipes@),
            final(self).path == old(self).path,
            final(self).on_path == old(self).on_path,
            final(self).visited == old(self).visited,
    {
        let ghost path = self.path@;
        let mut start: usize = 0;
        while start < self.path.len() && self.path[start] != p
            invariant
                self.wf(recipes@),
                self.path@ == path,
                p < recipes@.len(),
                self.on_path@[p as int],
                start <= path.len(),
                forall|k: int| 0 <= k < start ==> path[k] != p,
            decreases path.len() - start,
        {
            start = start + 1;
        }
        proof {
            if start >= path.len() {
                let k = choose|k: int| 0 <= k < path.len() && path[k] == p;
                assert(path[k] != p);
            }
        }
        let mut cycle: Vec<usize> = Vec::new();
        let mut k: usize = start;
        while k < self.path.len()
            invariant
                self.wf(recipes@),
                self.path@ == path,
                start < path.len(),
                path[start as int] == p,
                start <= k <= path.len(),
                cycle@ == path.subrange(start as int, k as int),
            decreases path.len() - k,
        {
            cycle.push(self.path[k]);
            k = k + 1;
        }
        proof {
            let c = cycle@;
            assert(c == path.subrange(start as int, path.len() as int));
            assert(c.last() == path.last());
            assert forall|i: int| 0 <= i < c.len() - 1 implies #[trigger] depends_on(recipes@, c[i] as int, c[i + 1] as int) by {
                assert(c[i] == path[start + i] && c[i + 1] == path[start + i + 1]);
            }
            assert forall|i: int| 0 <= i < c.len() implies (#[trigger] c[i]) < recipes@.len() by {
                assert(c[i] == path[start + i]);
            }
            assert(is_cycle(recipes@, c));
        }
        let ghost found = self.cycles@;
        let ghost before = *self;
        self.cycles.push(cycle);
        assert(self.path == before.path && self.on_path == before.on_path && self.visited == before.visited);
        proof {
            assert forall|m: int| 0 <= m < self.cycles@.len() implies is_cycle(recipes@, #[trigger] self.cycles@[m]@) by {
                if m < found.len() {
                    assert(self.cycles@[m] == found[m]);
                }
            }
        }
    }
}

/// The recipe ids along a cycle of recipe indices.
pub open spec fn ids_match(recipes: Seq<(String, RecipeConfig)>, ids: Seq<String>, c: Seq<usize>) -> bool {
    ids.len() == c.len() && forall|i: int| 0 <= i < c.len() ==> (#[trigger] ids[i])@ == recipes[c[i] as int].0@
}

/// Some recipe needs the item and no recipe makes it.
pub open spec fn is_sink(recipes: Seq<(String, RecipeConfig)>, k: Seq<char>) -> bool {
    &&& exists|j: int| 0 <= j < recipes.len() && #[trigger] names(recipes[j].1.inputs@, k)
    &&& forall|j: int| 0 <= j < recipes.len() ==> !#[trigger] names(recipes[j].1.outputs@, k)
}

/// For each item some recipe makes, the ids of the recipes making it.
fn collect_producers(recipes: &Vec<(String, RecipeConfig)>) -> (r: Vec<(String, Vec<String>)>)
    ensures
        forall|k: Seq<char>|
            has_key(r@, k) <==> exists|j: int| 0 <= j < recipes@.len() && #[trigger] names(recipes@[j].1.outputs@, k),
        forall|k: Seq<char>, v: Seq<char>|
            #[trigger] in_group(r@, k, v) <==> exists|j: int|
                0 <= j < recipes@.len() && recipes@[j].0@ == v && #[trigger] names(recipes@[j].1.outputs@, k),
{
    let mut groups: Vec<(String, Vec<String>)> = Vec::new();
    let mut j: usize = 0;
    while j < recipes.len()
        invariant
            j <= recipes@.len(),
            forall|k: Seq<char>|
                has_key(groups@, k) <==> exists|m: int| 0 <= m < j && #[trigger] names(recipes@[m].1.outputs@, k),
            forall|k: Seq<char>, v: Seq<char>|
                #[trigger] in_group(groups@, k, v) <==> exists|m: int|
                    0 <= m < j && recipes@[m].0@ == v && #[trigger] names(recipes@[m].1.outputs@, k),
        decreases recipes@.len() - j,
    {
        let id = &recipes[j].0;
        let outputs = &recipes[j].1.outputs;
        let mut o: usize = 0;
        while o < outputs.len()
            invariant
                j < recipes@.len(),
                outputs@ == recipes@[j as int].1.outputs@,
                o <= outputs@.len(),
                forall|k: Seq<char>|
                    has_key(groups@, k) <==> (exists|m: int| 0 <= m < j && #[trigger] names(recipes@[m].1.outputs@, k))
                        || exists|q: int| 0 <= q < o && outputs@[q].0@ == k,
                id == recipes@[j as int].0,
                forall|k: Seq<char>, v: Seq<char>|
                    #[trigger] in_group(groups@, k, v) <==> (exists|m: int|
                        0 <= m < j && recipes@[m].0@ == v && #[trigger] names(recipes@[m].1.outputs@, k)) || (v == id@
                        && exists|q: int| 0 <= q < o && outputs@[q].0@ == k),
            decreases outputs@.len() - o,
        {
            add_to_group(&mut groups, &outputs[o].0, id);
            o = o + 1;
        }
        assert forall|k: Seq<char>| has_key(groups@, k) <==> exists|m: int|
            0 <= m < j + 1 && #[trigger] names(recipes@[m].1.outputs@, k) by {
            if names(recipes@[j as int].1.outputs@, k) {
                let q = choose|q: int| 0 <= q < outputs@.len() && outputs@[q].0@ == k;
            }
        }
        assert forall|k: Seq<char>, v: Seq<char>| #[trigger] in_group(groups@, k, v) <==> exists|m: int|
            0 <= m < j + 1 && recipes@[m].0@ == v && #[trigger] names(recipes@[m].1.outputs@, k) by {
            if names(recipes@[j as int].1.outputs@, k) {
                let q = choose|q: int| 0 <= q < outputs@.len() && outputs@[q].0@ == k;
            }
        }
        j = j + 1;
    }
    groups
}

/// For each recipe with inputs, its id and the items it needs.
fn collect_dependencies(recipes: &Vec<(String, RecipeConfig)>) -> (r: Vec<(String, Vec<String>)>)
    ensures
        forall|k: Seq<char>|
            #[trigger] has_key(r@, k) <==> exists|j: int|
                0 <= j < recipes@.len() && recipes@[j].0@ == k && recipes@[j].1.inputs@.len() > 0,
        forall|k: Seq<char>, v: Seq<char>|
            #[trigger] in_group(r@, k, v) <==> exists|j: int|
                0 <= j < recipes@.len() && recipes@[j].0@ == k && #[trigger] names(recipes@[j].1.inputs@, v),
{
    let mut groups: Vec<(String, Vec<String>)> = Vec::new();
    let mut j: usize = 0;
    while j < recipes.len()
        invariant
            j <= recipes@.len(),
            forall|k: Seq<char>|
                #[trigger] has_key(groups@, k) <==> exists|m: int|
                    0 <= m < j && recipes@[m].0@ == k && recipes@[m].1.inputs@.len() > 0,
            forall|k: Seq<char>, v: Seq<char>|
                #[trigger] in_group(groups@, k, v) <==> exists|m: int|
                    0 <= m < j && recipes@[m].0@ == k && #[trigger] names(recipes@[m].1.inputs@, v),
        decreases recipes@.len() - j,
    {
        let id = &recipes[j].0;
        let inputs = &recipes[j].1.inputs;
        let mut q: usize = 0;
        while q < inputs.len()
            invariant
                j < recipes@.len(),
                id == recipes@[j as int].0,
                inputs@ == recipes@[j as int].1.inputs@,
                q <= inputs@.len(),
                forall|k: Seq<char>|
                    #[trigger] has_key(groups@, k) <==> (exists|m: int|
                        0 <= m < j && recipes@[m].0@ == k && recipes@[m].1.inputs@.len() > 0) || (q > 0 && k == id@),
                forall|k: Seq<char>, v: Seq<char>|
                    #[trigger] in_group(groups@, k, v) <==> (exists|m: int|
                        0 <= m < j && recipes@[m].0@ == k && #[trigger] names(recipes@[m].1.inputs@, v)) || (k == id@
                        && exists|p: int| 0 <= p < q && inputs@[p].0@ == v),
            decreases inputs@.len() - q,
        {
            add_to_group(&mut groups, id, &inputs[q].0);
            q = q + 1;
        }
        assert forall|k: Seq<char>| #[trigger] has_key(groups@, k) <==> exists|m: int|
            0 <= m < j + 1 && recipes@[m].0@ == k && recipes@[m].1.inputs@.len() > 0 by {
            if k == id@ && inputs@.len() > 0 {
                assert(recipes@[j as int].0@ == k);
            }
        }
        assert forall|k: Seq<char>, v: Seq<char>| #[trigger] in_group(groups@, k, v) <==> exists|m: int|
            0 <= m < j + 1 && recipes@[m].0@ == k && #[trigger] names(recipes@[m].1.inputs@, v) by {
            if k == id@ && names(recipes@[j as int].1.inputs@, v) {
                let p = choose|p: int| 0 <= p < inputs@.len() && inputs@[p].0@ == v;
            }
        }
        j = j + 1;
    }
    groups
}

/// `k` is the id of a recipe, among the first `n`, that needs no input.
pub open spec fn source_among(recipes: Seq<(String, RecipeConfig)>, n: int, k: Seq<char>) -> bool {
    exists|j: int| 0 <= j < n && recipes[j].1.inputs@.len() == 0 && #[trigger] recipes[j].0@ == k
}

pub open spec fn listed(items: Seq<String>, k: Seq<char>) -> bool {
    exists|i: int| 0 <= i < items.len() && #[trigger] items[i]@ == k
}

/// Ids of the recipes that need no input, in recipe order.
fn collect_sources(recipes: &Vec<(String, RecipeConfig)>) -> (r: Vec<String>)
    ensures
        forall|i: int| 0 <= i < r@.len() ==> source_among(recipes@, recipes@.len() as int, (#[trigger] r@[i])@),
        forall|j: int|
            0 <= j < recipes@.len() && recipes@[j].1.inputs@.len() == 0 ==> listed(r@, (#[trigger] recipes@[j]).0@),
{
    let mut out: Vec<String> = Vec::new();
    let mut j: usize = 0;
    while j < recipes.len()
        invariant
            j <= recipes@.len(),
            forall|i: int| 0 <= i < out@.len() ==> source_among(recipes@, j as int, (#[trigger] out@[i])@),
            forall|m: int| 0 <= m < j && recipes@[m].1.inputs@.len() == 0 ==> listed(out@, (#[trigger] recipes@[m]).0@),
        decreases recipes@.len() - j,
    {
        let ghost before = out@;
        if recipes[j].1.inputs.len() == 0 {
            out.push(recipes[j].0.clone());
            proof {
                assert(out@[out@.len() - 1]@ == recipes@[j as int].0@);
            }
        }
        proof {
            let s = out@;
            assert forall|i: int| 0 <= i < s.len() implies source_among(recipes@, j + 1, (#[trigger] s[i])@) by {
                if i < before.len() {
                    assert(s[i] == before[i]);
                    let m = choose|m: int| 0 <= m < j && recipes@[m].1.inputs@.len() == 0 && #[trigger] recipes@[m].0@ == before[i]@;
                    assert(recipes@[m].0@ == s[i]@);
                } else {
                    assert(recipes@[j as int].0@ == s[i]@);
                }
            }
            assert forall|m: int| 0 <= m < j + 1 && recipes@[m].1.inputs@.len() == 0 implies listed(s, (#[trigger] recipes@[m]).0@) by {
                if m < j {
                    let i = choose|i: int| 0 <= i < before.len() && #[trigger] before[i]@ == recipes@[m].0@;
                    assert(s[i] == before[i]);
                } else {
                    assert(s[s.len() - 1]@ == recipes@[j as int].0@);
                }
            }
        }
        j = j + 1;
    }
    out
}

/// Whether some recipe makes `item`.
fn anyone_makes(recipes: &Vec<(String, RecipeConfig)>, item: &str) -> (r: bool)
    ensures
        r == exists|j: int| 0 <= j < recipes@.len() && #[trigger] names(recipes@[j].1.outputs@, item@),
{
    let mut j: usize = 0;
    while j < recipes.len()
        invariant
            j <= recipes@.len(),
            forall|m: int| 0 <= m < j ==> !#[trigger] names(recipes@[m].1.outputs@, item@),
        decreases recipes@.len() - j,
    {
        if makes(recipes, j, item) {
            return true;
        }
        j = j + 1;
    }
    false
}

/// Items some recipe needs and no recipe makes, each once.
fn collect_sinks(recipes: &Vec<(String, RecipeConfig)>) -> (r: Vec<String>)
    ensures
        forall|i: int| 0 <= i < r@.len() ==> is_sink(recipes@, (#[trigger] r@[i])@),
        forall|k: Seq<char>| #[trigger] is_sink(recipes@, k) ==> listed(r@, k),
{
    let mut out: Vec<String> = Vec::new();
    let mut j: usize = 0;
    while j < recipes.len()
        invariant
            j <= recipes@.len(),
            forall|i: int| 0 <= i < out@.len() ==> is_sink(recipes@, (#[trigger] out@[i])@),
            forall|k: Seq<char>|
                is_sink(recipes@, k) && (exists|m: int| 0 <= m < j && #[trigger] names(recipes@[m].1.inputs@, k))
                    ==> exists|i: int| 0 <= i < out@.len() && (#[trigger] out@[i])@ == k,
        decreases recipes@.len() - j,
    {
        let inputs = &recipes[j].1.inputs;
        let mut q: usize = 0;
        while q < inputs.len()
            invariant
                j < recipes@.len(),
                inputs@ == recipes@[j as int].1.inputs@,
                q <= inputs@.len(),
                forall|i: int| 0 <= i < out@.len() ==> is_sink(recipes@, (#[trigger] out@[i])@),
                forall|k: Seq<char>|
                    is_sink(recipes@, k) && ((exists|m: int| 0 <= m < j && #[trigger] names(recipes@[m].1.inputs@, k))
                        || exists|p: int| 0 <= p < q && inputs@[p].0@ == k) ==> exists|i: int|
                        0 <= i < out@.len() && (#[trigger] out@[i])@ == k,
            decreases inputs@.len() - q,
        {
            let item = &inputs[q].0;
            let ghost before = out@;
            proof {
                assert(names(recipes@[j as int].1.inputs@, item@));
            }
            if !anyone_makes(recipes, item.as_str()) && !contains_str(&out, item.as_str()) {
                out.push(item.clone());
            }
            proof {
                let s = out@;
                assert forall|i: int| 0 <= i < s.len() implies is_sink(recipes@, (#[trigger] s[i])@) by {
                    if i < before.len() {
                        assert(s[i] == before[i]);
                    }
                }
                assert forall|k: Seq<char>|
                    is_sink(recipes@, k) && ((exists|m: int| 0 <= m < j && #[trigger] names(recipes@[m].1.inputs@, k))
                        || exists|p: int| 0 <= p < q + 1 && inputs@[p].0@ == k) implies exists|i: int|
                        0 <= i < s.len() && (#[trigger] s[i])@ == k by {
                    if (exists|m: int| 0 <= m < j && #[trigger] names(recipes@[m].1.inputs@, k))
                        || exists|p: int| 0 <= p < q && inputs@[p].0@ == k {
                        let i = choose|i: int| 0 <= i < before.len() && (#[trigger] before[i])@ == k;
                        assert(s[i] == before[i]);
                    } else if s.len() > before.len() {
                        assert(s[s.len() - 1]@ == k);
                    } else {
                        let i = choose|i: int| 0 <= i < before.len() && before[i]@ == item@;
                        assert(s[i] == before[i]);
                    }
                }
            }
            q = q + 1;
        }
        assert forall|k: Seq<char>|
            is_sink(recipes@, k) && (exists|m: int| 0 <= m < j + 1 && #[trigger] names(recipes@[m].1.inputs@, k))
                implies exists|i: int| 0 <= i < out@.len() && (#[trigger] out@[i])@ == k by {
            if names(recipes@[j as int].1.inputs@, k) && !(exists|m: int| 0 <= m < j && #[trigger] names(recipes@[m].1.inputs@, k)) {
                let p = choose|p: int| 0 <= p < inputs@.len() && inputs@[p].0@ == k;
            }
        }
        j = j + 1;
    }
    out
}

impl EconomyAnalyzer {
    pub fn new(config: GameConfig) -> (r: Self)
        ensures
            r.config == config,
    {
        EconomyAnalyzer { config }
    }

    /// Finds circular dependencies by a depth-first search from each recipe that has inputs.
    /// Every chain returned is a cycle.
    fn detect_cycles(&self) -> (r: Vec<Vec<usize>>)
        ensures
            forall|c: int| 0 <= c < r@.len() ==> is_cycle(self.config.recipes@, #[trigger] r@[c]@),
    {
        let recipes = &self.config.recipes;
        let n = recipes.len();
        let mut search = CycleSearch {
            visited: Vec::new(),
            on_path: Vec::new(),
            path: Vec::new(),
            cycles: Vec::new(),
        };
        let mut i: usize = 0;
        while i < n
            invariant
                n == recipes@.len(),
                i <= n,
                search.visited@.len() == i,
                search.on_path@.len() == i,
                forall|j: int| 0 <= j < i ==> !search.visited@[j] && !search.on_path@[j],
                search.path@.len() == 0,
                search.cycles@.len() == 0,
            decreases n - i,
        {
            search.visited.push(false);
            search.on_path.push(false);
            i = i + 1;
        }
        let mut r: usize = 0;
        while r < n
            invariant
                n == recipes@.len(),
                r <= n,
                search.wf(recipes@),
                search.path@.len() == 0,
                forall|j: int| 0 <= j < n ==> !search.on_path@[j],
            decreases n - r,
        {
            if recipes[r].1.inputs.len() > 0 && !search.visited[r] {
                search.visit(recipes, r);
            }
            r = r + 1;
        }
        search.cycles
    }

    /// Which recipes make each item, what each recipe needs, which recipes need nothing, which
    /// needed items nothing makes, and the dependency cycles.
    pub fn analyze_production_graph(&self) -> (r: ProductionGraphAnalysis)
        ensures
            forall|k: Seq<char>|
                has_key(r.producers@, k) <==> exists|j: int|
                    0 <= j < self.config.recipes@.len() && #[trigger] names(self.config.recipes@[j].1.outputs@, k),
            forall|k: Seq<char>, v: Seq<char>|
                #[trigger] in_group(r.producers@, k, v) <==> exists|j: int|
                    0 <= j < self.config.recipes@.len() && self.config.recipes@[j].0@ == v && #[trigger] names(
                        self.config.recipes@[j].1.outputs@,
                        k,
                    ),
            forall|k: Seq<char>, v: Seq<char>|
                #[trigger] in_group(r.dependencies@, k, v) <==> exists|j: int|
                    0 <= j < self.config.recipes@.len() && self.config.recipes@[j].0@ == k && #[trigger] names(
                        self.config.recipes@[j].1.inputs@,
                        v,
                    ),
            forall|k: Seq<char>|
                #[trigger] has_key(r.dependencies@, k) <==> exists|j: int|
                    0 <= j < self.config.recipes@.len() && self.config.recipes@[j].0@ == k
                        && self.config.recipes@[j].1.inputs@.len() > 0,
            forall|i: int|
                0 <= i < r.resource_sources@.len() ==> source_among(
                    self.config.recipes@,
                    self.config.recipes@.len() as int,
                    (#[trigger] r.resource_sources@[i])@,
                ),
            forall|j: int|
                0 <= j < self.config.recipes@.len() && self.config.recipes@[j].1.inputs@.len() == 0 ==> listed(
                    r.resource_sources@,
                    (#[trigger] self.config.recipes@[j]).0@,
                ),
            forall|i: int|
                0 <= i < r.resource_sinks@.len() ==> is_sink(self.config.recipes@, (#[trigger] r.resource_sinks@[i])@),
            forall|k: Seq<char>| #[trigger] is_sink(self.config.recipes@, k) ==> listed(r.resource_sinks@, k),
            forall|c: int|
                0 <= c < r.cycles@.len() ==> exists|ix: Seq<usize>|
                    is_cycle(self.config.recipes@, ix) && ids_match(self.config.recipes@, (#[trigger] r.cycles@[c])@, ix),
            r.cycles@.len() > 0 ==> exists|ix: Seq<usize>| is_cycle(self.config.recipes@, ix),
    {
        let recipes = &self.config.recipes;
        let producers = collect_producers(recipes);
        let dependencies = collect_dependencies(recipes);
        let resource_sources = collect_sources(recipes);
        let resource_sinks = collect_sinks(recipes);
        let cycles = self.detect_cycles();
        let mut named: Vec<Vec<String>> = Vec::new();
        let mut c: usize = 0;
        while c < cycles.len()
            invariant
                c <= cycles@.len(),
                forall|m: int| 0 <= m < cycles@.len() ==> is_cycle(recipes@, #[trigger] cycles@[m]@),
                named@.len() == c,
                forall|m: int| 0 <= m < c ==> ids_match(recipes@, (#[trigger] named@[m])@, cycles@[m]@),
            decreases cycles@.len() - c,
        {
            let chain = &cycles[c];
            let mut ids: Vec<String> = Vec::new();
            let mut k: usize = 0;
            while k < chain.len()
                invariant
                    c < cycles@.len(),
                    chain@ == cycles@[c as int]@,
                    is_cycle(recipes@, chain@),
                    k <= chain@.len(),
                    ids@.len() == k,
                    forall|m: int| 0 <= m < k ==> (#[trigger] ids@[m])@ == recipes@[chain@[m] as int].0@,
                decreases chain@.len() - k,
            {
                ids.push(recipes[chain[k]].0.clone());
                k = k + 1;
            }
            named.push(ids);
            c = c + 1;
        }
        assert forall|m: int| 0 <= m < named@.len() implies exists|ix: Seq<usize>|
            is_cycle(recipes@, ix) && ids_match(recipes@, (#[trigger] named@[m])@, ix) by {
            assert(is_cycle(recipes@, cycles@[m]@));
        }
        proof {
            if named@.len() > 0 {
                assert(is_cycle(recipes@, cycles@[0]@));
            }
        }
        ProductionGraphAnalysis { dependencies, producers, cycles: named, resource_sources, resource_sinks }
    }
}

} // verus!
