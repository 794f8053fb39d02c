use crate::components::Position;
use vstd::prelude::*;

verus! {

/// An entry of the path cache: (origin, destination) and the path between them.
pub type PathEntry = ((Position, Position), Vec<Position>);

/// The cached path for `key`, if any.
pub open spec fn lookup_in(entries: Seq<PathEntry>, key: (Position, Position)) -> Option<Seq<Position>>
    decreases entries.len(),
{
    if entries.len() == 0 {
        None
    } else if entries.last().0 == key {
        Some(entries.last().1@)
    } else {
        lookup_in(entries.drop_last(), key)
    }
}

pub open spec fn keys_distinct(entries: Seq<PathEntry>) -> bool {
    forall|i: int, j: int|
        0 <= i < entries.len() && 0 <= j < entries.len() && i != j ==> entries[i].0 != entries[j].0
}

proof fn lemma_lookup_at(entries: Seq<PathEntry>, i: int)
    requires
        keys_distinct(entries),
        0 <= i < entries.len(),
    ensures
        lookup_in(entries, entries[i].0) == Some(entries[i].1@),
    decreases entries.len(),
{
    if i < entries.len() - 1 {
        assert(entries.drop_last()[i] == entries[i]);
        lemma_lookup_at(entries.drop_last(), i);
    }
}

proof fn lemma_lookup_absent(entries: Seq<PathEntry>, key: (Position, Position))
    requires
        forall|j: int| 0 <= j < entries.len() ==> entries[j].0 != key,
    ensures
        lookup_in(entries, key) is None,
    decreases entries.len(),
{
    if entries.len() > 0 {
        lemma_lookup_absent(entries.drop_last(), key);
    }
}

/// With distinct keys, a lookup finds the entry holding the key, or nothing.
proof fn lemma_lookup_spec(entries: Seq<PathEntry>, key: (Position, Position))
    requires
        keys_distinct(entries),
    ensures
        lookup_in(entries, key) == (if exists|j: int| 0 <= j < entries.len() && entries[j].0 == key {
            Some(entries[choose|j: int| 0 <= j < entries.len() && entries[j].0 == key].1@)
        } else {
            None
        }),
{
    if exists|j: int| 0 <= j < entries.len() && entries[j].0 == key {
        let j = choose|j: int| 0 <= j < entries.len() && entries[j].0 == key;
        lemma_lookup_at(entries, j);
    } else {
        lemma_lookup_absent(entries, key);
    }
}

/// Counter increment that stops at the largest value.
pub open spec fn bumped(n: u64) -> u64 {
    if n < u64::MAX {
        (n + 1) as u64
    } else {
        n
    }
}

/// Every entry other than `key` and `evicted` is as it was.
pub open spec fn kept_except(
    c0: PathfindingCache,
    c1: PathfindingCache,
    key: (Position, Position),
    evicted: (Position, Position),
) -> bool {
    forall|a: Position, b: Position|
        (a, b) != key && (a, b) != evicted ==> #[trigger] c1.cached(a, b) == c0.cached(a, b)
}

/// A bounded cache of computed paths keyed by (origin, destination).
#[derive(Debug)]
pub struct PathfindingCache {
    pub entries: Vec<PathEntry>,
    pub cache_hits: u64,
    pub cache_misses: u64,
    pub max_cache_size: usize,
}

/// Copy of a path.
pub fn copy_path(p: &Vec<Position>) -> (r: Vec<Position>)
    ensures
        r@ == p@,
{
    let mut r: Vec<Position> = Vec::new();
    let mut i: usize = 0;
    while i < p.len()
        invariant
            i <= p@.len(),
            r@ == p@.subrange(0, i as int),
        decreases p@.len() - i,
    {
        r.push(p[i]);
        i = i + 1;
    }
    assert(p@.subrange(0, i as int) == p@);
    r
}

impl PathfindingCache {
    /// Keys are distinct and the cache holds no more than its capacity.
    pub open spec fn wf(&self) -> bool {
        &&& keys_distinct(self.entries@)
        &&& self.entries@.len() <= self.max_cache_size
    }

    /// The cached path for (from, to), if any.
    pub open spec fn cached(&self, from: Position, to: Position) -> Option<Seq<Position>> {
        lookup_in(self.entries@, (from, to))
    }

    pub open spec fn len(&self) -> nat {
        self.entries@.len()
    }

    pub fn new(max_size: usize) -> (r: Self)
        ensures
            r.wf(),
            r.len() == 0,
            r.cache_hits == 0,
            r.cache_misses == 0,
            r.max_cache_size == max_size,
    {
        PathfindingCache { entries: Vec::new(), cache_hits: 0, cache_misses: 0, max_cache_size: max_size }
    }

    fn position_of(&self, from: Position, to: Position) -> (r: Option<usize>)
        requires
            self.wf(),
        ensures
            r matches Some(i) ==> i < self.entries@.len() && self.entries@[i as int].0 == (from, to),
            r is None ==> forall|j: int| 0 <= j < self.entries@.len() ==> self.entries@[j].0 != (from, to),
    {
        let mut i: usize = 0;
        while i < self.entries.len()
            invariant
                i <= self.entries@.len(),
                forall|j: int| 0 <= j < i ==> self.entries@[j].0 != (from, to),
            decreases self.entries@.len() - i,
        {
            let k = self.entries[i].0;
            if k.0 == from && k.1 == to {
                return Some(i);
            }
            i = i + 1;
        }
        None
    }

    /// Returns the cached path for (from, to), counting a hit or a miss.
    pub fn get(&mut self, from: Position, to: Position) -> (r: Option<Vec<Position>>)
        requires
            old(self).wf(),
        ensures
            final(self).wf(),
            final(self).entries@ == old(self).entries@,
            final(self).max_cache_size == old(self).max_cache_size,
            r matches Some(p) ==> old(self).cached(from, to) == Some(p@),
            r is None ==> old(self).cached(from, to) is None,
            final(self).cache_hits == if r is Some { bumped(old(self).cache_hits) } else { old(self).cache_hits },
            final(self).cache_misses == if r is None { bumped(old(self).cache_misses) } else { old(self).cache_misses },
    {
        match self.position_of(from, to) {
            Some(i) => {
                proof { lemma_lookup_at(self.entries@, i as int); }
                if self.cache_hits < u64::MAX {
                    self.cache_hits = self.cache_hits + 1;
                }
                Some(copy_path(&self.entries[i].1))
            },
            None => {
                proof { lemma_lookup_absent(self.entries@, (from, to)); }
                if self.cache_misses < u64::MAX {
                    self.cache_misses = self.cache_misses + 1;
                }
                None
            },
        }
    }

    /// Stores `path` for (from, to). When the cache is full, one other entry is evicted first.
    pub fn insert(&mut self, from: Position, to: Position, path: Vec<Position>)
        requires
            old(self).wf(),
        ensures
            final(self).wf(),
            final(self).len() <= final(self).max_cache_size,
            final(self).max_cache_size == old(self).max_cache_size,
            final(self).cache_hits == old(self).cache_hits,
            final(self).cache_misses == old(self).cache_misses,
            old(self).max_cache_size == 0 ==> final(self).entries@ == old(self).entries@,
            old(self).max_cache_size > 0 ==> final(self).cached(from, to) == Some(path@),
            forall|a: Position, b: Position|
                (a, b) != (from, to) ==> #[trigger] final(self).cached(a, b) == old(self).cached(a, b)
                    || final(self).cached(a, b) is None,
            exists|k: (Position, Position)| #[trigger] kept_except(*old(self), *final(self), (from, to), k),
            old(self).len() < old(self).max_cache_size || old(self).cached(from, to) is Some
                ==> forall|a: Position, b: Position|
                (a, b) != (from, to) ==> #[trigger] final(self).cached(a, b) == old(self).cached(a, b),
    {
        if self.max_cache_size == 0 {
            assert(kept_except(*old(self), *self, (from, to), (from, to)));
            return;
        }
        let ghost before = self.entries@;
        match self.position_of(from, to) {
            Some(i) => {
                let e = ((from, to), path);
                self.entries.set(i, e);
                proof {
                    let after = self.entries@;
                    assert(after == before.update(i as int, e));
                    assert(keys_distinct(after));
                    lemma_lookup_at(after, i as int);
                    assert forall|a: Position, b: Position| (a, b) != (from, to) implies #[trigger] lookup_in(after, (a, b))
                        == lookup_in(before, (a, b)) by {
                        lemma_lookup_spec(after, (a, b));
                        lemma_lookup_spec(before, (a, b));
                        if exists|j: int| 0 <= j < after.len() && after[j].0 == (a, b) {
                            let j = choose|j: int| 0 <= j < after.len() && after[j].0 == (a, b);
                            assert(before[j].0 == (a, b));
                        }
                        if exists|j: int| 0 <= j < before.len() && before[j].0 == (a, b) {
                            let j = choose|j: int| 0 <= j < before.len() && before[j].0 == (a, b);
                            assert(after[j].0 == (a, b));
                        }
                    }
                    assert(kept_except(*old(self), *self, (from, to), (from, to)));
                }
            },
            None => {
                if self.entries.len() >= self.max_cache_size {
                    self.entries.remove(0);
                }
                let ghost mid = self.entries@;
                let e = ((from, to), path);
                self.entries.push(e);
                proof {
                    lemma_lookup_absent(before, (from, to));
                    let after = self.entries@;
                    assert(after.drop_last() == mid);
                    assert(forall|j: int| 0 <= j < mid.len() ==> mid[j].0 != (from, to)) by {
                        assert forall|j: int| 0 <= j < mid.len() implies mid[j].0 != (from, to) by {
                            if before.len() != mid.len() {
                                assert(mid[j] == before[j + 1]);
                            } else {
                                assert(mid[j] == before[j]);
                            }
                        }
                    }
                    assert(keys_distinct(mid)) by {
                        assert forall|i: int, j: int|
                            0 <= i < mid.len() && 0 <= j < mid.len() && i != j implies mid[i].0 != mid[j].0 by {
                            if before.len() != mid.len() {
                                assert(mid[i] == before[i + 1]);
                                assert(mid[j] == before[j + 1]);
                            } else {
                                assert(mid[i] == before[i]);
                                assert(mid[j] == before[j]);
                            }
                        }
                    }
                    assert(keys_distinct(after));
                    assert forall|a: Position, b: Position| (a, b) != (from, to) implies #[trigger] lookup_in(after, (a, b))
                        == lookup_in(before, (a, b)) || lookup_in(after, (a, b)) is None by {
                        lemma_lookup_spec(mid, (a, b));
                        lemma_lookup_spec(before, (a, b));
                        if exists|j: int| 0 <= j < mid.len() && mid[j].0 == (a, b) {
                            let j = choose|j: int| 0 <= j < mid.len() && mid[j].0 == (a, b);
                            if before.len() != mid.len() {
                                assert(mid[j] == before[j + 1]);
                            } else {
                                assert(mid[j] == before[j]);
                            }
                        }
                    }
                    assert forall|a: Position, b: Position| (a, b) != (from, to) && before.len() < self.max_cache_size
                        implies #[trigger] lookup_in(after, (a, b)) == lookup_in(before, (a, b)) by {
                        assert(mid == before);
                    }
                    if before.len() == mid.len() {
                        assert(kept_except(*old(self), *self, (from, to), (from, to)));
                    } else {
                        let k = before[0].0;
                        assert forall|a: Position, b: Position| (a, b) != (from, to) && (a, b) != k
                            implies #[trigger] lookup_in(after, (a, b)) == lookup_in(before, (a, b)) by {
                            lemma_lookup_spec(mid, (a, b));
                            lemma_lookup_spec(before, (a, b));
                            if exists|j: int| 0 <= j < mid.len() && mid[j].0 == (a, b) {
                                let j = choose|j: int| 0 <= j < mid.len() && mid[j].0 == (a, b);
                                if before.len() != mid.len() {
                                    assert(mid[j] == before[j + 1]);
                                } else {
                                    assert(mid[j] == before[j]);
                                }
                            }
                            if exists|j: int| 0 <= j < before.len() && before[j].0 == (a, b) {
                                let j = choose|j: int| 0 <= j < before.len() && before[j].0 == (a, b);
                                if before.len() != mid.len() {
                                    assert(j != 0);
                                    assert(mid[j - 1] == before[j]);
                                } else {
                                    assert(mid[j] == before[j]);
                                }
                            }
                        }
                        assert(kept_except(*old(self), *self, (from, to), k));
                    }
                }
            },
        }
    }

    /// Drops every cached path.
    pub fn clear(&mut self)
        ensures
            final(self).wf(),
            final(self).len() == 0,
            forall|a: Position, b: Position| #[trigger] final(self).cached(a, b) is None,
            final(self).max_cache_size == old(self).max_cache_size,
            final(self).cache_hits == old(self).cache_hits,
            final(self).cache_misses == old(self).cache_misses,
    {
        self.entries = Vec::new();
    }

    /// Share of lookups that were hits, in percent (0 before any lookup).
    pub fn hit_rate(&self) -> (r: u64)
        ensures
            self.cache_hits as nat + self.cache_misses as nat == 0 ==> r == 0,
            self.cache_hits as nat + self.cache_misses as nat > 0 ==> r as nat == (self.cache_hits as nat * 100)
                / (self.cache_hits as nat + self.cache_misses as nat),
    {
        let total: u128 = self.cache_hits as u128 + self.cache_misses as u128;
        if total == 0 {
            0
        } else {
            let h = self.cache_hits as u128;
            let r = h * 100 / total;
            assert(r <= 100) by (nonlinear_arith)
                requires
                    h <= total,
                    total > 0,
                    r == (h * 100) as int / total as int,
            ;
            r as u64
        }
    }
}

} // verus!
