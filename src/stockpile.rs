use vstd::prelude::*;

verus! {

/// Quantity held of `item` in a list of (item, quantity) entries.
pub open spec fn count_of(items: Seq<(String, u32)>, item: Seq<char>) -> nat
    decreases items.len(),
{
    if items.len() == 0 {
        0
    } else {
        let rest = count_of(items.drop_last(), item);
        if items.last().0@ == item {
            rest + items.last().1 as nat
        } else {
            rest
        }
    }
}

/// Sum of all quantities in a list of (item, quantity) entries.
pub open spec fn sum_of(items: Seq<(String, u32)>) -> nat
    decreases items.len(),
{
    if items.len() == 0 {
        0
    } else {
        sum_of(items.drop_last()) + items.last().1 as nat
    }
}

/// No item name appears twice.
pub open spec fn keys_unique(items: Seq<(String, u32)>) -> bool {
    forall|i: int, j: int|
        0 <= i < items.len() && 0 <= j < items.len() && i != j ==> items[i].0@ != items[j].0@
}

proof fn lemma_count_at(items: Seq<(String, u32)>, i: int)
    requires
        keys_unique(items),
        0 <= i < items.len(),
    ensures
        count_of(items, items[i].0@) == items[i].1 as nat,
    decreases items.len(),
{
    if i == items.len() - 1 {
        lemma_count_absent(items.drop_last(), items[i].0@);
    } else {
        assert(items.drop_last()[i] == items[i]);
        lemma_count_at(items.drop_last(), i);
    }
}

proof fn lemma_count_absent(items: Seq<(String, u32)>, item: Seq<char>)
    requires
        forall|j: int| 0 <= j < items.len() ==> items[j].0@ != item,
    ensures
        count_of(items, item) == 0,
    decreases items.len(),
{
    if items.len() > 0 {
        lemma_count_absent(items.drop_last(), item);
    }
}

proof fn lemma_update(items: Seq<(String, u32)>, i: int, e: (String, u32), item: Seq<char>)
    requires
        0 <= i < items.len(),
        items[i].0@ == e.0@,
    ensures
        sum_of(items.update(i, e)) + items[i].1 == sum_of(items) + e.1,
        count_of(items.update(i, e), item) + (if item == e.0@ { items[i].1 as nat } else { 0 })
            == count_of(items, item) + (if item == e.0@ { e.1 as nat } else { 0 }),
    decreases items.len(),
{
    let u = items.update(i, e);
    if i == items.len() - 1 {
        assert(u.drop_last() == items.drop_last());
    } else {
        assert(u.drop_last() == items.drop_last().update(i, e));
        lemma_update(items.drop_last(), i, e, item);
    }
}

proof fn lemma_entry_le_sum(items: Seq<(String, u32)>, i: int)
    requires
        0 <= i < items.len(),
    ensures
        items[i].1 <= sum_of(items),
    decreases items.len(),
{
    if i < items.len() - 1 {
        assert(items.drop_last()[i] == items[i]);
        lemma_entry_le_sum(items.drop_last(), i);
    }
}

proof fn lemma_push(items: Seq<(String, u32)>, e: (String, u32), item: Seq<char>)
    ensures
        sum_of(items.push(e)) == sum_of(items) + e.1,
        count_of(items.push(e), item) == count_of(items, item) + (if item == e.0@ {
            e.1 as nat
        } else {
            0
        }),
{
    assert(items.push(e).drop_last() == items);
}

proof fn lemma_remove(items: Seq<(String, u32)>, i: int, item: Seq<char>)
    requires
        0 <= i < items.len(),
    ensures
        sum_of(items.remove(i)) + items[i].1 == sum_of(items),
        count_of(items.remove(i), item) + (if item == items[i].0@ { items[i].1 as nat } else { 0 })
            == count_of(items, item),
    decreases items.len(),
{
    let r = items.remove(i);
    if i == items.len() - 1 {
        assert(r == items.drop_last());
    } else {
        assert(r.drop_last() == items.drop_last().remove(i));
        assert(r.last() == items.last());
        lemma_remove(items.drop_last(), i, item);
    }
}

/// Bounded storage of named items.
#[derive(Clone, Debug)]
pub struct Stockpile {
    pub capacity: u32,
    pub items: Vec<(String, u32)>,
}

impl Stockpile {
    /// Keys are unique, no entry is empty, and the total stays within capacity.
    pub open spec fn wf(&self) -> bool {
        &&& keys_unique(self.items@)
        &&& forall|i: int| 0 <= i < self.items@.len() ==> self.items@[i].1 > 0
        &&& sum_of(self.items@) <= self.capacity
    }

    pub open spec fn count(&self, item: Seq<char>) -> nat {
        count_of(self.items@, item)
    }

    pub open spec fn total(&self) -> nat {
        sum_of(self.items@)
    }

    pub open spec fn space(&self) -> nat {
        (self.capacity - self.total()) as nat
    }

    /// Whether the stockpile is well formed, as it must be when read back from storage.
    pub fn is_consistent(&self) -> (r: bool)
        ensures
            r == self.wf(),
    {
        let mut sum: u64 = 0;
        let mut i: usize = 0;
        while i < self.items.len()
            invariant
                i <= self.items@.len(),
                sum == sum_of(self.items@.subrange(0, i as int)),
                sum <= self.capacity,
                forall|j: int| 0 <= j < i ==> self.items@[j].1 > 0,
                forall|a: int, b: int| 0 <= a < i && 0 <= b < i && a != b ==> self.items@[a].0@ != self.items@[b].0@,
            decreases self.items@.len() - i,
        {
            proof { lemma_sum_prefix(self.items@, i as int + 1); }
            if self.items[i].1 == 0 {
                return false;
            }
            let mut k: usize = 0;
            while k < i
                invariant
                    i < self.items@.len(),
                    k <= i,
                    forall|j: int| 0 <= j < k ==> self.items@[j].0@ != self.items@[i as int].0@,
                decreases i - k,
            {
                if str_eq(self.items[k].0.as_str(), self.items[i].0.as_str()) {
                    return false;
                }
                k = k + 1;
            }
            sum = sum + self.items[i].1 as u64;
            if sum > self.capacity as u64 {
                proof {
                    assert(forall|n: int| i + 1 <= n <= self.items@.len() ==> sum_of(self.items@.subrange(0, n)) >= sum) by {
                        assert forall|n: int| i + 1 <= n <= self.items@.len() implies sum_of(self.items@.subrange(0, n)) >= sum by {
                            lemma_prefix_monotone(self.items@, i as int + 1, n);
                        }
                    }
                    assert(self.items@.subrange(0, self.items@.len() as int) == self.items@);
                }
                return false;
            }
            i = i + 1;
        }
        assert(self.items@.subrange(0, i as int) == self.items@);
        true
    }

    pub fn new(capacity: u32) -> (r: Self)
        ensures
            r.wf(),
            r.capacity == capacity,
            r.total() == 0,
            forall|item: Seq<char>| r.count(item) == 0,
    {
        Stockpile { capacity, items: Vec::new() }
    }

    pub fn total_items(&self) -> (r: u32)
        requires
            self.wf(),
        ensures
            r == self.total(),
            r <= self.capacity,
    {
        let mut sum: u32 = 0;
        let mut i: usize = 0;
        while i < self.items.len()
            invariant
                self.wf(),
                i <= self.items@.len(),
                sum == sum_of(self.items@.subrange(0, i as int)),
            decreases self.items@.len() - i,
        {
            proof {
                let s = self.items@.subrange(0, i as int + 1);
                assert(s.drop_last() == self.items@.subrange(0, i as int));
                lemma_sum_prefix(self.items@, i as int + 1);
            }
            sum = sum + self.items[i].1;
            i = i + 1;
        }
        assert(self.items@.subrange(0, i as int) == self.items@);
        sum
    }

    pub fn available_space(&self) -> (r: u32)
        requires
            self.wf(),
        ensures
            r == self.space(),
    {
        self.capacity - self.total_items()
    }

    /// Whether `amount` more units fit; any item shares the same capacity.
    pub fn can_store(&self, item: &str, amount: u32) -> (r: bool)
        requires
            self.wf(),
        ensures
            r == (amount <= self.space()),
    {
        self.available_space() >= amount
    }

    fn find(&self, item: &str) -> (r: Option<usize>)
        requires
            self.wf(),
        ensures
            r matches Some(i) ==> i < self.items@.len() && self.items@[i as int].0@ == item@,
            r is None ==> forall|j: int| 0 <= j < self.items@.len() ==> self.items@[j].0@ != item@,
    {
        let mut i: usize = 0;
        while i < self.items.len()
            invariant
                i <= self.items@.len(),
                forall|j: int| 0 <= j < i ==> self.items@[j].0@ != item@,
            decreases self.items@.len() - i,
        {
            if str_eq(self.items[i].0.as_str(), item) {
                return Some(i);
            }
            i = i + 1;
        }
        None
    }

    /// Adds as much of `amount` as fits and returns how much was added.
    pub fn add_item(&mut self, item: String, amount: u32) -> (added: u32)
        requires
            old(self).wf(),
        ensures
            final(self).wf(),
            final(self).total() <= final(self).capacity,
            added as nat == if amount <= old(self).space() { amount as nat } else { old(self).space() },
            final(self).capacity == old(self).capacity,
            final(self).total() == old(self).total() + added,
            final(self).count(item@) == old(self).count(item@) + added,
            forall|other: Seq<char>| other != item@ ==> final(self).count(other) == old(self).count(other),
    {
        let available = self.available_space();
        let to_add = if amount < available { amount } else { available };
        let ghost before = self.items@;
        match self.find(item.as_str()) {
            Some(i) => {
                proof { lemma_entry_le_sum(before, i as int); }
                let cur = self.items[i].1;
                let e = (item, cur + to_add);
                proof {
                    lemma_count_at(before, i as int);
                    lemma_update(before, i as int, e, e.0@);
                    assert forall|o: Seq<char>| #![auto] true implies
                        count_of(before.update(i as int, e), o) + (if o == e.0@ { before[i as int].1 as nat } else { 0 })
                        == count_of(before, o) + (if o == e.0@ { e.1 as nat } else { 0 }) by {
                        lemma_update(before, i as int, e, o);
                    }
                }
                self.items.set(i, e);
                assert(self.items@ == before.update(i as int, e));
                assert(keys_unique(self.items@));
            },
            None => {
                if to_add > 0 {
                    let e = (item, to_add);
                    proof {
                        lemma_count_absent(before, e.0@);
                        lemma_push(before, e, e.0@);
                        assert forall|o: Seq<char>| #![auto] true implies
                            count_of(before.push(e), o) == count_of(before, o) + (if o == e.0@ { e.1 as nat } else { 0 }) by {
                            lemma_push(before, e, o);
                        }
                    }
                    self.items.push(e);
                    assert(keys_unique(self.items@));
                }
            },
        }
        to_add
    }

    /// Removes up to `amount` of `item` and returns how much was removed.
    pub fn remove_item(&mut self, item: &str, amount: u32) -> (removed: u32)
        requires
            old(self).wf(),
        ensures
            final(self).wf(),
            final(self).total() <= final(self).capacity,
            removed as nat == if amount <= old(self).count(item@) { amount as nat } else { old(self).count(item@) },
            final(self).capacity == old(self).capacity,
            final(self).total() + removed == old(self).total(),
            final(self).count(item@) + removed == old(self).count(item@),
            forall|other: Seq<char>| other != item@ ==> final(self).count(other) == old(self).count(other),
    {
        let ghost before = self.items@;
        match self.find(item) {
            None => {
                proof { lemma_count_absent(before, item@); }
                0
            },
            Some(i) => {
                proof { lemma_count_at(before, i as int); }
                let current = self.items[i].1;
                let to_remove = if amount < current { amount } else { current };
                if to_remove == current {
                    proof {
                        lemma_remove(before, i as int, item@);
                        assert forall|o: Seq<char>| #![auto] true implies
                            count_of(before.remove(i as int), o) + (if o == before[i as int].0@ { before[i as int].1 as nat } else { 0 })
                            == count_of(before, o) by {
                            lemma_remove(before, i as int, o);
                        }
                    }
                    self.items.remove(i);
                    assert(self.items@ == before.remove(i as int));
                    assert(forall|j: int| 0 <= j < self.items@.len() ==> #[trigger] self.items@[j] == before[if j < i { j } else { j + 1 }]);
                    assert(keys_unique(self.items@));
                } else {
                    let key = self.items[i].0.clone();
                    let e = (key, current - to_remove);
                    proof {
                        lemma_update(before, i as int, e, e.0@);
                        assert forall|o: Seq<char>| #![auto] true implies
                            count_of(before.update(i as int, e), o) + (if o == e.0@ { before[i as int].1 as nat } else { 0 })
                            == count_of(before, o) + (if o == e.0@ { e.1 as nat } else { 0 }) by {
                            lemma_update(before, i as int, e, o);
                        }
                    }
                    self.items.set(i, e);
                    assert(self.items@ == before.update(i as int, e));
                    assert(keys_unique(self.items@));
                }
                to_remove
            },
        }
    }

    pub fn get_item_count(&self, item: &str) -> (r: u32)
        requires
            self.wf(),
        ensures
            r == self.count(item@),
    {
        match self.find(item) {
            Some(i) => {
                proof { lemma_count_at(self.items@, i as int); }
                self.items[i].1
            },
            None => {
                proof { lemma_count_absent(self.items@, item@); }
                0
            },
        }
    }
}

proof fn lemma_sum_prefix(items: Seq<(String, u32)>, n: int)
    requires
        0 < n <= items.len(),
    ensures
        sum_of(items.subrange(0, n)) == sum_of(items.subrange(0, n - 1)) + items[n - 1].1,
        sum_of(items.subrange(0, n)) <= sum_of(items),
    decreases items.len(),
{
    assert(items.subrange(0, n).drop_last() == items.subrange(0, n - 1));
    if n < items.len() {
        assert(items.drop_last().subrange(0, n) == items.subrange(0, n));
        lemma_sum_prefix(items.drop_last(), n);
    } else {
        assert(items.subrange(0, n) == items);
    }
}

/// Counts and sum grow entry by entry along a prefix.
pub proof fn lemma_prefix_step(items: Seq<(String, u32)>, i: int, k: Seq<char>)
    requires
        0 <= i < items.len(),
    ensures
        count_of(items.subrange(0, i + 1), k) == count_of(items.subrange(0, i), k) + (if items[i].0@ == k {
            items[i].1 as nat
        } else {
            0
        }),
        sum_of(items.subrange(0, i + 1)) == sum_of(items.subrange(0, i)) + items[i].1,
        sum_of(items.subrange(0, i + 1)) <= sum_of(items),
{
    assert(items.subrange(0, i + 1).drop_last() == items.subrange(0, i));
    lemma_sum_prefix(items, i + 1);
}

/// With unique keys, a later entry's key has no quantity in an earlier prefix.
pub proof fn lemma_prefix_lacks_later_key(items: Seq<(String, u32)>, i: int, j: int)
    requires
        keys_unique(items),
        0 <= i <= j < items.len(),
    ensures
        count_of(items.subrange(0, i), items[j].0@) == 0,
{
    let pre = items.subrange(0, i);
    assert forall|m: int| 0 <= m < pre.len() implies pre[m].0@ != items[j].0@ by {
        assert(pre[m] == items[m]);
    }
    lemma_count_absent(pre, items[j].0@);
}

pub proof fn lemma_whole_prefix(items: Seq<(String, u32)>)
    ensures
        items.subrange(0, items.len() as int) == items,
        sum_of(items.subrange(0, 0)) == 0,
        forall|k: Seq<char>| count_of(#[trigger] items.subrange(0, 0), k) == 0,
{
    assert(items.subrange(0, items.len() as int) == items);
}

proof fn lemma_prefix_monotone(items: Seq<(String, u32)>, m: int, n: int)
    requires
        0 <= m <= n <= items.len(),
    ensures
        sum_of(items.subrange(0, m)) <= sum_of(items.subrange(0, n)),
    decreases n - m,
{
    if m < n {
        lemma_sum_prefix(items, n);
        lemma_prefix_monotone(items, m, n - 1);
    }
}

/// Character-wise equality of two strings.
pub fn str_eq(a: &str, b: &str) -> (r: bool)
    ensures
        r == (a@ == b@),
{
    let n = a.unicode_len();
    if n != b.unicode_len() {
        return false;
    }
    let mut i: usize = 0;
    while i < n
        invariant
            n == a@.len(),
            n == b@.len(),
            i <= n,
            forall|j: int| 0 <= j < i ==> a@[j] == b@[j],
        decreases n - i,
    {
        if a.get_char(i) != b.get_char(i) {
            return false;
        }
        i = i + 1;
    }
    assert(a@ =~= b@);
    true
}

} // verus!
