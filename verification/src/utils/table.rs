//! A table that keeps its entries in the order of their keys.

use vstd::prelude::*;

verus! {

/// Values under keys that rise strictly from the first entry to the last.
#[derive(Debug, Clone)]
pub struct OrderedTable<V> {
    pub keys: Vec<u128>,
    pub values: Vec<V>,
}

/// The keys and the values of a table, entry by entry.
pub struct TableView<V> {
    pub keys: Seq<u128>,
    pub values: Seq<V>,
}

impl<V> TableView<V> {
    pub open spec fn empty() -> TableView<V> {
        TableView { keys: Seq::empty(), values: Seq::empty() }
    }

    /// The value under `k`, if the table has the key.
    pub open spec fn get(self, k: u128) -> Option<V> {
        if has_key(self.keys, k) {
            Some(self.values[rank_of(self.keys, k)])
        } else {
            None
        }
    }

    /// The table with `v` under `k`: in place of the value that was there, or
    /// as a new entry at the rank of the key.
    pub open spec fn put(self, k: u128, v: V) -> TableView<V> {
        if has_key(self.keys, k) {
            TableView { keys: self.keys, values: self.values.update(rank_of(self.keys, k), v) }
        } else {
            TableView {
                keys: self.keys.insert(rank_of(self.keys, k), k),
                values: self.values.insert(rank_of(self.keys, k), v),
            }
        }
    }
}

pub open spec fn strictly_increasing(s: Seq<u128>) -> bool {
    forall|i: int, j: int| 0 <= i < j < s.len() ==> s[i] < s[j]
}

/// How many of the keys lie below `k`.
pub open spec fn rank_of(keys: Seq<u128>, k: u128) -> int
    decreases keys.len(),
{
    if keys.len() == 0 {
        0
    } else {
        rank_of(keys.drop_last(), k) + if keys.last() < k {
            1int
        } else {
            0int
        }
    }
}

/// Whether `k` is one of the rising keys.
pub open spec fn has_key(keys: Seq<u128>, k: u128) -> bool {
    rank_of(keys, k) < keys.len() && keys[rank_of(keys, k)] == k
}

pub proof fn lemma_rank_bounds(keys: Seq<u128>, k: u128)
    ensures
        0 <= rank_of(keys, k) <= keys.len(),
    decreases keys.len(),
{
    if keys.len() > 0 {
        lemma_rank_bounds(keys.drop_last(), k);
    }
}

/// In rising keys the rank of `k` is the one place with smaller keys before
/// it and no smaller key from it on.
pub proof fn lemma_rank_is_place(keys: Seq<u128>, k: u128, p: int)
    requires
        0 <= p <= keys.len(),
        forall|j: int| 0 <= j < p ==> keys[j] < k,
        forall|j: int| p <= j < keys.len() ==> keys[j] >= k,
    ensures
        rank_of(keys, k) == p,
    decreases keys.len(),
{
    if keys.len() > 0 {
        let rest = keys.drop_last();
        if p == keys.len() {
            lemma_rank_is_place(rest, k, p - 1);
        } else {
            lemma_rank_is_place(rest, k, p);
        }
    }
}

/// What the rank says of rising keys.
pub proof fn lemma_rank_splits(keys: Seq<u128>, k: u128)
    requires
        strictly_increasing(keys),
    ensures
        0 <= rank_of(keys, k) <= keys.len(),
        forall|j: int| 0 <= j < rank_of(keys, k) ==> keys[j] < k,
        forall|j: int| rank_of(keys, k) <= j < keys.len() ==> keys[j] >= k,
    decreases keys.len(),
{
    lemma_rank_bounds(keys, k);
    if keys.len() > 0 {
        let rest = keys.drop_last();
        assert(strictly_increasing(rest)) by {
            assert forall|i: int, j: int| 0 <= i < j < rest.len() implies rest[i] < rest[j] by {
                assert(keys[i] < keys[j]);
            }
        }
        lemma_rank_splits(rest, k);
        lemma_rank_bounds(rest, k);
        let r = rank_of(rest, k);
        if keys.last() < k {
            assert forall|j: int| 0 <= j < rest.len() implies rest[j] < k by {
                assert(keys[j] < keys[keys.len() - 1]);
            }
            assert(r == rest.len()) by {
                if r < rest.len() {
                    assert(rest[r] >= k && rest[r] < k);
                }
            }
        }
        assert forall|j: int| 0 <= j < rank_of(keys, k) implies keys[j] < k by {
            if j < rest.len() {
                assert(rest[j] == keys[j]);
            }
        }
        assert forall|j: int| rank_of(keys, k) <= j < keys.len() implies keys[j] >= k by {
            if j < rest.len() {
                assert(rest[j] == keys[j]);
            }
        }
    }
}

/// A key put at its rank leaves the keys rising.
pub proof fn lemma_insert_keeps_order(keys: Seq<u128>, k: u128)
    requires
        strictly_increasing(keys),
        !has_key(keys, k),
    ensures
        strictly_increasing(keys.insert(rank_of(keys, k), k)),
        rank_of(keys.insert(rank_of(keys, k), k), k) == rank_of(keys, k),
        has_key(keys.insert(rank_of(keys, k), k), k),
{
    lemma_rank_splits(keys, k);
    let p = rank_of(keys, k);
    let after = keys.insert(p, k);
    assert forall|i: int, j: int| 0 <= i < j < after.len() implies after[i] < after[j] by {
        if i < p && j > p {
            assert(keys[i] < k && keys[j - 1] >= k);
            assert(keys[i] < keys[j - 1] || i == j - 1);
        } else if i < p && j < p {
            assert(keys[i] < keys[j]);
        } else if i > p {
            assert(keys[i - 1] < keys[j - 1]);
        } else if i == p {
            assert(keys[j - 1] >= k);
            if j - 1 == p {
                assert(keys[p] != k);
            } else {
                assert(keys[p] < keys[j - 1]);
            }
        }
    }
    lemma_rank_is_place(after, k, p);
}

impl<V> View for OrderedTable<V> {
    type V = TableView<V>;

    open spec fn view(&self) -> TableView<V> {
        TableView { keys: self.keys@, values: self.values@ }
    }
}

impl<V> OrderedTable<V> {
    /// Keys and values go in pairs and the keys rise.
    pub open spec fn wf(&self) -> bool {
        self.keys@.len() == self.values@.len() && strictly_increasing(self.keys@)
    }

    /// Whether keys and values go in pairs and the keys rise.
    pub fn is_well_formed(&self) -> (ok: bool)
        ensures
            ok == self.wf(),
    {
        if self.keys.len() != self.values.len() {
            return false;
        }
        let mut i: usize = 1;
        while i < self.keys.len()
            invariant
                1 <= i,
                forall|a: int, b: int| 0 <= a < b < i && b < self.keys@.len() ==> self.keys@[a]
                    < self.keys@[b],
            decreases self.keys.len() - i,
        {
            if self.keys[i - 1] >= self.keys[i] {
                return false;
            }
            assert forall|a: int, b: int| 0 <= a < b < i + 1 && b < self.keys@.len() implies self.keys@[a]
                < self.keys@[b] by {
                if b == i && a < i - 1 {
                    assert(self.keys@[a] < self.keys@[i - 1]);
                }
            }
            i += 1;
        }
        true
    }

    /// The place of the entry under `key`, if there is one.
    pub fn find(&self, key: u128) -> (r: Option<usize>)
        requires
            self.wf(),
        ensures
            match r {
                Some(i) => has_key(self.keys@, key) && i == rank_of(self.keys@, key),
                None => !has_key(self.keys@, key),
            },
    {
        let p = self.position(key);
        if self.holds_at(p, key) {
            Some(p)
        } else {
            None
        }
    }

    /// Puts the value under the key, in place of the one that was there or as
    /// a new entry.
    pub fn put(&mut self, key: u128, value: V)
        requires
            old(self).wf(),
        ensures
            final(self).wf(),
            final(self)@ == old(self)@.put(key, value),
    {
        let p = self.position(key);
        if self.holds_at(p, key) {
            self.values[p] = value;
        } else {
            self.insert_at(p, key, value);
        }
    }

    pub fn new() -> (t: OrderedTable<V>)
        ensures
            t.wf(),
            t@ == TableView::<V>::empty(),
    {
        let t = OrderedTable { keys: Vec::new(), values: Vec::new() };
        assert(t.keys@ =~= Seq::<u128>::empty() && t.values@ =~= Seq::<V>::empty());
        t
    }

    pub fn len(&self) -> (n: usize)
        requires
            self.wf(),
        ensures
            n == self.values@.len(),
    {
        self.values.len()
    }

    /// The rank of `key`: the place of its entry, or where it would go.
    pub fn position(&self, key: u128) -> (p: usize)
        requires
            self.wf(),
        ensures
            p == rank_of(self.keys@, key),
            p <= self.keys@.len(),
    {
        let mut low: usize = 0;
        let mut high: usize = self.keys.len();
        while low < high
            invariant
                low <= high <= self.keys@.len(),
                strictly_increasing(self.keys@),
                forall|j: int| 0 <= j < low ==> self.keys@[j] < key,
                forall|j: int| high <= j < self.keys@.len() ==> self.keys@[j] >= key,
            decreases high - low,
        {
            let mid = low + (high - low) / 2;
            if self.keys[mid] < key {
                assert forall|j: int| 0 <= j < mid + 1 implies self.keys@[j] < key by {
                    if j < mid {
                        assert(self.keys@[j] < self.keys@[mid as int]);
                    }
                }
                low = mid + 1;
            } else {
                assert forall|j: int| mid <= j < self.keys@.len() implies self.keys@[j] >= key by {
                    if j > mid {
                        assert(self.keys@[mid as int] < self.keys@[j]);
                    }
                }
                high = mid;
            }
        }
        proof {
            lemma_rank_is_place(self.keys@, key, low as int);
        }
        low
    }

    /// Whether the entry at place `p` has the key.
    pub fn holds_at(&self, p: usize, key: u128) -> (r: bool)
        requires
            self.wf(),
            p == rank_of(self.keys@, key),
        ensures
            r == has_key(self.keys@, key),
    {
        p < self.keys.len() && self.keys[p] == key
    }

    /// Puts a new entry at the rank of its key.
    pub fn insert_at(&mut self, p: usize, key: u128, value: V)
        requires
            old(self).wf(),
            p == rank_of(old(self).keys@, key),
            !has_key(old(self).keys@, key),
        ensures
            final(self).wf(),
            final(self).keys@ == old(self).keys@.insert(p as int, key),
            final(self).values@ == old(self).values@.insert(p as int, value),
    {
        proof {
            lemma_rank_bounds(self.keys@, key);
            lemma_insert_keeps_order(self.keys@, key);
        }
        self.keys.insert(p, key);
        self.values.insert(p, value);
    }
}

} // verus!
