//! An insertion-ordered table: a list of entries in which no key occurs
//! twice. Looking a key up finds its one entry; walking the table visits the
//! entries in the order in which their keys first arrived, so everything
//! built from a walk is determined by the table alone.

use vstd::prelude::*;

verus! {

/// A key of a table: a value that can be compared for equality.
pub trait Key: Sized {
    /// Whether two keys are the same.
    fn same(&self, other: &Self) -> (r: bool)
        ensures
            r == (*self == *other),
    ;
}

impl Key for usize {
    fn same(&self, other: &Self) -> (r: bool) {
        *self == *other
    }
}

impl Key for (usize, usize) {
    fn same(&self, other: &Self) -> (r: bool) {
        self.0 == other.0 && self.1 == other.1
    }
}

/// Whether some entry has the key `k`.
pub open spec fn has_key<K, V>(e: Seq<(K, V)>, k: K) -> bool {
    exists|i: int| 0 <= i < e.len() && (#[trigger] e[i]).0 == k
}

/// The index of an entry with the key `k`, where there is one.
pub open spec fn key_index<K, V>(e: Seq<(K, V)>, k: K) -> int {
    choose|i: int| 0 <= i < e.len() && (#[trigger] e[i]).0 == k
}

/// The value that the entries give to `k`.
pub open spec fn lookup<K, V>(e: Seq<(K, V)>, k: K) -> Option<V> {
    if has_key(e, k) {
        Some(e[key_index(e, k)].1)
    } else {
        None
    }
}

/// No key occurs in two entries.
pub open spec fn distinct<K, V>(e: Seq<(K, V)>) -> bool {
    forall|i: int, j: int| 0 <= i < j < e.len() ==> (#[trigger] e[i]).0 != (#[trigger] e[j]).0
}

/// The entries after `k` is given the value `v`: the entry of `k` is
/// replaced where it stands, or a new entry is added at the end.
pub open spec fn inserted<K, V>(e: Seq<(K, V)>, k: K, v: V) -> Seq<(K, V)> {
    if has_key(e, k) {
        e.update(key_index(e, k), (k, v))
    } else {
        e.push((k, v))
    }
}

/// Where keys are distinct, the entry at an index is the one its key finds.
pub proof fn lemma_lookup_at<K, V>(e: Seq<(K, V)>, i: int)
    requires
        distinct(e),
        0 <= i < e.len(),
    ensures
        has_key(e, e[i].0),
        key_index(e, e[i].0) == i,
        lookup(e, e[i].0) == Some(e[i].1),
{
    let j = key_index(e, e[i].0);
    assert(0 <= j < e.len() && e[j].0 == e[i].0);
    if j != i {
        if j < i {
            assert(e[j].0 != e[i].0);
        } else {
            assert(e[i].0 != e[j].0);
        }
    }
}

/// Giving a key a value keeps the keys distinct.
pub proof fn lemma_inserted_distinct<K, V>(e: Seq<(K, V)>, k: K, v: V)
    requires
        distinct(e),
    ensures
        distinct(inserted(e, k, v)),
{
    let r = inserted(e, k, v);
    if has_key(e, k) {
        let p = key_index(e, k);
        assert forall|i: int, j: int| 0 <= i < j < r.len() implies (#[trigger] r[i]).0 != (
        #[trigger] r[j]).0 by {
            assert(r[i].0 == e[i].0);
            assert(r[j].0 == e[j].0);
        }
    } else {
        assert forall|i: int, j: int| 0 <= i < j < r.len() implies (#[trigger] r[i]).0 != (
        #[trigger] r[j]).0 by {
            if j == e.len() {
                assert(r[i] == e[i]);
                assert(e[i].0 != k);
            } else {
                assert(r[i] == e[i]);
                assert(r[j] == e[j]);
            }
        }
    }
}

/// After a key is given a value, that key finds the value and every other
/// key finds what it found before.
pub proof fn lemma_inserted_lookup<K, V>(e: Seq<(K, V)>, k: K, v: V, other: K)
    requires
        distinct(e),
    ensures
        has_key(inserted(e, k, v), other) == (other == k || has_key(e, other)),
        lookup(inserted(e, k, v), other) == if other == k {
            Some(v)
        } else {
            lookup(e, other)
        },
{
    let r = inserted(e, k, v);
    lemma_inserted_distinct(e, k, v);
    if has_key(e, k) {
        let p = key_index(e, k);
        assert(r[p] == (k, v));
        lemma_lookup_at(r, p);
        if other != k {
            if has_key(e, other) {
                let q = key_index(e, other);
                assert(r[q] == e[q]);
                lemma_lookup_at(r, q);
            } else {
                if has_key(r, other) {
                    let q = key_index(r, other);
                    assert(e[q].0 == other);
                }
            }
        }
    } else {
        let p = e.len() as int;
        assert(r[p] == (k, v));
        lemma_lookup_at(r, p);
        if other != k {
            if has_key(e, other) {
                let q = key_index(e, other);
                assert(r[q] == e[q]);
                lemma_lookup_at(r, q);
            } else {
                if has_key(r, other) {
                    let q = key_index(r, other);
                    assert(e[q].0 == other);
                }
            }
        }
    }
}

/// Where keys are distinct, an entry is in the list exactly when its key
/// finds its value.
pub proof fn lemma_contains_lookup<K, V>(e: Seq<(K, V)>, k: K, v: V)
    requires
        distinct(e),
    ensures
        e.contains((k, v)) <==> lookup(e, k) == Some(v),
{
    if e.contains((k, v)) {
        let i = choose|i: int| 0 <= i < e.len() && e[i] == (k, v);
        lemma_lookup_at(e, i);
    }
    if lookup(e, k) == Some(v) {
        let i = key_index(e, k);
        assert(e[i] == (k, v));
    }
}

/// The entries with every value replaced by its image under `f`.
pub open spec fn mapped<K, V, W>(e: Seq<(K, V)>, f: spec_fn(V) -> W) -> Seq<(K, W)> {
    e.map_values(|p: (K, V)| (p.0, f(p.1)))
}

/// Replacing the values keeps the keys: the same keys are present, at the
/// same places, and each finds the image of what it found before.
pub proof fn lemma_mapped<K, V, W>(e: Seq<(K, V)>, f: spec_fn(V) -> W, k: K)
    requires
        distinct(e),
    ensures
        distinct(mapped(e, f)),
        has_key(mapped(e, f), k) == has_key(e, k),
        has_key(e, k) ==> key_index(mapped(e, f), k) == key_index(e, k),
        lookup(mapped(e, f), k) == match lookup(e, k) {
            Some(v) => Some(f(v)),
            None => None,
        },
{
    let m = mapped(e, f);
    assert forall|i: int, j: int| 0 <= i < j < m.len() implies (#[trigger] m[i]).0 != (
    #[trigger] m[j]).0 by {
        assert(m[i].0 == e[i].0);
        assert(m[j].0 == e[j].0);
    }
    if has_key(e, k) {
        let i = key_index(e, k);
        assert(m[i].0 == k);
        lemma_lookup_at(m, i);
    } else {
        if has_key(m, k) {
            let i = key_index(m, k);
            assert(e[i].0 == k);
        }
    }
}

/// Replacing the values and giving a key a value can be done in either
/// order.
pub proof fn lemma_mapped_inserted<K, V, W>(e: Seq<(K, V)>, f: spec_fn(V) -> W, k: K, v: V)
    requires
        distinct(e),
    ensures
        mapped(inserted(e, k, v), f) == inserted(mapped(e, f), k, f(v)),
{
    lemma_mapped(e, f, k);
    assert(mapped(inserted(e, k, v), f) =~= inserted(mapped(e, f), k, f(v)));
}

/// An insertion-ordered table from keys to values.
pub struct Table<K, V> {
    entries: Vec<(K, V)>,
}

impl<K, V> View for Table<K, V> {
    type V = Seq<(K, V)>;

    closed spec fn view(&self) -> Seq<(K, V)> {
        self.entries@
    }
}

impl<K, V> Table<K, V> {
    #[verifier::type_invariant]
    spec fn keys_are_distinct(&self) -> bool {
        distinct(self.entries@)
    }
}

impl<K: Key, V> Table<K, V> {
    /// A table without entries.
    pub fn new() -> (r: Self)
        ensures
            r@ == Seq::<(K, V)>::empty(),
    {
        Table { entries: Vec::new() }
    }

    /// Recalls that the keys of a table are distinct. Does nothing.
    pub fn keys_are_known_distinct(&self)
        ensures
            distinct(self@),
    {
        proof {
            use_type_invariant(self);
        }
    }

    /// The number of entries.
    pub fn len(&self) -> (r: usize)
        ensures
            r == self@.len(),
            distinct(self@),
    {
        proof {
            use_type_invariant(self);
        }
        self.entries.len()
    }

    /// The key of the entry at index `i`.
    pub fn key(&self, i: usize) -> (r: &K)
        requires
            i < self@.len(),
        ensures
            *r == self@[i as int].0,
    {
        &self.entries[i].0
    }

    /// The value of the entry at index `i`.
    pub fn value(&self, i: usize) -> (r: &V)
        requires
            i < self@.len(),
        ensures
            *r == self@[i as int].1,
    {
        &self.entries[i].1
    }

    /// The index of the entry of `k`, if it has one.
    pub fn position(&self, k: &K) -> (r: Option<usize>)
        ensures
            distinct(self@),
            match r {
                Some(i) => has_key(self@, *k) && i == key_index(self@, *k) && i < self@.len()
                    && self@[i as int].0 == *k,
                None => !has_key(self@, *k),
            },
    {
        proof {
            use_type_invariant(self);
        }
        let mut i: usize = 0;
        while i < self.entries.len()
            invariant
                i <= self.entries.len(),
                distinct(self.entries@),
                forall|j: int| 0 <= j < i ==> (#[trigger] self.entries@[j]).0 != *k,
            decreases self.entries.len() - i,
        {
            if self.entries[i].0.same(k) {
                proof {
                    lemma_lookup_at(self.entries@, i as int);
                }
                return Some(i);
            }
            i = i + 1;
        }
        None
    }

    /// Whether `k` has an entry.
    pub fn contains_key(&self, k: &K) -> (r: bool)
        ensures
            r == has_key(self@, *k),
    {
        self.position(k).is_some()
    }

    /// The value of `k`, if it has one.
    pub fn get(&self, k: &K) -> (r: Option<&V>)
        ensures
            distinct(self@),
            match r {
                Some(v) => lookup(self@, *k) == Some(*v),
                None => lookup(self@, *k) is None,
            },
    {
        match self.position(k) {
            Some(i) => Some(&self.entries[i].1),
            None => None,
        }
    }

    /// Gives `k` the value `v`: replaces the value of its entry, or adds an
    /// entry at the end.
    pub fn insert(&mut self, k: K, v: V)
        ensures
            final(self)@ == inserted(old(self)@, k, v),
            distinct(final(self)@),
    {
        proof {
            use_type_invariant(&*self);
            lemma_inserted_distinct(self.entries@, k, v);
        }
        let found = self.position(&k);
        let mut entries: Vec<(K, V)> = Vec::new();
        std::mem::swap(&mut entries, &mut self.entries);
        match found {
            Some(i) => {
                entries.set(i, (k, v));
            },
            None => {
                entries.push((k, v));
            },
        }
        std::mem::swap(&mut entries, &mut self.entries);
    }
}

} // verus!
