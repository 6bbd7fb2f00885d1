//! A bounded table that memoizes phase factors.
//!
//! The phase factor of a position, a frequency and a direction is a function
//! of those six words alone, and a sweep over a grid of directions asks for
//! the same few positions again and again. The table keeps the factors that
//! were computed, under the words they were computed from, up to a fixed
//! number of entries; when it is full, the entry that was stored first makes
//! room. A probe for a key returns the stored words unchanged, so a hit is
//! bit for bit what was stored.

use crate::binary64::ComplexWord;
use crate::point::Point;
use vstd::prelude::*;

verus! {

/// The number of entries of a table that is built without a stated capacity.
pub const DEFAULT_CAPACITY: usize = 1000;

/// What a phase factor is computed from: a position, a frequency in hertz,
/// and the polar and azimuthal angles in radians, each as a binary64 word.
#[derive(Clone, Copy, Debug, PartialEq, Eq, Structural, Hash)]
pub struct PhaseKey {
    pub position: Point,
    pub frequency: u64,
    pub theta: u64,
    pub phi: u64,
}

/// A key with the phase factor stored under it.
#[derive(Clone, Copy, Debug, PartialEq, Eq, Structural)]
pub struct Entry {
    pub key: PhaseKey,
    pub value: ComplexWord,
}

/// Some entry has the key.
pub open spec fn holds(entries: Seq<Entry>, key: PhaseKey) -> bool {
    exists|i: int| 0 <= i < entries.len() && (#[trigger] entries[i]).key == key
}

/// The place of an entry with the key, where there is one.
pub open spec fn place(entries: Seq<Entry>, key: PhaseKey) -> int {
    choose|i: int| 0 <= i < entries.len() && (#[trigger] entries[i]).key == key
}

/// No two entries have the same key.
pub open spec fn distinct_keys(entries: Seq<Entry>) -> bool {
    forall|i: int, j: int|
        0 <= i < j < entries.len() ==> (#[trigger] entries[i]).key != (#[trigger] entries[j]).key
}

/// The shape that every table has: within its capacity, with distinct keys.
pub open spec fn shaped(entries: Seq<Entry>, capacity: nat) -> bool {
    entries.len() <= capacity && distinct_keys(entries)
}

/// What a probe for the key returns: the value stored under it, or nothing.
pub open spec fn cached(entries: Seq<Entry>, key: PhaseKey) -> Option<ComplexWord> {
    if holds(entries, key) {
        Some(entries[place(entries, key)].value)
    } else {
        None
    }
}

/// The entries after storing a value under a key in a table of the given
/// capacity. A table of capacity zero stores nothing. A key that is there
/// keeps its place and takes the new value. Otherwise the entry goes to the
/// end, and if the table was full the first entry leaves.
pub open spec fn after_store(
    entries: Seq<Entry>,
    capacity: nat,
    key: PhaseKey,
    value: ComplexWord,
) -> Seq<Entry> {
    if capacity == 0 {
        entries
    } else if holds(entries, key) {
        entries.update(place(entries, key), Entry { key, value })
    } else if entries.len() < capacity {
        entries.push(Entry { key, value })
    } else {
        entries.drop_first().push(Entry { key, value })
    }
}

/// One memoized computation: where the key is in the table, the result is
/// the stored value and the table stays as it is; where it is not, the result
/// is one that `compute` gives for the key, and the table is the old one after
/// storing the result under the key.
pub open spec fn memoizes<F>(
    entries: Seq<Entry>,
    capacity: nat,
    key: PhaseKey,
    compute: F,
    result: ComplexWord,
    after: Seq<Entry>,
) -> bool where F: Fn(PhaseKey) -> ComplexWord {
    match cached(entries, key) {
        Some(v) => result == v && after == entries,
        None => compute.ensures((key,), result) && after == after_store(
            entries,
            capacity,
            key,
            result,
        ),
    }
}

/// Every stored value is what `f` gives for its key.
pub open spec fn agrees(entries: Seq<Entry>, f: spec_fn(PhaseKey) -> ComplexWord) -> bool {
    forall|i: int| 0 <= i < entries.len() ==> (#[trigger] entries[i]).value == f(entries[i].key)
}

/// A bounded memo table for phase factors, oldest entry first.
pub struct PhaseCache {
    capacity: usize,
    entries: Vec<Entry>,
}

impl View for PhaseCache {
    type V = Seq<Entry>;

    closed spec fn view(&self) -> Seq<Entry> {
        self.entries@
    }
}

impl PhaseCache {
    #[verifier::type_invariant]
    spec fn bounded_and_distinct(self) -> bool {
        self.entries@.len() <= self.capacity && distinct_keys(self.entries@)
    }

    /// The largest number of entries that the table keeps.
    pub closed spec fn limit(self) -> nat {
        self.capacity as nat
    }

    /// An empty table that keeps at most `capacity` entries.
    pub fn new(capacity: usize) -> (r: PhaseCache)
        ensures
            r@ == Seq::<Entry>::empty(),
            r.limit() == capacity,
            shaped(r@, r.limit()),
    {
        PhaseCache { capacity, entries: Vec::new() }
    }

    /// An empty table of the default capacity.
    pub fn with_default_capacity() -> (r: PhaseCache)
        ensures
            r@ == Seq::<Entry>::empty(),
            r.limit() == DEFAULT_CAPACITY,
    {
        PhaseCache::new(DEFAULT_CAPACITY)
    }

    /// The largest number of entries that the table keeps.
    pub fn capacity(&self) -> (n: usize)
        ensures
            n == self.limit(),
            shaped(self@, self.limit()),
    {
        proof {
            use_type_invariant(self);
        }
        self.capacity
    }

    /// The number of entries in the table.
    pub fn len(&self) -> (n: usize)
        ensures
            n == self@.len(),
            shaped(self@, self.limit()),
    {
        proof {
            use_type_invariant(self);
        }
        self.entries.len()
    }

    /// The place of the entry with the key, if there is one.
    fn find(&self, key: &PhaseKey) -> (r: Option<usize>)
        ensures
            distinct_keys(self@),
            self@.len() <= self.limit(),
            match r {
                Some(i) => i < self@.len() && self@[i as int].key == *key && holds(self@, *key)
                    && place(self@, *key) == i,
                None => !holds(self@, *key),
            },
    {
        proof {
            use_type_invariant(self);
        }
        let mut i: usize = 0;
        while i < self.entries.len()
            invariant
                i <= self.entries.len(),
                self.entries@.len() <= self.capacity,
                distinct_keys(self.entries@),
                forall|j: int| 0 <= j < i ==> (#[trigger] self.entries@[j]).key != *key,
            decreases self.entries.len() - i,
        {
            if self.entries[i].key == *key {
                return Some(i);
            }
            i += 1;
        }
        None
    }

    /// Probes the table: the value stored under the key, word for word, or
    /// nothing where the key is not there.
    pub fn lookup(&self, key: &PhaseKey) -> (r: Option<ComplexWord>)
        ensures
            r == cached(self@, *key),
            shaped(self@, self.limit()),
    {
        match self.find(key) {
            Some(i) => Some(self.entries[i].value),
            None => None,
        }
    }

    /// Stores a value under a key. A key that is there keeps its place and
    /// takes the new value. A new key goes to the end, and from a full table
    /// the oldest entry leaves first. A table of capacity zero stores nothing.
    pub fn store(&mut self, key: PhaseKey, value: ComplexWord)
        ensures
            final(self).limit() == old(self).limit(),
            final(self)@ == after_store(old(self)@, old(self).limit(), key, value),
            old(self).limit() > 0 ==> cached(final(self)@, key) == Some(value),
            shaped(old(self)@, old(self).limit()),
            shaped(final(self)@, final(self).limit()),
    {
        proof {
            use_type_invariant(&*self);
            law_store_keeps_shape(self@, self.limit(), key, value);
            if self.limit() > 0 {
                law_stored_is_cached(self@, self.limit(), key, value);
            }
        }
        if self.capacity == 0 {
            return ;
        }
        let entry = Entry { key, value };
        let found = self.find(&key);
        let mut entries: Vec<Entry> = Vec::new();
        std::mem::swap(&mut self.entries, &mut entries);
        match found {
            Some(i) => {
                entries.set(i, entry);
            },
            None => {
                if entries.len() >= self.capacity {
                    entries.remove(0);
                    assert(entries@ =~= old(self)@.drop_first());
                }
                entries.push(entry);
            },
        }
        self.entries = entries;
    }

    /// The phase factor of the key: the stored one where the key is there,
    /// else the one that `compute` gives, which is then stored. On a hit
    /// `compute` is not called and the table stays as it is.
    pub fn get_or_compute<F>(&mut self, key: PhaseKey, compute: &F) -> (r: ComplexWord) where
        F: Fn(PhaseKey) -> ComplexWord,

        requires
            compute.requires((key,)),
        ensures
            final(self).limit() == old(self).limit(),
            memoizes(old(self)@, old(self).limit(), key, *compute, r, final(self)@),
            shaped(old(self)@, old(self).limit()),
            shaped(final(self)@, final(self).limit()),
    {
        match self.lookup(&key) {
            Some(v) => v,
            None => {
                let v = compute(key);
                self.store(key, v);
                v
            },
        }
    }
}

/// Storing keeps the keys distinct and the table within its capacity.
pub proof fn law_store_keeps_shape(
    entries: Seq<Entry>,
    capacity: nat,
    key: PhaseKey,
    value: ComplexWord,
)
    requires
        shaped(entries, capacity),
    ensures
        shaped(after_store(entries, capacity, key, value), capacity),
{
    let after = after_store(entries, capacity, key, value);
    if capacity > 0 && !holds(entries, key) && entries.len() >= capacity {
        let rest = entries.drop_first();
        assert forall|i: int| 0 <= i < rest.len() implies (#[trigger] rest[i]).key != key by {
            assert(rest[i] == entries[i + 1]);
        }
        assert forall|i: int, j: int| 0 <= i < j < after.len() implies (#[trigger] after[i]).key != (
        #[trigger] after[j]).key by {
            if j < rest.len() {
                assert(after[i] == entries[i + 1]);
                assert(after[j] == entries[j + 1]);
            } else {
                assert(after[i] == rest[i]);
            }
        }
    }
}

/// In a table that can hold anything, a probe for a key right after a store
/// under it returns the stored value.
pub proof fn law_stored_is_cached(
    entries: Seq<Entry>,
    capacity: nat,
    key: PhaseKey,
    value: ComplexWord,
)
    requires
        shaped(entries, capacity),
        capacity > 0,
    ensures
        cached(after_store(entries, capacity, key, value), key) == Some(value),
{
    let after = after_store(entries, capacity, key, value);
    law_store_keeps_shape(entries, capacity, key, value);
    let at = if holds(entries, key) {
        place(entries, key)
    } else {
        after.len() - 1
    };
    assert(0 <= at < after.len() && after[at] == (Entry { key, value }));
    assert(holds(after, key));
    let found = place(after, key);
    assert(found == at) by {
        if found < at {
            assert(after[found].key != after[at].key);
        } else if at < found {
            assert(after[at].key != after[found].key);
        }
    }
}

/// A store under one key leaves what is cached under every other key as it
/// was, with one exception: when the table was full and the key is new, the
/// key of the oldest entry is no longer cached.
pub proof fn law_store_spares_others(
    entries: Seq<Entry>,
    capacity: nat,
    key: PhaseKey,
    value: ComplexWord,
    other: PhaseKey,
)
    requires
        shaped(entries, capacity),
        other != key,
    ensures
        ({
            let after = after_store(entries, capacity, key, value);
            let evicts = capacity > 0 && !holds(entries, key) && entries.len() == capacity;
            if evicts && entries[0].key == other {
                cached(after, other).is_none()
            } else {
                cached(after, other) == cached(entries, other)
            }
        }),
{
    let after = after_store(entries, capacity, key, value);
    law_store_keeps_shape(entries, capacity, key, value);
    let evicts = capacity > 0 && !holds(entries, key) && entries.len() == capacity;
    if capacity == 0 {
    } else if holds(entries, key) {
        let at = place(entries, key);
        if holds(entries, other) {
            let p = place(entries, other);
            assert(after[p] == entries[p]);
            assert(holds(after, other));
            lemma_place_is_unique(after, other, p);
        } else {
            if holds(after, other) {
                let q = place(after, other);
                assert(after[q] == entries[q]);
                assert(false);
            }
        }
    } else if entries.len() < capacity {
        if holds(entries, other) {
            let p = place(entries, other);
            assert(after[p] == entries[p]);
            assert(holds(after, other));
            lemma_place_is_unique(after, other, p);
        } else {
            if holds(after, other) {
                let q = place(after, other);
                assert(q < entries.len() ==> after[q] == entries[q]);
                assert(false);
            }
        }
    } else {
        if holds(entries, other) && entries[0].key != other {
            let p = place(entries, other);
            assert(p > 0);
            assert(after[p - 1] == entries[p]);
            assert(holds(after, other));
            lemma_place_is_unique(after, other, p - 1);
        } else {
            if holds(after, other) {
                let q = place(after, other);
                assert(q < after.len() - 1);
                assert(after[q] == entries[q + 1]);
                if entries[0].key == other {
                    assert(entries[0].key != entries[q + 1].key);
                }
                assert(false);
            }
        }
    }
}

/// Among distinct keys, an entry with the key stands at the key's place.
proof fn lemma_place_is_unique(entries: Seq<Entry>, key: PhaseKey, at: int)
    requires
        distinct_keys(entries),
        0 <= at < entries.len(),
        entries[at].key == key,
    ensures
        holds(entries, key),
        place(entries, key) == at,
{
    assert(holds(entries, key));
    let found = place(entries, key);
    if found < at {
        assert(entries[found].key != entries[at].key);
    } else if at < found {
        assert(entries[at].key != entries[found].key);
    }
}

/// A hit in a table that agrees with `f` is the value that `f` gives for the
/// key: the memoized result is the recomputed one, word for word.
pub proof fn law_hit_equals_recomputation(
    entries: Seq<Entry>,
    key: PhaseKey,
    f: spec_fn(PhaseKey) -> ComplexWord,
)
    requires
        agrees(entries, f),
    ensures
        cached(entries, key) matches Some(v) ==> v == f(key),
{
}

/// A table that agrees with `f` still agrees with it after a store of the
/// value that `f` gives for the stored key. The empty table agrees with
/// every function.
pub proof fn law_store_keeps_agreement(
    entries: Seq<Entry>,
    capacity: nat,
    key: PhaseKey,
    f: spec_fn(PhaseKey) -> ComplexWord,
)
    requires
        agrees(entries, f),
    ensures
        agrees(Seq::<Entry>::empty(), f),
        agrees(after_store(entries, capacity, key, f(key)), f),
{
    let after = after_store(entries, capacity, key, f(key));
    assert forall|i: int| 0 <= i < after.len() implies (#[trigger] after[i]).value == f(
        after[i].key,
    ) by {
        if capacity == 0 {
        } else if holds(entries, key) {
            if i != place(entries, key) {
                assert(after[i] == entries[i]);
            }
        } else if entries.len() < capacity {
            if i < entries.len() {
                assert(after[i] == entries[i]);
            }
        } else {
            if i < after.len() - 1 {
                assert(after[i] == entries[i + 1]);
            }
        }
    }
}

/// Memoizing does not change results. Take a table that agrees with `f`
/// and one memoized computation on it whose `compute` gives nothing but `f`
/// of its argument. Then the result is `f` of the key, word for word, and the
/// table still agrees with `f`.
pub proof fn law_memoized_is_recomputed<F>(
    entries: Seq<Entry>,
    capacity: nat,
    key: PhaseKey,
    compute: F,
    f: spec_fn(PhaseKey) -> ComplexWord,
    result: ComplexWord,
    after: Seq<Entry>,
) where F: Fn(PhaseKey) -> ComplexWord
    requires
        agrees(entries, f),
        forall|k: PhaseKey, v: ComplexWord| #[trigger] compute.ensures((k,), v) ==> v == f(k),
        memoizes(entries, capacity, key, compute, result, after),
    ensures
        result == f(key),
        agrees(after, f),
{
    law_hit_equals_recomputation(entries, key, f);
    law_store_keeps_agreement(entries, capacity, key, f);
}

} // verus!
