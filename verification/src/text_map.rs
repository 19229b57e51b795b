//! A map from text to values that keeps its keys in the order of their first insertion.

use crate::text::str_eq;
use vstd::prelude::*;

verus! {

/// A map keyed by text.
pub struct TextMap<V> {
    entries: Vec<(String, V)>,
}

/// The position of the entry with key `k`.
spec fn slot<V>(entries: Seq<(String, V)>, k: Seq<char>) -> int {
    choose|i: int| 0 <= i < entries.len() && (#[trigger] entries[i]).0@ == k
}

/// Whether an entry has key `k`.
spec fn has_slot<V>(entries: Seq<(String, V)>, k: Seq<char>) -> bool {
    exists|i: int| 0 <= i < entries.len() && (#[trigger] entries[i]).0@ == k
}

spec fn as_map<V>(entries: Seq<(String, V)>) -> Map<Seq<char>, V> {
    Map::new(|k: Seq<char>| has_slot(entries, k), |k: Seq<char>| entries[slot(entries, k)].1)
}

spec fn distinct_keys<V>(entries: Seq<(String, V)>) -> bool {
    forall|i: int, j: int|
        0 <= i < entries.len() && 0 <= j < entries.len() && (#[trigger] entries[i]).0@ == (
        #[trigger] entries[j]).0@ ==> i == j
}

impl<V> View for TextMap<V> {
    type V = Map<Seq<char>, V>;

    closed spec fn view(&self) -> Map<Seq<char>, V> {
        as_map(self.entries@)
    }
}

proof fn slot_of<V>(entries: Seq<(String, V)>, i: int)
    requires
        distinct_keys(entries),
        0 <= i < entries.len(),
    ensures
        has_slot(entries, entries[i].0@),
        slot(entries, entries[i].0@) == i,
        as_map(entries).contains_key(entries[i].0@),
        as_map(entries)[entries[i].0@] == entries[i].1,
{
}

proof fn as_map_push<V>(entries: Seq<(String, V)>, k: String, v: V)
    requires
        distinct_keys(entries),
        !has_slot(entries, k@),
    ensures
        distinct_keys(entries.push((k, v))),
        as_map(entries.push((k, v))) == as_map(entries).insert(k@, v),
{
    let after = entries.push((k, v));
    assert forall|i: int, j: int|
        0 <= i < after.len() && 0 <= j < after.len() && (#[trigger] after[i]).0@ == (
        #[trigger] after[j]).0@ implies i == j by {
        if i < entries.len() && j < entries.len() {
            assert(entries[i].0@ == entries[j].0@);
        } else if i < entries.len() {
            assert(entries[i].0@ == k@);
        } else if j < entries.len() {
            assert(entries[j].0@ == k@);
        }
    }
    assert(after[entries.len() as int].0@ == k@);
    assert forall|q: Seq<char>| has_slot(after, q) == (has_slot(entries, q) || q == k@) by {
        if has_slot(entries, q) {
            let i = slot(entries, q);
            assert(after[i] == entries[i]);
        }
        if has_slot(after, q) && q != k@ {
            let i = slot(after, q);
            assert(entries[i] == after[i]);
        }
    }
    assert forall|q: Seq<char>| has_slot(after, q) implies as_map(after)[q] == as_map(
        entries,
    ).insert(k@, v)[q] by {
        let i = slot(after, q);
        if i < entries.len() {
            slot_of(entries, i);
            assert(entries[i] == after[i]);
        }
    }
    assert(as_map(after) =~= as_map(entries).insert(k@, v));
}

proof fn as_map_update<V>(entries: Seq<(String, V)>, i: int, k: String, v: V)
    requires
        distinct_keys(entries),
        0 <= i < entries.len(),
        entries[i].0@ == k@,
    ensures
        distinct_keys(entries.update(i, (k, v))),
        as_map(entries.update(i, (k, v))) == as_map(entries).insert(k@, v),
{
    let after = entries.update(i, (k, v));
    assert forall|a: int| 0 <= a < entries.len() implies (#[trigger] after[a]).0@ == entries[a].0@ by {
    }
    assert forall|a: int, b: int|
        0 <= a < after.len() && 0 <= b < after.len() && (#[trigger] after[a]).0@ == (
        #[trigger] after[b]).0@ implies a == b by {
        assert(entries[a].0@ == entries[b].0@);
    }
    assert forall|q: Seq<char>| has_slot(after, q) == has_slot(entries, q) by {
        if has_slot(entries, q) {
            let a = slot(entries, q);
            assert(after[a].0@ == q);
        }
        if has_slot(after, q) {
            let a = slot(after, q);
            assert(entries[a].0@ == q);
        }
    }
    slot_of(entries, i);
    assert forall|q: Seq<char>| has_slot(after, q) implies as_map(after)[q] == as_map(
        entries,
    ).insert(k@, v)[q] by {
        let a = slot(after, q);
        slot_of(after, a);
        slot_of(entries, a);
    }
    assert(as_map(after) =~= as_map(entries).insert(k@, v));
}

proof fn as_map_remove<V>(entries: Seq<(String, V)>, i: int)
    requires
        distinct_keys(entries),
        0 <= i < entries.len(),
    ensures
        distinct_keys(entries.remove(i)),
        as_map(entries.remove(i)) == as_map(entries).remove(entries[i].0@),
{
    let after = entries.remove(i);
    let k = entries[i].0@;
    assert forall|a: int| 0 <= a < after.len() implies (#[trigger] after[a]) == entries[if a < i {
        a
    } else {
        a + 1
    }] by {
    }
    assert forall|a: int, b: int|
        0 <= a < after.len() && 0 <= b < after.len() && (#[trigger] after[a]).0@ == (
        #[trigger] after[b]).0@ implies a == b by {
        let x = if a < i { a } else { a + 1 };
        let y = if b < i { b } else { b + 1 };
        assert(entries[x].0@ == entries[y].0@);
    }
    assert forall|q: Seq<char>| has_slot(after, q) == (has_slot(entries, q) && q != k) by {
        if has_slot(entries, q) && q != k {
            let a = slot(entries, q);
            assert(a != i);
            let x = if a < i { a } else { a - 1 };
            assert(after[x].0@ == q);
        }
        if has_slot(after, q) {
            let a = slot(after, q);
            let x = if a < i { a } else { a + 1 };
            assert(entries[x].0@ == q);
        }
    }
    assert forall|q: Seq<char>| has_slot(after, q) implies as_map(after)[q] == as_map(
        entries,
    ).remove(k)[q] by {
        let a = slot(after, q);
        let x = if a < i { a } else { a + 1 };
        slot_of(after, a);
        slot_of(entries, x);
    }
    assert(as_map(after) =~= as_map(entries).remove(k));
}

spec fn keys_of<V>(entries: Seq<(String, V)>) -> Seq<Seq<char>> {
    Seq::new(entries.len(), |i: int| entries[i].0@)
}

/// `keys` with `k` at the end, unless it is there already.
pub open spec fn key_added(keys: Seq<Seq<char>>, k: Seq<char>) -> Seq<Seq<char>> {
    if keys.contains(k) {
        keys
    } else {
        keys.push(k)
    }
}

impl<V> TextMap<V> {
    /// The keys, in the order of their first insertion.
    pub closed spec fn keys(&self) -> Seq<Seq<char>> {
        keys_of(self.entries@)
    }

    #[verifier::type_invariant]
    spec fn well_formed(self) -> bool {
        distinct_keys(self.entries@)
    }

    /// An empty map.
    pub fn new() -> (r: Self)
        ensures
            r@ == Map::<Seq<char>, V>::empty(),
            r.keys() == Seq::<Seq<char>>::empty(),
    {
        let r = TextMap { entries: Vec::new() };
        proof {
            assert(r.keys() =~= Seq::<Seq<char>>::empty());
            assert(r@ =~= Map::<Seq<char>, V>::empty());
        }
        r
    }

    /// The position of the entry with key `k`.
    fn position(&self, k: &str) -> (r: Option<usize>)
        ensures
            match r {
                Some(i) => i < self.entries@.len() && self.entries@[i as int].0@ == k@,
                None => !has_slot(self.entries@, k@),
            },
    {
        let mut i: usize = 0;
        while i < self.entries.len()
            invariant
                i <= self.entries@.len(),
                forall|j: int| 0 <= j < i ==> (#[trigger] self.entries@[j]).0@ != k@,
            decreases self.entries.len() - i,
        {
            if str_eq(self.entries[i].0.as_str(), k) {
                return Some(i);
            }
            i = i + 1;
        }
        None
    }

    /// The value stored under `k`.
    pub fn get(&self, k: &str) -> (r: Option<&V>)
        ensures
            match r {
                Some(v) => self@.contains_key(k@) && *v == self@[k@],
                None => !self@.contains_key(k@),
            },
            self.keys_match(),
    {
        proof {
            use_type_invariant(self);
            keys_of_match(self.entries@);
        }
        match self.position(k) {
            Some(i) => {
                proof {
                    slot_of(self.entries@, i as int);
                }
                Some(&self.entries[i].1)
            },
            None => None,
        }
    }

    /// Whether a value is stored under `k`.
    pub fn contains_key(&self, k: &str) -> (r: bool)
        ensures
            r == self@.contains_key(k@),
    {
        self.get(k).is_some()
    }

    /// Stores `v` under `k`, in place of what stood there.
    pub fn insert(&mut self, k: String, v: V)
        ensures
            final(self)@ == old(self)@.insert(k@, v),
            final(self).keys() == key_added(old(self).keys(), k@),
    {
        proof {
            use_type_invariant(&*self);
        }
        let ghost before = self.entries@;
        let at = self.position(k.as_str());
        let mut entries: Vec<(String, V)> = Vec::new();
        std::mem::swap(&mut entries, &mut self.entries);
        match at {
            Some(i) => {
                proof {
                    as_map_update(entries@, i as int, k, v);
                }
                entries.set(i, (k, v));
                proof {
                    assert(keys_of(before)[i as int] == k@);
                    assert(keys_of(entries@) =~= keys_of(before));
                }
            },
            None => {
                proof {
                    as_map_push(entries@, k, v);
                    if keys_of(before).contains(k@) {
                        let i = choose|i: int|
                            0 <= i < keys_of(before).len() && keys_of(before)[i] == k@;
                        assert(before[i].0@ == k@);
                    }
                }
                entries.push((k, v));
                assert(keys_of(entries@) =~= keys_of(before).push(k@));
            },
        }
        self.entries = entries;
    }

    /// Takes out the value stored under `k`.
    pub fn remove(&mut self, k: &str) -> (r: Option<V>)
        ensures
            final(self)@ == old(self)@.remove(k@),
            final(self).keys() == old(self).keys().remove_value(k@),
            match r {
                Some(v) => old(self)@.contains_key(k@) && v == old(self)@[k@],
                None => !old(self)@.contains_key(k@),
            },
    {
        proof {
            use_type_invariant(&*self);
        }
        let at = self.position(k);
        let mut entries: Vec<(String, V)> = Vec::new();
        std::mem::swap(&mut entries, &mut self.entries);
        match at {
            Some(i) => {
                proof {
                    as_map_remove(entries@, i as int);
                    slot_of(entries@, i as int);
                }
                let ghost before = entries@;
                let entry = entries.remove(i);
                proof {
                    let names = keys_of(before);
                    assert(names[i as int] == k@);
                    names.index_of_first_ensures(k@);
                    let j = names.index_of_first(k@)->0;
                    assert(before[j].0@ == before[i as int].0@);
                    assert(keys_of(entries@) =~= names.remove(i as int));
                }
                self.entries = entries;
                Some(entry.1)
            },
            None => {
                proof {
                    assert(as_map(entries@).remove(k@) =~= as_map(entries@));
                    let names = keys_of(entries@);
                    names.index_of_first_ensures(k@);
                    if names.contains(k@) {
                        let i = choose|i: int| 0 <= i < names.len() && names[i] == k@;
                        assert(entries@[i].0@ == k@);
                    }
                }
                self.entries = entries;
                None
            },
        }
    }

    /// Number of entries.
    pub fn len(&self) -> (r: usize)
        ensures
            r == self@.dom().len(),
            self@.dom().finite(),
            r == self.keys().len(),
            self.keys_match(),
    {
        proof {
            use_type_invariant(self);
            dom_len(self.entries@);
            keys_of_match(self.entries@);
        }
        self.entries.len()
    }

    /// The listed keys are those that hold a value, each once.
    pub open spec fn keys_match(&self) -> bool {
        &&& self.keys().no_duplicates()
        &&& forall|k: Seq<char>|
            #![trigger self@.contains_key(k)]
            self.keys().contains(k) == self@.contains_key(k)
    }

    /// The key and value at position `i`, in order of first insertion.
    pub fn entry_at(&self, i: usize) -> (r: (&String, &V))
        requires
            i < self.keys().len(),
        ensures
            r.0@ == self.keys()[i as int],
            self@.contains_key(r.0@),
            *r.1 == self@[r.0@],
    {
        proof {
            use_type_invariant(self);
            slot_of(self.entries@, i as int);
        }
        (&self.entries[i].0, &self.entries[i].1)
    }
}

proof fn keys_of_match<V>(entries: Seq<(String, V)>)
    requires
        distinct_keys(entries),
    ensures
        keys_of(entries).no_duplicates(),
        forall|k: Seq<char>|
            #![trigger as_map(entries).contains_key(k)]
            keys_of(entries).contains(k) == as_map(entries).contains_key(k),
{
    let names = keys_of(entries);
    assert forall|i: int, j: int| 0 <= i < names.len() && 0 <= j < names.len() && i != j implies
        names[i] != names[j] by {
        assert(entries[i].0@ == names[i] && entries[j].0@ == names[j]);
    }
    assert forall|k: Seq<char>|
        #![trigger as_map(entries).contains_key(k)]
        names.contains(k) == as_map(entries).contains_key(k) by {
        if names.contains(k) {
            let i = choose|i: int| 0 <= i < names.len() && names[i] == k;
            assert(entries[i].0@ == k);
        }
        if has_slot(entries, k) {
            let i = slot(entries, k);
            assert(names[i] == k);
        }
    }
}

proof fn dom_len<V>(entries: Seq<(String, V)>)
    requires
        distinct_keys(entries),
    ensures
        as_map(entries).dom().finite(),
        as_map(entries).dom().len() == entries.len(),
    decreases entries.len(),
{
    if entries.len() == 0 {
        assert(as_map(entries).dom() =~= Set::<Seq<char>>::empty());
    } else {
        let last = entries.last();
        let before = entries.drop_last();
        assert(distinct_keys(before)) by {
            assert forall|i: int, j: int|
                0 <= i < before.len() && 0 <= j < before.len() && (#[trigger] before[i]).0@ == (
                #[trigger] before[j]).0@ implies i == j by {
                assert(entries[i].0@ == entries[j].0@);
            }
        }
        dom_len(before);
        if has_slot(before, last.0@) {
            let i = slot(before, last.0@);
            assert(entries[i].0@ == entries[entries.len() - 1].0@);
        }
        as_map_push(before, last.0, last.1);
        assert(before.push((last.0, last.1)) =~= entries);
        assert(as_map(entries).dom() =~= as_map(before).dom().insert(last.0@));
    }
}

impl<V: Clone> Clone for TextMap<V> {
    fn clone(&self) -> (r: Self)
        ensures
            r@.dom() == self@.dom(),
            forall|k: Seq<char>| #[trigger] r@.contains_key(k) ==> cloned(self@[k], r@[k]),
    {
        proof {
            use_type_invariant(self);
        }
        let mut entries: Vec<(String, V)> = Vec::new();
        let mut i: usize = 0;
        while i < self.entries.len()
            invariant
                i <= self.entries@.len(),
                entries@.len() == i,
                forall|j: int|
                    0 <= j < i ==> (#[trigger] entries@[j]).0@ == self.entries@[j].0@ && cloned(
                        self.entries@[j].1,
                        entries@[j].1,
                    ),
            decreases self.entries.len() - i,
        {
            entries.push((self.entries[i].0.clone(), self.entries[i].1.clone()));
            i = i + 1;
        }
        proof {
            let a = self.entries@;
            let b = entries@;
            assert forall|x: int, y: int|
                0 <= x < b.len() && 0 <= y < b.len() && (#[trigger] b[x]).0@ == (
                #[trigger] b[y]).0@ implies x == y by {
                assert(a[x].0@ == a[y].0@);
            }
            assert forall|q: Seq<char>| has_slot(a, q) == has_slot(b, q) by {
                if has_slot(a, q) {
                    let x = slot(a, q);
                    assert(b[x].0@ == q);
                }
                if has_slot(b, q) {
                    let x = slot(b, q);
                    assert(a[x].0@ == q);
                }
            }
            assert(as_map(a).dom() =~= as_map(b).dom());
            assert forall|q: Seq<char>| has_slot(b, q) implies cloned(
                as_map(a)[q],
                #[trigger] as_map(b)[q],
            ) by {
                let x = slot(b, q);
                slot_of(a, x);
                slot_of(b, x);
            }
        }
        TextMap { entries }
    }
}

/// A key that is added is among the keys afterwards, the others stay in their places, and none comes
/// twice.
pub proof fn added_key_is_there(keys: Seq<Seq<char>>, k: Seq<char>)
    ensures
        key_added(keys, k).contains(k),
        forall|i: int| 0 <= i < keys.len() ==> i < key_added(keys, k).len() && #[trigger] key_added(
            keys,
            k,
        )[i] == keys[i],
        forall|x: Seq<char>| #[trigger] key_added(keys, k).contains(x) ==> x == k || keys.contains(x),
        keys.no_duplicates() ==> key_added(keys, k).no_duplicates(),
{
    let after = key_added(keys, k);
    if !keys.contains(k) {
        assert(after[keys.len() as int] == k);
        assert forall|x: Seq<char>| #[trigger] after.contains(x) implies x == k || keys.contains(x) by {
            let i = choose|i: int| 0 <= i < after.len() && after[i] == x;
            if i < keys.len() {
                assert(keys[i] == x);
            }
        }
        if keys.no_duplicates() {
            assert forall|i: int, j: int| 0 <= i < after.len() && 0 <= j < after.len() && i
                != j implies after[i] != after[j] by {
                if i < keys.len() {
                    assert(keys.contains(keys[i]));
                }
                if j < keys.len() {
                    assert(keys.contains(keys[j]));
                }
            }
        }
    }
}

} // verus!
