//! A bounded store of recently used texts, kept in an LRU cache.

use crate::text::opt_text;
use lru::LruCache;
use vstd::prelude::*;

verus! {

/// The LRU cache of the `lru` crate.
#[verifier::external_type_specification]
#[verifier::external_body]
#[verifier::reject_recursive_types(K)]
#[verifier::reject_recursive_types(V)]
#[verifier::reject_recursive_types(S)]
pub struct ExLruCache<K, V, S>(LruCache<K, V, S>);

/// The hasher that the `lru` crate uses where none is named.
#[verifier::external_type_specification]
#[verifier::external_body]
pub struct ExDefaultHasher(lru::DefaultHasher);

/// The keys and values that a cache holds, the most recently used first.
pub uninterp spec fn cache_entries(c: LruCache<String, String>) -> Seq<(Seq<char>, Seq<char>)>;

/// The number of entries that a cache was made for.
pub uninterp spec fn cache_limit(c: LruCache<String, String>) -> nat;

/// The position of the first entry with key `k`, or the length of `s`.
pub open spec fn key_pos(s: Seq<(Seq<char>, Seq<char>)>, k: Seq<char>) -> int
    decreases s.len(),
{
    if s.len() == 0 || s[0].0 == k {
        0
    } else {
        1 + key_pos(s.skip(1), k)
    }
}

/// The value stored under `k`.
pub open spec fn key_value(s: Seq<(Seq<char>, Seq<char>)>, k: Seq<char>) -> Option<Seq<char>> {
    if 0 <= key_pos(s, k) < s.len() {
        Some(s[key_pos(s, k)].1)
    } else {
        None
    }
}

/// The entries after `k` was stored with value `v` in a cache of `limit` entries: the new entry
/// comes first, an older one of the same key goes, and where the cache was full with other keys the
/// least recently used entry goes.
pub open spec fn entries_put(
    s: Seq<(Seq<char>, Seq<char>)>,
    limit: nat,
    k: Seq<char>,
    v: Seq<char>,
) -> Seq<(Seq<char>, Seq<char>)> {
    let i = key_pos(s, k);
    if 0 <= i < s.len() {
        seq![(k, v)] + s.remove(i)
    } else if s.len() == limit {
        seq![(k, v)] + s.drop_last()
    } else {
        seq![(k, v)] + s
    }
}

/// The entries after the one of `k` was used.
pub open spec fn entries_used(
    s: Seq<(Seq<char>, Seq<char>)>,
    k: Seq<char>,
) -> Seq<(Seq<char>, Seq<char>)> {
    let i = key_pos(s, k);
    if 0 <= i < s.len() {
        seq![s[i]] + s.remove(i)
    } else {
        s
    }
}

/// Calls `LruCache::new`: an empty cache that holds at most `cap` entries. The bound keeps the
/// allocation that the call makes ahead of use far from overflow.
#[verifier::external_body]
fn lru_new(cap: usize) -> (r: LruCache<String, String>)
    requires
        0 < cap <= 0x1_0000,
    ensures
        cache_entries(r) == Seq::<(Seq<char>, Seq<char>)>::empty(),
        cache_limit(r) == cap,
{
    LruCache::new(std::num::NonZeroUsize::new(cap).unwrap())
}

/// Calls `LruCache::put`: stores the entry as the most recently used one and gives back the value
/// that stood under the key. Where the key is new and the cache is full, the least recently used
/// entry is dropped.
#[verifier::external_body]
fn lru_put(cache: &mut LruCache<String, String>, k: String, v: String) -> (r: Option<String>)
    ensures
        cache_limit(*final(cache)) == cache_limit(*old(cache)),
        cache_entries(*final(cache)) == entries_put(
            cache_entries(*old(cache)),
            cache_limit(*old(cache)),
            k@,
            v@,
        ),
        opt_text(r) == key_value(cache_entries(*old(cache)), k@),
{
    cache.put(k, v)
}

/// Calls `LruCache::get`: the value under the key, whose entry becomes the most recently used one.
#[verifier::external_body]
fn lru_get(cache: &mut LruCache<String, String>, k: &str) -> (r: Option<String>)
    ensures
        cache_limit(*final(cache)) == cache_limit(*old(cache)),
        cache_entries(*final(cache)) == entries_used(cache_entries(*old(cache)), k@),
        opt_text(r) == key_value(cache_entries(*old(cache)), k@),
{
    cache.get(k).cloned()
}

/// Calls `LruCache::contains`: whether the key has an entry. The order of use stays.
#[verifier::external_body]
fn lru_contains(cache: &LruCache<String, String>, k: &str) -> (r: bool)
    ensures
        r == (key_value(cache_entries(*cache), k@) is Some),
{
    cache.contains(k)
}

/// Calls `LruCache::len`: the number of entries.
#[verifier::external_body]
fn lru_len(cache: &LruCache<String, String>) -> (r: usize)
    ensures
        r == cache_entries(*cache).len(),
{
    cache.len()
}

/// A bounded store of texts by key that forgets the least recently used entry.
pub struct RecentTexts {
    cache: LruCache<String, String>,
}

impl RecentTexts {
    /// The keys and values held, the most recently used first.
    pub closed spec fn entries(&self) -> Seq<(Seq<char>, Seq<char>)> {
        cache_entries(self.cache)
    }

    /// The most entries that are held.
    pub closed spec fn limit(&self) -> nat {
        cache_limit(self.cache)
    }

    /// No more entries than the limit.
    #[verifier::type_invariant]
    spec fn bounded(self) -> bool {
        0 < cache_limit(self.cache) && cache_entries(self.cache).len() <= cache_limit(self.cache)
    }

    /// An empty store of at most `cap` entries.
    pub fn new(cap: usize) -> (r: Self)
        requires
            0 < cap <= 0x1_0000,
        ensures
            r.entries() == Seq::<(Seq<char>, Seq<char>)>::empty(),
            r.limit() == cap,
    {
        RecentTexts { cache: lru_new(cap) }
    }

    /// Stores `v` under `k` as the most recently used entry.
    pub fn put(&mut self, k: String, v: String)
        ensures
            final(self).limit() == old(self).limit(),
            final(self).entries() == entries_put(old(self).entries(), old(self).limit(), k@, v@),
            final(self).entries().len() <= final(self).limit(),
            key_value(final(self).entries(), k@) == Some(v@),
    {
        proof {
            use_type_invariant(&*self);
            put_is_bounded_and_found(self.entries(), self.limit(), k@, v@);
        }
        let mut cache = lru_new(1);
        std::mem::swap(&mut cache, &mut self.cache);
        let _old = lru_put(&mut cache, k, v);
        self.cache = cache;
    }

    /// The value under `k`, whose entry becomes the most recently used one.
    pub fn get(&mut self, k: &str) -> (r: Option<String>)
        ensures
            final(self).limit() == old(self).limit(),
            final(self).entries() == entries_used(old(self).entries(), k@),
            opt_text(r) == key_value(old(self).entries(), k@),
    {
        proof {
            use_type_invariant(&*self);
        }
        let mut cache = lru_new(1);
        std::mem::swap(&mut cache, &mut self.cache);
        let r = lru_get(&mut cache, k);
        self.cache = cache;
        r
    }

    /// Whether `k` has an entry.
    pub fn contains(&self, k: &str) -> (r: bool)
        ensures
            r == (key_value(self.entries(), k@) is Some),
    {
        lru_contains(&self.cache, k)
    }

    /// Number of entries.
    pub fn len(&self) -> (r: usize)
        ensures
            r == self.entries().len(),
            r <= self.limit(),
    {
        proof {
            use_type_invariant(self);
        }
        lru_len(&self.cache)
    }
}

/// A store never grows past its limit, and what was just stored is found.
pub proof fn put_is_bounded_and_found(
    s: Seq<(Seq<char>, Seq<char>)>,
    limit: nat,
    k: Seq<char>,
    v: Seq<char>,
)
    requires
        0 < limit,
        s.len() <= limit,
    ensures
        entries_put(s, limit, k, v).len() <= limit,
        key_value(entries_put(s, limit, k, v), k) == Some(v),
{
    assert(entries_put(s, limit, k, v)[0] == (k, v));
}

/// `key_pos` finds an entry exactly where one has the key.
pub proof fn key_pos_finds(s: Seq<(Seq<char>, Seq<char>)>, k: Seq<char>)
    ensures
        0 <= key_pos(s, k) <= s.len(),
        key_pos(s, k) < s.len() ==> s[key_pos(s, k)].0 == k,
        forall|j: int| 0 <= j < key_pos(s, k) ==> (#[trigger] s[j]).0 != k,
    decreases s.len(),
{
    if s.len() > 0 && s[0].0 != k {
        key_pos_finds(s.skip(1), k);
        assert forall|j: int| 0 <= j < key_pos(s, k) implies (#[trigger] s[j]).0 != k by {
            if j > 0 {
                assert(s.skip(1)[j - 1].0 != k);
            }
        }
    }
}

/// Storing a new key in a full store drops the least recently used entry and keeps the others.
pub proof fn full_store_drops_the_oldest(
    s: Seq<(Seq<char>, Seq<char>)>,
    limit: nat,
    k: Seq<char>,
    v: Seq<char>,
)
    requires
        0 < limit,
        s.len() == limit,
        key_value(s, k) is None,
    ensures
        entries_put(s, limit, k, v) == seq![(k, v)] + s.drop_last(),
        entries_put(s, limit, k, v).len() == limit,
{
    key_pos_finds(s, k);
}

proof fn key_pos_is(s: Seq<(Seq<char>, Seq<char>)>, k: Seq<char>, p: int)
    requires
        0 <= p <= s.len(),
        p < s.len() ==> s[p].0 == k,
        forall|j: int| 0 <= j < p ==> (#[trigger] s[j]).0 != k,
    ensures
        key_pos(s, k) == p,
{
    key_pos_finds(s, k);
    let q = key_pos(s, k);
    if q < p {
        assert(s[q].0 != k);
    }
}

/// Storing an entry leaves the others as they are, but for the least recently used one where the
/// store was full and the key is new.
pub proof fn others_stay_in_the_store(
    s: Seq<(Seq<char>, Seq<char>)>,
    limit: nat,
    k: Seq<char>,
    v: Seq<char>,
    other: Seq<char>,
)
    requires
        0 < limit,
        s.len() <= limit,
        other != k,
    ensures
        s.len() < limit || key_value(s, k) is Some ==> key_value(entries_put(s, limit, k, v), other)
            == key_value(s, other),
        s.len() == limit && key_value(s, k) is None && key_pos(s, other) < limit - 1 ==> key_value(
            entries_put(s, limit, k, v),
            other,
        ) == key_value(s, other),
        s.len() == limit && key_value(s, k) is None && key_pos(s, other) >= limit - 1 ==> key_value(
            entries_put(s, limit, k, v),
            other,
        ) is None,
        entries_put(s, limit, k, v)[0] == (k, v),
{
    let t = entries_put(s, limit, k, v);
    let i = key_pos(s, k);
    let p = key_pos(s, other);
    key_pos_finds(s, k);
    key_pos_finds(s, other);
    if i < s.len() {
        let q = if p < i {
            p + 1
        } else {
            p
        };
        assert(p != i);
        assert forall|j: int| 0 <= j < q implies (#[trigger] t[j]).0 != other by {
            if j > 0 {
                assert(t[j] == s.remove(i)[j - 1]);
                if j - 1 < i {
                    assert(t[j] == s[j - 1]);
                } else {
                    assert(t[j] == s[j]);
                }
            }
        }
        if p < s.len() {
            assert(t[q] == s[p]);
        }
        key_pos_is(t, other, q);
    } else if s.len() == limit {
        let q = if p < limit - 1 {
            p + 1
        } else {
            limit as int
        };
        assert forall|j: int| 0 <= j < q implies (#[trigger] t[j]).0 != other by {
            if j > 0 {
                assert(t[j] == s[j - 1]);
            }
        }
        if p < limit - 1 {
            assert(t[q] == s[p]);
        }
        key_pos_is(t, other, q);
    } else {
        assert forall|j: int| 0 <= j < p + 1 implies (#[trigger] t[j]).0 != other by {
            if j > 0 {
                assert(t[j] == s[j - 1]);
            }
        }
        if p < s.len() {
            assert(t[p + 1] == s[p]);
        }
        key_pos_is(t, other, p + 1);
    }
}

/// Using an entry puts it first and changes no value.
pub proof fn used_entry_comes_first(s: Seq<(Seq<char>, Seq<char>)>, k: Seq<char>, other: Seq<char>)
    ensures
        entries_used(s, k).len() == s.len(),
        key_value(entries_used(s, k), other) == key_value(s, other),
        key_value(s, k) matches Some(v) ==> entries_used(s, k)[0] == (k, v),
        key_value(s, k) is None ==> entries_used(s, k) == s,
{
    key_pos_finds(s, k);
    key_pos_finds(s, other);
    let i = key_pos(s, k);
    let p = key_pos(s, other);
    let t = entries_used(s, k);
    if i < s.len() {
        if other == k {
            assert(t[0] == s[i]);
            key_pos_is(t, other, 0);
        } else {
            let q = if p < i {
                p + 1
            } else {
                p
            };
            assert(p != i);
            assert forall|j: int| 0 <= j < q implies (#[trigger] t[j]).0 != other by {
                if j > 0 {
                    assert(t[j] == s.remove(i)[j - 1]);
                    if j - 1 < i {
                        assert(t[j] == s[j - 1]);
                    } else {
                        assert(t[j] == s[j]);
                    }
                }
            }
            if p < s.len() {
                assert(t[q] == s[p]);
            }
            key_pos_is(t, other, q);
        }
    }
}

} // verus!
