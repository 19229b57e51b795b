//! Stable ordering by key.

use crate::text::to_chars;
use vstd::prelude::*;

verus! {

/// A key with a total order.
pub trait SortKey: Sized {
    /// Whether the key sorts before `other` or level with it.
    spec fn le(self, other: Self) -> bool;

    /// Any two keys are in order one way or the other.
    proof fn le_total(a: Self, b: Self)
        ensures
            a.le(b) || b.le(a),
    ;

    /// The order is transitive.
    proof fn le_transitive(a: Self, b: Self, c: Self)
        requires
            a.le(b),
            b.le(c),
        ensures
            a.le(c),
    ;

    /// Whether the key sorts before `other` or level with it.
    fn leq(&self, other: &Self) -> (r: bool)
        ensures
            r == self.le(*other),
    ;
}

impl SortKey for u64 {
    open spec fn le(self, other: Self) -> bool {
        self <= other
    }

    proof fn le_total(a: Self, b: Self) {
    }

    proof fn le_transitive(a: Self, b: Self, c: Self) {
    }

    fn leq(&self, other: &Self) -> (r: bool) {
        *self <= *other
    }
}

impl SortKey for i64 {
    open spec fn le(self, other: Self) -> bool {
        self <= other
    }

    proof fn le_total(a: Self, b: Self) {
    }

    proof fn le_transitive(a: Self, b: Self, c: Self) {
    }

    fn leq(&self, other: &Self) -> (r: bool) {
        *self <= *other
    }
}

impl SortKey for i128 {
    open spec fn le(self, other: Self) -> bool {
        self <= other
    }

    proof fn le_total(a: Self, b: Self) {
    }

    proof fn le_transitive(a: Self, b: Self, c: Self) {
    }

    fn leq(&self, other: &Self) -> (r: bool) {
        *self <= *other
    }
}

/// Whether `a` sorts before `b` or equals it, character by character.
pub open spec fn lex_le(a: Seq<char>, b: Seq<char>) -> bool
    decreases a.len(),
{
    if a.len() == 0 {
        true
    } else if b.len() == 0 {
        false
    } else if a[0] != b[0] {
        a[0] < b[0]
    } else {
        lex_le(a.skip(1), b.skip(1))
    }
}

proof fn lex_total(a: Seq<char>, b: Seq<char>)
    ensures
        lex_le(a, b) || lex_le(b, a),
    decreases a.len(),
{
    if a.len() > 0 && b.len() > 0 && a[0] == b[0] {
        lex_total(a.skip(1), b.skip(1));
    }
}

/// The order of texts is transitive.
pub proof fn lex_transitive(a: Seq<char>, b: Seq<char>, c: Seq<char>)
    requires
        lex_le(a, b),
        lex_le(b, c),
    ensures
        lex_le(a, c),
    decreases a.len(),
{
    if a.len() > 0 && b.len() > 0 && c.len() > 0 && a[0] == b[0] && b[0] == c[0] {
        lex_transitive(a.skip(1), b.skip(1), c.skip(1));
    }
}

/// Texts that sort before each other are equal.
pub proof fn lex_antisymmetric(a: Seq<char>, b: Seq<char>)
    requires
        lex_le(a, b),
        lex_le(b, a),
    ensures
        a == b,
    decreases a.len(),
{
    if a.len() > 0 {
        lex_antisymmetric(a.skip(1), b.skip(1));
        assert forall|i: int| 0 < i < a.len() implies a[i] == b[i] by {
            assert(a[i] == a.skip(1)[i - 1]);
            assert(b[i] == b.skip(1)[i - 1]);
        }
        assert(a.skip(1).len() == b.skip(1).len());
    }
    assert(a =~= b);
}

/// A text that sorts character by character.
pub struct TextKey {
    pub chars: Vec<char>,
}

impl TextKey {
    /// The key of a text.
    pub fn of(s: &str) -> (r: Self)
        ensures
            r.chars@ == s@,
    {
        TextKey { chars: to_chars(s) }
    }
}

impl SortKey for TextKey {
    open spec fn le(self, other: Self) -> bool {
        lex_le(self.chars@, other.chars@)
    }

    proof fn le_total(a: Self, b: Self) {
        lex_total(a.chars@, b.chars@);
    }

    proof fn le_transitive(a: Self, b: Self, c: Self) {
        lex_transitive(a.chars@, b.chars@, c.chars@);
    }

    fn leq(&self, other: &Self) -> (r: bool) {
        let a = &self.chars;
        let b = &other.chars;
        let mut i: usize = 0;
        proof {
            assert(a@.skip(0) =~= a@);
            assert(b@.skip(0) =~= b@);
        }
        while i < a.len() && i < b.len()
            invariant
                i <= a@.len(),
                i <= b@.len(),
                a@ == self.chars@,
                b@ == other.chars@,
                lex_le(a@, b@) == lex_le(a@.skip(i as int), b@.skip(i as int)),
            decreases a.len() - i,
        {
            if a[i] != b[i] {
                return a[i] < b[i];
            }
            proof {
                assert(a@.skip(i as int).skip(1) =~= a@.skip(i + 1));
                assert(b@.skip(i as int).skip(1) =~= b@.skip(i + 1));
            }
            i = i + 1;
        }
        i == a.len()
    }
}

/// Whether key `a` may stand before key `b`, in the direction asked for.
pub open spec fn in_order<K: SortKey>(a: K, b: K, descending: bool) -> bool {
    if descending {
        b.le(a)
    } else {
        a.le(b)
    }
}

/// Whether position `a` comes before position `b` in the stable order of `keys`.
pub open spec fn precedes<K: SortKey>(keys: Seq<K>, a: int, b: int, descending: bool) -> bool {
    in_order(keys[a], keys[b], descending) && (in_order(keys[b], keys[a], descending) ==> a < b)
}

/// Whether `idx` lists every position below `n` of `keys` once, in stable order.
pub open spec fn ranked<K: SortKey>(
    keys: Seq<K>,
    n: int,
    idx: Seq<usize>,
    descending: bool,
) -> bool {
    &&& idx.len() == n
    &&& forall|i: int| 0 <= i < idx.len() ==> 0 <= (#[trigger] idx[i]) < n
    &&& forall|i: int, j: int|
        0 <= i < j < idx.len() ==> precedes(
            keys,
            (#[trigger] idx[i]) as int,
            (#[trigger] idx[j]) as int,
            descending,
        )
}

/// The items of `s` in the order of `idx`.
pub open spec fn arranged<A>(s: Seq<A>, idx: Seq<usize>) -> Seq<A> {
    Seq::new(idx.len(), |i: int| s[idx[i] as int])
}

/// At most the first `n` items.
pub open spec fn first_n<A>(s: Seq<A>, n: int) -> Seq<A> {
    if s.len() <= n {
        s
    } else {
        s.take(n)
    }
}

/// The positions of `keys` in stable order.
pub fn stable_order<K: SortKey>(keys: &Vec<K>, descending: bool) -> (r: Vec<usize>)
    ensures
        ranked(keys@, keys@.len() as int, r@, descending),
{
    let mut idx: Vec<usize> = Vec::new();
    let mut n: usize = 0;
    while n < keys.len()
        invariant
            n <= keys@.len(),
            ranked(keys@, n as int, idx@, descending),
        decreases keys.len() - n,
    {
        let mut p: usize = idx.len();
        let mut go = true;
        while go
            invariant
                p <= idx@.len(),
                idx@.len() == n,
                n < keys@.len(),
                ranked(keys@, n as int, idx@, descending),
                forall|j: int|
                    p <= j < idx@.len() ==> !in_order(
                        keys@[(#[trigger] idx@[j]) as int],
                        keys@[n as int],
                        descending,
                    ),
                !go ==> p == 0 || in_order(keys@[idx@[p - 1] as int], keys@[n as int], descending),
            decreases p, (if go { 1int } else { 0int }),
        {
            if p == 0 {
                go = false;
            } else {
                let other: usize = idx[p - 1];
                let ordered = if descending {
                    keys[n].leq(&keys[other])
                } else {
                    keys[other].leq(&keys[n])
                };
                if ordered {
                    go = false;
                } else {
                    p = p - 1;
                }
            }
        }
        let ghost before = idx@;
        idx.insert(p, n);
        proof {
            let after = idx@;
            assert forall|i: int, j: int| 0 <= i < j < after.len() implies precedes(
                keys@,
                (#[trigger] after[i]) as int,
                (#[trigger] after[j]) as int,
                descending,
            ) by {
                insertion_keeps_order(keys@, n as int, before, p as int, i, j, descending);
            }
        }
        n = n + 1;
    }
    idx
}

proof fn insertion_keeps_order<K: SortKey>(
    keys: Seq<K>,
    n: int,
    before: Seq<usize>,
    p: int,
    i: int,
    j: int,
    descending: bool,
)
    requires
        0 <= n < keys.len(),
        n <= usize::MAX,
        ranked(keys, n, before, descending),
        0 <= p <= before.len(),
        forall|k: int|
            p <= k < before.len() ==> !in_order(
                keys[(#[trigger] before[k]) as int],
                keys[n],
                descending,
            ),
        p == 0 || in_order(keys[before[p - 1] as int], keys[n], descending),
        0 <= i < j < before.len() + 1,
    ensures
        precedes(
            keys,
            before.insert(p, n as usize)[i] as int,
            before.insert(p, n as usize)[j] as int,
            descending,
        ),
{
    let after = before.insert(p, n as usize);
    if i == p {
        let b = before[j - 1] as int;
        assert(after[j] == before[j - 1]);
        K::le_total(keys[n], keys[b]);
        assert(!in_order(keys[b], keys[n], descending));
    } else if j == p {
        let a = before[i] as int;
        let last = before[p - 1] as int;
        assert(after[i] == before[i]);
        if i < p - 1 {
            assert(precedes(keys, a, last, descending));
            if descending {
                K::le_transitive(keys[n], keys[last], keys[a]);
            } else {
                K::le_transitive(keys[a], keys[last], keys[n]);
            }
        }
        assert(before[i] < n);
    } else {
        let x = if i < p { i } else { i - 1 };
        let y = if j < p { j } else { j - 1 };
        assert(after[i] == before[x] && after[j] == before[y]);
        assert(precedes(keys, before[x] as int, before[y] as int, descending));
    }
}

/// A stable order names every position exactly once.
pub proof fn ranked_is_permutation<K: SortKey>(
    keys: Seq<K>,
    idx: Seq<usize>,
    descending: bool,
)
    requires
        ranked(keys, keys.len() as int, idx, descending),
    ensures
        idx.no_duplicates(),
        forall|k: usize| k < keys.len() ==> #[trigger] idx.contains(k),
{
    assert forall|i: int, j: int| 0 <= i < idx.len() && 0 <= j < idx.len() && i != j implies idx[i]
        != idx[j] by {
        if i < j {
            assert(precedes(keys, idx[i] as int, idx[j] as int, descending));
        } else {
            assert(precedes(keys, idx[j] as int, idx[i] as int, descending));
        }
        K::le_total(keys[idx[i] as int], keys[idx[i] as int]);
    }
    let set = idx.map_values(|x: usize| x as int).to_set();
    let ints = idx.map_values(|x: usize| x as int);
    assert(ints.no_duplicates());
    ints.unique_seq_to_set();
    let full = vstd::set_lib::set_int_range(0, keys.len() as int);
    vstd::set_lib::lemma_int_range(0, keys.len() as int);
    assert(set.subset_of(full)) by {
        assert forall|x: int| set.contains(x) implies full.contains(x) by {
            let i = choose|i: int| 0 <= i < ints.len() && ints[i] == x;
            assert(0 <= idx[i] < keys.len());
        }
    }
    vstd::set_lib::lemma_subset_equality(set, full);
    assert forall|k: usize| k < keys.len() implies #[trigger] idx.contains(k) by {
        assert(full.contains(k as int));
        assert(set.contains(k as int));
        let i = choose|i: int| 0 <= i < ints.len() && ints[i] == k as int;
        assert(idx[i] == k);
    }
}

/// Numbers in order: from the smallest to the largest, or from the largest to the smallest where that
/// is asked for; what is level keeps its place.
pub proof fn numbers_in_order(keys: Seq<u64>, idx: Seq<usize>, i: int, j: int)
    requires
        0 <= i < j < idx.len(),
    ensures
        ranked(keys, keys.len() as int, idx, false) ==> keys[idx[i] as int] < keys[idx[j] as int] || (
        keys[idx[i] as int] == keys[idx[j] as int] && idx[i] < idx[j]),
        ranked(keys, keys.len() as int, idx, true) ==> keys[idx[i] as int] > keys[idx[j] as int] || (
        keys[idx[i] as int] == keys[idx[j] as int] && idx[i] < idx[j]),
{
    if ranked(keys, keys.len() as int, idx, false) {
        assert(precedes(keys, idx[i] as int, idx[j] as int, false));
    }
    if ranked(keys, keys.len() as int, idx, true) {
        assert(precedes(keys, idx[i] as int, idx[j] as int, true));
    }
}

/// Times in order, as numbers are.
pub proof fn times_in_order(keys: Seq<i128>, idx: Seq<usize>, i: int, j: int)
    requires
        0 <= i < j < idx.len(),
    ensures
        ranked(keys, keys.len() as int, idx, false) ==> keys[idx[i] as int] < keys[idx[j] as int] || (
        keys[idx[i] as int] == keys[idx[j] as int] && idx[i] < idx[j]),
        ranked(keys, keys.len() as int, idx, true) ==> keys[idx[i] as int] > keys[idx[j] as int] || (
        keys[idx[i] as int] == keys[idx[j] as int] && idx[i] < idx[j]),
{
    if ranked(keys, keys.len() as int, idx, false) {
        assert(precedes(keys, idx[i] as int, idx[j] as int, false));
    }
    if ranked(keys, keys.len() as int, idx, true) {
        assert(precedes(keys, idx[i] as int, idx[j] as int, true));
    }
}

/// Ranks in order, as numbers are.
pub proof fn ranks_in_order(keys: Seq<i64>, idx: Seq<usize>, i: int, j: int)
    requires
        0 <= i < j < idx.len(),
    ensures
        ranked(keys, keys.len() as int, idx, false) ==> keys[idx[i] as int] < keys[idx[j] as int] || (
        keys[idx[i] as int] == keys[idx[j] as int] && idx[i] < idx[j]),
        ranked(keys, keys.len() as int, idx, true) ==> keys[idx[i] as int] > keys[idx[j] as int] || (
        keys[idx[i] as int] == keys[idx[j] as int] && idx[i] < idx[j]),
{
    if ranked(keys, keys.len() as int, idx, false) {
        assert(precedes(keys, idx[i] as int, idx[j] as int, false));
    }
    if ranked(keys, keys.len() as int, idx, true) {
        assert(precedes(keys, idx[i] as int, idx[j] as int, true));
    }
}

/// Texts sort by the first character in which they differ, and a beginning of a text before it.
pub proof fn first_difference_decides(a: Seq<char>, b: Seq<char>, k: int)
    requires
        0 <= k <= a.len(),
        k <= b.len(),
        forall|j: int| 0 <= j < k ==> a[j] == b[j],
    ensures
        k < a.len() && k < b.len() && a[k] != b[k] ==> (lex_le(a, b) <==> a[k] < b[k]),
        k == a.len() ==> lex_le(a, b),
        k == b.len() && k < a.len() ==> !lex_le(a, b),
    decreases k,
{
    if k > 0 {
        assert(a[0] == b[0]);
        let x = a.skip(1);
        let y = b.skip(1);
        assert forall|j: int| 0 <= j < k - 1 implies x[j] == y[j] by {
            assert(a[j + 1] == b[j + 1]);
        }
        first_difference_decides(x, y, k - 1);
    }
}

/// The first items are a beginning of all, as many as are asked for where there are as many.
pub proof fn first_items<A>(s: Seq<A>, n: int)
    requires
        n >= 0,
    ensures
        first_n(s, n).len() == (if s.len() <= n {
            s.len() as int
        } else {
            n
        }),
        forall|i: int| 0 <= i < first_n(s, n).len() ==> #[trigger] first_n(s, n)[i] == s[i],
{
}

/// Items in an order are the same items.
pub proof fn arranged_holds_the_same<K: SortKey, A>(
    keys: Seq<K>,
    s: Seq<A>,
    idx: Seq<usize>,
    descending: bool,
    x: A,
)
    requires
        keys.len() == s.len(),
        s.len() <= usize::MAX,
        ranked(keys, keys.len() as int, idx, descending),
    ensures
        arranged(s, idx).len() == s.len(),
        arranged(s, idx).contains(x) <==> s.contains(x),
{
    ranked_is_permutation(keys, idx, descending);
    let t = arranged(s, idx);
    if t.contains(x) {
        let i = choose|i: int| 0 <= i < t.len() && t[i] == x;
        assert(s[idx[i] as int] == x);
    }
    if s.contains(x) {
        let k = choose|k: int| 0 <= k < s.len() && s[k] == x;
        assert(idx.contains(k as usize));
        let i = choose|i: int| 0 <= i < idx.len() && idx[i] == k as usize;
        assert(t[i] == x);
    }
}

/// What a filter keeps is what was there and fits.
pub proof fn filter_holds<A>(s: Seq<A>, keep: spec_fn(A) -> bool, x: A)
    ensures
        s.filter(keep).contains(x) <==> s.contains(x) && keep(x),
{
    let kept = s.filter(keep);
    if kept.contains(x) {
        let k = choose|k: int| 0 <= k < kept.len() && kept[k] == x;
        s.lemma_filter_pred(keep, k);
        s.lemma_filter_contains_rev(keep, x);
    }
    if s.contains(x) && keep(x) {
        let k = choose|k: int| 0 <= k < s.len() && s[k] == x;
        s.lemma_filter_contains(keep, k);
    }
}

/// A filter that everything fits keeps all, and one that nothing fits keeps nothing.
pub proof fn filter_of_all<A>(s: Seq<A>, keep: spec_fn(A) -> bool)
    ensures
        (forall|i: int| 0 <= i < s.len() ==> keep(#[trigger] s[i])) ==> s.filter(keep) == s,
        (forall|i: int| 0 <= i < s.len() ==> !keep(#[trigger] s[i])) ==> s.filter(keep).len() == 0,
    decreases s.len(),
{
    reveal(Seq::filter);
    if s.len() > 0 {
        let rest = s.drop_last();
        filter_of_all(rest, keep);
        assert forall|i: int| 0 <= i < rest.len() implies rest[i] == s[i] by {}
        assert(rest.push(s.last()) =~= s);
        assert(s.last() == s[s.len() - 1]);
    }
}

/// What a partial map gives is what it gives for something that was there.
pub proof fn filter_map_holds<A, B>(s: Seq<A>, f: spec_fn(A) -> Option<B>, y: B)
    ensures
        s.filter_map(f).contains(y) <==> exists|x: A| #[trigger] s.contains(x) && f(x) == Some(y),
    decreases s.len(),
{
    if s.len() > 0 {
        let n = s.len() - 1;
        let rest = s.take(n);
        filter_map_holds(rest, f, y);
        s.lemma_filter_map_take_succ(f, n);
        assert(s.take(n + 1) =~= s);
        let before = rest.filter_map(f);
        let all = s.filter_map(f);
        if all.contains(y) {
            let k = choose|k: int| 0 <= k < all.len() && all[k] == y;
            if k < before.len() {
                assert(before[k] == y);
                let x = choose|x: A| #[trigger] rest.contains(x) && f(x) == Some(y);
                let i = choose|i: int| 0 <= i < rest.len() && rest[i] == x;
                assert(s[i] == x);
                assert(s.contains(x));
            } else {
                assert(s.contains(s[n]));
            }
        }
        if exists|x: A| #[trigger] s.contains(x) && f(x) == Some(y) {
            let x = choose|x: A| #[trigger] s.contains(x) && f(x) == Some(y);
            let i = choose|i: int| 0 <= i < s.len() && s[i] == x;
            if i < n {
                assert(rest[i] == x);
                assert(rest.contains(x));
                let k = choose|k: int| 0 <= k < before.len() && before[k] == y;
                assert(all[k] == y);
            } else {
                assert(all[before.len() as int] == y);
            }
        }
    } else {
        assert(s =~= Seq::empty());
        assert(s.filter_map(f) =~= Seq::empty());
    }
}

} // verus!
