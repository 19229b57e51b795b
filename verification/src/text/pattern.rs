//! Prefixes, occurrences, splitting and joining.

use super::{from_chars, texts, to_chars};
use vstd::prelude::*;

verus! {

/// Whether `pat` stands in `s` at position `i`.
pub open spec fn occurs_at(s: Seq<char>, pat: Seq<char>, i: int) -> bool {
    0 <= i && i + pat.len() <= s.len() && s.subrange(i, i + pat.len()) == pat
}

/// Whether `s` begins with `pat`.
pub open spec fn begins_with(s: Seq<char>, pat: Seq<char>) -> bool {
    occurs_at(s, pat, 0)
}

/// Whether `pat` stands anywhere in `s`.
pub open spec fn has_substring(s: Seq<char>, pat: Seq<char>) -> bool {
    exists|i: int| occurs_at(s, pat, i)
}

/// Position of the first `c` in `s`, or the length of `s`.
pub open spec fn find_char(s: Seq<char>, c: char) -> int
    decreases s.len(),
{
    if s.len() == 0 || s[0] == c {
        0
    } else {
        1 + find_char(s.skip(1), c)
    }
}

/// The pieces of `s` between the separators `c`.
pub open spec fn split_on(s: Seq<char>, c: char) -> Seq<Seq<char>>
    decreases s.len(),
{
    let k = find_char(s, c);
    if 0 <= k < s.len() {
        seq![s.take(k)] + split_on(s.skip(k + 1), c)
    } else {
        seq![s]
    }
}

/// Position of the first occurrence of `pat` at or after `from`.
pub open spec fn find_from(s: Seq<char>, pat: Seq<char>, from: int) -> Option<int>
    decreases s.len() - from + 1,
{
    if from < 0 || from + pat.len() > s.len() {
        None
    } else if occurs_at(s, pat, from) {
        Some(from)
    } else {
        find_from(s, pat, from + 1)
    }
}

/// The pieces joined with `sep` between neighbours.
pub open spec fn joined(parts: Seq<Seq<char>>, sep: Seq<char>) -> Seq<char>
    decreases parts.len(),
{
    if parts.len() == 0 {
        Seq::empty()
    } else if parts.len() == 1 {
        parts[0]
    } else {
        joined(parts.drop_last(), sep) + sep + parts.last()
    }
}

/// `s` without every leading copy of `pat`.
pub open spec fn strip_leading(s: Seq<char>, pat: Seq<char>) -> Seq<char>
    decreases s.len(),
{
    if pat.len() > 0 && begins_with(s, pat) {
        strip_leading(s.skip(pat.len() as int), pat)
    } else {
        s
    }
}

/// `find_char` is the first position that holds `c`.
pub proof fn find_char_is_first(s: Seq<char>, c: char)
    ensures
        0 <= find_char(s, c) <= s.len(),
        find_char(s, c) < s.len() ==> s[find_char(s, c)] == c,
        forall|j: int| 0 <= j < find_char(s, c) ==> s[j] != c,
    decreases s.len(),
{
    if s.len() > 0 && s[0] != c {
        find_char_is_first(s.skip(1), c);
        assert forall|j: int| 0 <= j < find_char(s, c) implies s[j] != c by {
            if j > 0 {
                assert(s.skip(1)[j - 1] != c);
            }
        }
    }
}

/// The first position that holds `c` is the only one with nothing but other characters before it.
proof fn find_char_unique(s: Seq<char>, c: char, k: int)
    requires
        0 <= k <= s.len(),
        k < s.len() ==> s[k] == c,
        forall|j: int| 0 <= j < k ==> s[j] != c,
    ensures
        find_char(s, c) == k,
{
    find_char_is_first(s, c);
}

fn matches_at(s: &Vec<char>, pat: &Vec<char>, at: usize) -> (r: bool)
    requires
        at <= s@.len(),
    ensures
        r == occurs_at(s@, pat@, at as int),
{
    let n: usize = s.len();
    if pat.len() > n - at {
        return false;
    }
    let mut k: usize = 0;
    while k < pat.len()
        invariant
            k <= pat@.len(),
            at + pat@.len() <= n,
            n == s@.len(),
            forall|j: int| 0 <= j < k ==> s@[at + j] == pat@[j],
        decreases pat.len() - k,
    {
        if s[at + k] != pat[k] {
            assert(s@.subrange(at as int, at + pat@.len())[k as int] != pat@[k as int]);
            return false;
        }
        k = k + 1;
    }
    assert(s@.subrange(at as int, at + pat@.len()) =~= pat@);
    true
}

/// Whether `s` begins with `pat`.
pub fn starts_with(s: &str, pat: &str) -> (r: bool)
    ensures
        r == begins_with(s@, pat@),
{
    matches_at(&to_chars(s), &to_chars(pat), 0)
}

/// What follows `pat` at the start of `s`.
pub fn strip_prefix(s: &str, pat: &str) -> (r: Option<String>)
    ensures
        match r {
            Some(rest) => begins_with(s@, pat@) && rest@ == s@.skip(pat@.len() as int),
            None => !begins_with(s@, pat@),
        },
{
    let cs = to_chars(s);
    let ps = to_chars(pat);
    if matches_at(&cs, &ps, 0) {
        Some(from_chars(&cs, ps.len(), cs.len()))
    } else {
        None
    }
}

/// `s` without every leading copy of `pat`.
pub fn trim_start_matches(s: &str, pat: &str) -> (r: String)
    ensures
        r@ == strip_leading(s@, pat@),
{
    let cs = to_chars(s);
    let ps = to_chars(pat);
    let mut at: usize = 0;
    proof {
        assert(s@.skip(0) =~= s@);
    }
    while ps.len() > 0 && matches_at(&cs, &ps, at)
        invariant
            at <= cs@.len(),
            cs@ == s@,
            ps@ == pat@,
            strip_leading(s@, pat@) == strip_leading(s@.skip(at as int), pat@),
        decreases cs.len() - at,
    {
        proof {
            let t = s@.skip(at as int);
            assert(t.subrange(0, pat@.len() as int) =~= s@.subrange(
                at as int,
                at + pat@.len(),
            ));
            assert(begins_with(t, pat@));
            assert(t.skip(pat@.len() as int) =~= s@.skip(at + pat@.len()));
        }
        at = at + ps.len();
    }
    proof {
        let t = s@.skip(at as int);
        if pat@.len() > 0 && begins_with(t, pat@) {
            assert(s@.subrange(at as int, at + pat@.len()) =~= t.subrange(0, pat@.len() as int));
            assert(occurs_at(s@, pat@, at as int));
        }
        assert(t =~= s@.subrange(at as int, s@.len() as int));
    }
    from_chars(&cs, at, cs.len())
}

/// Whether `pat` stands anywhere in `s`.
pub fn contains(s: &str, pat: &str) -> (r: bool)
    ensures
        r == has_substring(s@, pat@),
{
    let cs = to_chars(s);
    let ps = to_chars(pat);
    let mut at: usize = 0;
    while at < cs.len()
        invariant
            at <= cs@.len(),
            cs@ == s@,
            ps@ == pat@,
            forall|i: int| 0 <= i < at ==> !occurs_at(s@, pat@, i),
        decreases cs.len() - at,
    {
        if matches_at(&cs, &ps, at) {
            return true;
        }
        at = at + 1;
    }
    matches_at(&cs, &ps, at)
}

/// Position of the first `c`, or the length of `s`.
fn index_of_char(s: &Vec<char>, c: char, from: usize) -> (r: usize)
    requires
        from <= s@.len(),
    ensures
        from <= r <= s@.len(),
        r == from + find_char(s@.skip(from as int), c),
{
    let mut k: usize = from;
    while k < s.len() && s[k] != c
        invariant
            from <= k <= s@.len(),
            forall|j: int| from <= j < k ==> s@[j] != c,
        decreases s.len() - k,
    {
        k = k + 1;
    }
    proof {
        find_char_unique(s@.skip(from as int), c, k - from);
    }
    k
}

/// The texts before and after the first `c`.
pub fn split_once(s: &str, c: char) -> (r: Option<(String, String)>)
    ensures
        match r {
            Some(p) => {
                &&& find_char(s@, c) < s@.len()
                &&& p.0@ == s@.take(find_char(s@, c))
                &&& p.1@ == s@.skip(find_char(s@, c) + 1)
            },
            None => find_char(s@, c) == s@.len(),
        },
{
    let cs = to_chars(s);
    let k = index_of_char(&cs, c, 0);
    proof {
        assert(s@.skip(0) =~= s@);
    }
    if k < cs.len() {
        Some((from_chars(&cs, 0, k), from_chars(&cs, k + 1, cs.len())))
    } else {
        None
    }
}

/// The texts before and after the first occurrence of `pat`.
pub fn split_once_str(s: &str, pat: &str) -> (r: Option<(String, String)>)
    ensures
        match r {
            Some(p) => find_from(s@, pat@, 0) matches Some(k) && 0 <= k && k + pat@.len()
                <= s@.len() && p.0@ == s@.take(k) && p.1@ == s@.skip(k + pat@.len()),
            None => find_from(s@, pat@, 0) is None,
        },
{
    let cs = to_chars(s);
    let ps = to_chars(pat);
    let mut at: usize = 0;
    while at < cs.len()
        invariant
            at <= cs@.len(),
            cs@ == s@,
            ps@ == pat@,
            find_from(s@, pat@, 0) == find_from(s@, pat@, at as int),
        decreases cs.len() - at,
    {
        if matches_at(&cs, &ps, at) {
            return Some((from_chars(&cs, 0, at), from_chars(&cs, at + ps.len(), cs.len())));
        }
        proof {
            if at + pat@.len() > s@.len() {
                assert(find_from(s@, pat@, at + 1) is None);
            }
        }
        at = at + 1;
    }
    if matches_at(&cs, &ps, at) {
        Some((from_chars(&cs, 0, at), from_chars(&cs, at + ps.len(), cs.len())))
    } else {
        proof {
            reveal_with_fuel(find_from, 2);
        }
        None
    }
}

/// What follows the last `c`, or all of `s`.
pub open spec fn after_last(s: Seq<char>, c: char) -> Seq<char>
    decreases s.len(),
{
    let k = find_char(s, c);
    if 0 <= k < s.len() {
        after_last(s.skip(k + 1), c)
    } else {
        s
    }
}

/// What follows the last `c`, or all of `s`.
pub fn rsplit_tail(s: &str, c: char) -> (r: String)
    ensures
        r@ == after_last(s@, c),
{
    let cs = to_chars(s);
    let mut from: usize = 0;
    proof {
        assert(s@.skip(0) =~= s@);
    }
    loop
        invariant
            from <= cs@.len(),
            cs@ == s@,
            after_last(s@, c) == after_last(s@.skip(from as int), c),
        decreases cs.len() - from,
    {
        let k = index_of_char(&cs, c, from);
        if k < cs.len() {
            proof {
                assert(s@.skip(from as int).skip(k - from + 1) =~= s@.skip(k + 1));
            }
            from = k + 1;
        } else {
            assert(s@.skip(from as int) =~= s@.subrange(from as int, s@.len() as int));
            return from_chars(&cs, from, cs.len());
        }
    }
}

/// The pieces of `s` between the separators `c`.
pub fn split(s: &str, c: char) -> (r: Vec<String>)
    ensures
        texts(r@) == split_on(s@, c),
{
    let cs = to_chars(s);
    let mut r: Vec<String> = Vec::new();
    let mut from: usize = 0;
    proof {
        assert(s@.skip(0) =~= s@);
        assert(texts(r@) =~= Seq::<Seq<char>>::empty());
        assert(Seq::<Seq<char>>::empty() + split_on(s@, c) =~= split_on(s@, c));
    }
    loop
        invariant
            from <= cs@.len(),
            cs@ == s@,
            texts(r@) + split_on(s@.skip(from as int), c) == split_on(s@, c),
        decreases cs.len() - from,
    {
        let k = index_of_char(&cs, c, from);
        let ghost before = r@;
        let ghost t = s@.skip(from as int);
        r.push(from_chars(&cs, from, k));
        proof {
            assert(t.take(k - from) =~= s@.subrange(from as int, k as int));
            assert(texts(r@) =~= texts(before).push(t.take(k - from)));
        }
        if k < cs.len() {
            proof {
                assert(t.skip(k - from + 1) =~= s@.skip(k + 1));
                assert(texts(r@) + split_on(s@.skip(k + 1), c) =~= texts(before) + (seq![
                    t.take(k - from),
                ] + split_on(s@.skip(k + 1), c)));
            }
            from = k + 1;
        } else {
            proof {
                assert(t.take(k - from) =~= t);
                assert(texts(r@) =~= texts(before) + seq![t]);
            }
            return r;
        }
    }
}

/// The parts joined with `sep` between neighbours.
pub fn join(parts: &Vec<String>, sep: &str) -> (r: String)
    ensures
        r@ == joined(texts(parts@), sep@),
{
    let mut r = String::new();
    let mut i: usize = 0;
    while i < parts.len()
        invariant
            i <= parts@.len(),
            r@ == joined(texts(parts@).take(i as int), sep@),
        decreases parts.len() - i,
    {
        let ghost p = texts(parts@).take(i + 1);
        if i > 0 {
            r.append(sep);
        }
        r.append(parts[i].as_str());
        proof {
            assert(p.drop_last() =~= texts(parts@).take(i as int));
            assert(p.last() == parts@[i as int]@);
            if i == 0 {
                assert(r@ =~= p[0]);
            }
        }
        i = i + 1;
    }
    proof {
        assert(texts(parts@).take(i as int) =~= texts(parts@));
    }
    r
}

/// What is found stands in the text, and nothing like it stands between the place where the search
/// began and the place where it was found. Where nothing is found, there is nothing.
pub proof fn found_first(s: Seq<char>, pat: Seq<char>, from: int)
    requires
        0 <= from,
    ensures
        match find_from(s, pat, from) {
            Some(k) => {
                &&& from <= k && k + pat.len() <= s.len()
                &&& s == s.take(k) + pat + s.skip(k + pat.len())
                &&& forall|j: int|
                    from <= j < k ==> #[trigger] s.subrange(j, j + pat.len()) != pat
            },
            None => forall|j: int|
                from <= j && j + pat.len() <= s.len() ==> #[trigger] s.subrange(
                    j,
                    j + pat.len(),
                ) != pat,
        },
    decreases s.len() - from + 1,
{
    if from + pat.len() <= s.len() {
        if occurs_at(s, pat, from) {
            let t = s.subrange(from, from + pat.len());
            assert(s =~= s.take(from) + t + s.skip(from + pat.len()));
        } else {
            assert(s.subrange(from, from + pat.len()) != pat);
            found_first(s, pat, from + 1);
        }
    }
}

/// A text holds another if it falls into what stands before it, it, and what stands behind it.
pub proof fn substrings_stand_between(s: Seq<char>, pat: Seq<char>)
    ensures
        has_substring(s, pat) <==> exists|a: Seq<char>, b: Seq<char>| s == #[trigger] (a + pat + b),
        has_substring(s, pat) <==> find_from(s, pat, 0) is Some,
        begins_with(s, pat) <==> exists|b: Seq<char>| s == #[trigger] (pat + b),
{
    if has_substring(s, pat) {
        let i = choose|i: int| occurs_at(s, pat, i);
        let t = s.subrange(i, i + pat.len());
        assert(s =~= s.take(i) + t + s.skip(i + pat.len()));
    }
    if exists|a: Seq<char>, b: Seq<char>| s == #[trigger] (a + pat + b) {
        let (a, b) = choose|a: Seq<char>, b: Seq<char>| s == #[trigger] (a + pat + b);
        assert(s.subrange(a.len() as int, a.len() as int + pat.len()) =~= pat);
        assert(occurs_at(s, pat, a.len() as int));
    }
    found_first(s, pat, 0);
    if find_from(s, pat, 0) is Some {
        let k = find_from(s, pat, 0)->0;
        assert(s.subrange(k, k + pat.len()) =~= pat);
        assert(occurs_at(s, pat, k));
    } else if has_substring(s, pat) {
        let i = choose|i: int| occurs_at(s, pat, i);
        assert(s.subrange(i, i + pat.len()) == pat);
    }
    if begins_with(s, pat) {
        assert(s =~= s.subrange(0, pat.len() as int) + s.skip(pat.len() as int));
    }
    if exists|b: Seq<char>| s == #[trigger] (pat + b) {
        let b = choose|b: Seq<char>| s == #[trigger] (pat + b);
        assert(s.subrange(0, 0int + pat.len()) =~= pat);
    }
}

/// The pieces of a text hold no separator, and put together again with separators between them they
/// are the text.
pub proof fn pieces_make_the_text(s: Seq<char>, c: char)
    ensures
        split_on(s, c).len() > 0,
        forall|i: int, j: int|
            0 <= i < split_on(s, c).len() && 0 <= j < split_on(s, c)[i].len() ==> (
            #[trigger] split_on(s, c)[i][j]) != c,
        joined(split_on(s, c), seq![c]) == s,
    decreases s.len(),
{
    find_char_is_first(s, c);
    let k = find_char(s, c);
    let parts = split_on(s, c);
    if k < s.len() {
        let rest = split_on(s.skip(k + 1), c);
        pieces_make_the_text(s.skip(k + 1), c);
        assert forall|i: int, j: int| 0 <= i < parts.len() && 0 <= j < parts[i].len() implies (
        #[trigger] parts[i][j]) != c by {
            if i > 0 {
                assert(parts[i] == rest[i - 1]);
                assert(rest[i - 1][j] != c);
            }
        }
        joined_after_first(s.take(k), rest, seq![c]);
        assert(s =~= s.take(k) + seq![c] + s.skip(k + 1));
    }
}

/// The first piece comes first, with a separator behind it where there are more.
pub proof fn joined_after_first(first: Seq<char>, rest: Seq<Seq<char>>, sep: Seq<char>)
    requires
        rest.len() > 0,
    ensures
        joined(seq![first] + rest, sep) == first + sep + joined(rest, sep),
    decreases rest.len(),
{
    let all = seq![first] + rest;
    assert(all.drop_last() =~= seq![first] + rest.drop_last());
    if rest.len() == 1 {
        assert(all.drop_last() =~= seq![first]);
        assert(joined(seq![first], sep) == first);
    } else {
        joined_after_first(first, rest.drop_last(), sep);
        assert(joined(all, sep) =~= first + sep + joined(rest, sep));
    }
}

/// What is left after leading copies were taken off begins with none, and only copies were taken off.
pub proof fn only_copies_are_stripped(s: Seq<char>, pat: Seq<char>)
    requires
        pat.len() > 0,
    ensures
        !begins_with(strip_leading(s, pat), pat),
        strip_leading(s, pat).len() <= s.len(),
        s.skip(s.len() - strip_leading(s, pat).len()) == strip_leading(s, pat),
        begins_with(s, pat) ==> strip_leading(s, pat) == strip_leading(
            s.skip(pat.len() as int),
            pat,
        ),
        !begins_with(s, pat) ==> strip_leading(s, pat) == s,
    decreases s.len(),
{
    if begins_with(s, pat) {
        let t = s.skip(pat.len() as int);
        only_copies_are_stripped(t, pat);
        let r = strip_leading(t, pat);
        assert(s.skip(s.len() - r.len()) =~= t.skip(t.len() - r.len()));
    } else {
        assert(s.skip(0) =~= s);
    }
}

/// What follows the last separator holds none, and stands at the end of the text, behind a separator
/// unless the text holds none.
pub proof fn tail_holds_no_separator(s: Seq<char>, c: char)
    ensures
        !after_last(s, c).contains(c),
        after_last(s, c).len() <= s.len(),
        after_last(s, c) == s.skip(s.len() - after_last(s, c).len()),
        s.contains(c) ==> after_last(s, c).len() < s.len() && s[s.len() - after_last(s, c).len() - 1]
            == c,
        !s.contains(c) ==> after_last(s, c) == s,
    decreases s.len(),
{
    find_char_is_first(s, c);
    let k = find_char(s, c);
    if k < s.len() {
        let t = s.skip(k + 1);
        assert(s[k] == c);
        tail_holds_no_separator(t, c);
        let r = after_last(t, c);
        assert(s.skip(s.len() - r.len()) =~= t.skip(t.len() - r.len()));
        if !t.contains(c) {
            assert(r == t);
        } else {
            assert(s[s.len() - r.len() - 1] == t[t.len() - r.len() - 1]);
        }
    } else {
        assert(s.skip(0) =~= s);
        if s.contains(c) {
            let j = choose|j: int| 0 <= j < s.len() && s[j] == c;
            assert(false);
        }
    }
}

/// A text does not begin with another from which it differs at some place.
pub proof fn differs_at(s: Seq<char>, pat: Seq<char>, k: int)
    requires
        0 <= k < pat.len(),
        k < s.len() ==> s[k] != pat[k],
    ensures
        !begins_with(s, pat),
{
    if begins_with(s, pat) {
        assert(s.subrange(0, 0int + pat.len())[k] == s[k]);
    }
}

/// A text holds each of the parts that it is put together from.
pub proof fn parts_are_held(a: Seq<char>, part: Seq<char>, b: Seq<char>)
    ensures
        has_substring(a + part + b, part),
{
    substrings_stand_between(a + part + b, part);
}

} // verus!
