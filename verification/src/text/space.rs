//! White space: trimming and words.

use super::{from_chars, texts, to_chars};
use vstd::prelude::*;

verus! {

/// Unicode white space.
pub open spec fn is_white(c: char) -> bool {
    let u = c as u32;
    ||| 0x09 <= u <= 0x0d
    ||| u == 0x20
    ||| u == 0x85
    ||| u == 0xa0
    ||| u == 0x1680
    ||| 0x2000 <= u <= 0x200a
    ||| u == 0x2028
    ||| u == 0x2029
    ||| u == 0x202f
    ||| u == 0x205f
    ||| u == 0x3000
}

/// `s` without leading white space.
pub open spec fn trimmed_start(s: Seq<char>) -> Seq<char>
    decreases s.len(),
{
    if s.len() > 0 && is_white(s[0]) {
        trimmed_start(s.skip(1))
    } else {
        s
    }
}

/// `s` without trailing white space.
pub open spec fn trimmed_end(s: Seq<char>) -> Seq<char>
    decreases s.len(),
{
    if s.len() > 0 && is_white(s.last()) {
        trimmed_end(s.drop_last())
    } else {
        s
    }
}

/// `s` without leading and trailing white space.
pub open spec fn trimmed(s: Seq<char>) -> Seq<char> {
    trimmed_end(trimmed_start(s))
}

/// A text without white space at its ends is left as it is.
pub proof fn trimmed_already(s: Seq<char>)
    requires
        s.len() > 0 ==> !is_white(s[0]) && !is_white(s.last()),
    ensures
        trimmed(s) == s,
{
}

proof fn start_is_trimmed(s: Seq<char>)
    ensures
        trimmed_start(s).len() > 0 ==> !is_white(trimmed_start(s)[0]),
    decreases s.len(),
{
    if s.len() > 0 && is_white(s[0]) {
        start_is_trimmed(s.skip(1));
    }
}

proof fn end_is_trimmed(s: Seq<char>)
    ensures
        trimmed_end(s).len() > 0 ==> !is_white(trimmed_end(s).last()) && trimmed_end(s)[0] == s[0],
    decreases s.len(),
{
    if s.len() > 0 && is_white(s.last()) {
        end_is_trimmed(s.drop_last());
    }
}

/// Trimming twice is trimming once.
pub proof fn trim_is_idempotent(s: Seq<char>)
    ensures
        trimmed(trimmed(s)) == trimmed(s),
{
    start_is_trimmed(s);
    end_is_trimmed(trimmed_start(s));
    trimmed_already(trimmed(s));
}

/// Length of the longest prefix of `s` without white space.
pub open spec fn word_len(s: Seq<char>) -> int
    decreases s.len(),
{
    if s.len() == 0 || is_white(s[0]) {
        0
    } else {
        1 + word_len(s.skip(1))
    }
}

/// The maximal runs of characters of `s` without white space.
pub open spec fn words(s: Seq<char>) -> Seq<Seq<char>>
    decreases s.len(),
{
    if s.len() == 0 {
        Seq::empty()
    } else if is_white(s[0]) {
        words(s.skip(1))
    } else {
        let k = word_len(s);
        if 0 < k <= s.len() {
            seq![s.take(k)] + words(s.skip(k))
        } else {
            Seq::empty()
        }
    }
}

/// Whether `c` is white space.
pub fn is_space(c: char) -> (r: bool)
    ensures
        r == is_white(c),
{
    let u: u32 = c as u32;
    (0x09 <= u && u <= 0x0d) || u == 0x20 || u == 0x85 || u == 0xa0 || u == 0x1680 || (0x2000 <= u
        && u <= 0x200a) || u == 0x2028 || u == 0x2029 || u == 0x202f || u == 0x205f || u == 0x3000
}

/// `s` without leading and trailing white space.
pub fn trim(s: &str) -> (r: String)
    ensures
        r@ == trimmed(s@),
{
    let cs = to_chars(s);
    let mut from: usize = 0;
    proof {
        assert(s@.skip(0) =~= s@);
    }
    while from < cs.len() && is_space(cs[from])
        invariant
            from <= cs@.len(),
            cs@ == s@,
            trimmed_start(s@) == trimmed_start(s@.skip(from as int)),
        decreases cs.len() - from,
    {
        proof {
            assert(s@.skip(from as int).skip(1) =~= s@.skip(from + 1));
        }
        from = from + 1;
    }
    let ghost t = s@.skip(from as int);
    let mut to: usize = cs.len();
    proof {
        assert(t =~= s@.subrange(from as int, to as int));
    }
    while to > from && is_space(cs[to - 1])
        invariant
            from <= to <= cs@.len(),
            cs@ == s@,
            trimmed_end(t) == trimmed_end(s@.subrange(from as int, to as int)),
        decreases to,
    {
        proof {
            assert(s@.subrange(from as int, to as int).drop_last() =~= s@.subrange(
                from as int,
                to - 1,
            ));
        }
        to = to - 1;
    }
    from_chars(&cs, from, to)
}

/// Whether `s` holds nothing but white space.
pub fn is_blank(s: &str) -> (r: bool)
    ensures
        r == (trimmed(s@).len() == 0),
{
    trim(s).as_str().is_empty()
}

/// The maximal runs of characters of `s` without white space.
pub fn split_whitespace(s: &str) -> (r: Vec<String>)
    ensures
        texts(r@) == words(s@),
{
    let cs = to_chars(s);
    let mut r: Vec<String> = Vec::new();
    let mut from: usize = 0;
    proof {
        assert(s@.skip(0) =~= s@);
        assert(texts(r@) + words(s@) =~= words(s@));
    }
    while from < cs.len()
        invariant
            from <= cs@.len(),
            cs@ == s@,
            texts(r@) + words(s@.skip(from as int)) == words(s@),
        decreases cs.len() - from,
    {
        let ghost t = s@.skip(from as int);
        if is_space(cs[from]) {
            proof {
                assert(t.skip(1) =~= s@.skip(from + 1));
            }
            from = from + 1;
        } else {
            let mut k: usize = from + 1;
            proof {
                reveal_with_fuel(word_len, 2);
                assert(t.skip(1) =~= s@.skip(k as int));
            }
            while k < cs.len() && !is_space(cs[k])
                invariant
                    from < k <= cs@.len(),
                    cs@ == s@,
                    word_len(t) == k - from + word_len(s@.skip(k as int)),
                decreases cs.len() - k,
            {
                proof {
                    assert(s@.skip(k as int).skip(1) =~= s@.skip(k + 1));
                }
                k = k + 1;
            }
            let ghost before = r@;
            r.push(from_chars(&cs, from, k));
            proof {
                assert(word_len(t) == k - from);
                assert(t.take(k - from) =~= s@.subrange(from as int, k as int));
                assert(t.skip(k - from) =~= s@.skip(k as int));
                assert(texts(r@) =~= texts(before).push(t.take(k - from)));
                assert(texts(r@) + words(s@.skip(k as int)) =~= texts(before) + (seq![
                    t.take(k - from),
                ] + words(s@.skip(k as int))));
            }
            from = k;
        }
    }
    proof {
        assert(texts(r@) + words(s@.skip(from as int)) =~= texts(r@));
    }
    r
}

/// Trimming takes white space off both ends and nothing else.
pub proof fn only_white_is_trimmed(s: Seq<char>)
    ensures
        trimmed(s).len() > 0 ==> !is_white(trimmed(s)[0]) && !is_white(trimmed(s).last()),
        exists|a: Seq<char>, b: Seq<char>|
            s == #[trigger] (a + trimmed(s) + b) && all_white(a) && all_white(b),
{
    start_is_trimmed(s);
    end_is_trimmed(trimmed_start(s));
    let t = trimmed_start(s);
    let u = trimmed(s);
    start_taken_off(s);
    end_taken_off(t);
    let a = s.take(s.len() - t.len());
    let b = t.skip(u.len() as int);
    assert(s =~= a + t);
    assert(t =~= u + b);
    assert(s =~= a + u + b);
    assert(all_white(a)) by {
        assert forall|i: int| 0 <= i < a.len() implies is_white(#[trigger] a[i]) by {
            assert(a[i] == s[i]);
        }
    }
    assert(all_white(b)) by {
        assert forall|i: int| 0 <= i < b.len() implies is_white(#[trigger] b[i]) by {
            assert(b[i] == t[u.len() + i]);
        }
    }
}

/// Whether a text holds nothing but white space.
pub open spec fn all_white(s: Seq<char>) -> bool {
    forall|i: int| 0 <= i < s.len() ==> is_white(#[trigger] s[i])
}

/// Nothing is left of a text exactly if it holds nothing but white space.
pub proof fn white_texts_are_blank(s: Seq<char>)
    ensures
        trimmed(s).len() == 0 <==> all_white(s),
{
    let t = trimmed_start(s);
    start_is_trimmed(s);
    end_is_trimmed(t);
    start_taken_off(s);
    end_taken_off(t);
    let k = s.len() - t.len();
    if trimmed(s).len() == 0 {
        assert forall|i: int| 0 <= i < s.len() implies is_white(#[trigger] s[i]) by {
            if i >= k {
                assert(t[i - k] == s[i]);
            }
        }
    } else {
        assert(t.len() > 0);
        assert(s[k] == t[0]);
    }
}

proof fn start_taken_off(s: Seq<char>)
    ensures
        trimmed_start(s).len() <= s.len(),
        s.skip(s.len() - trimmed_start(s).len()) == trimmed_start(s),
        forall|i: int| 0 <= i < s.len() - trimmed_start(s).len() ==> is_white(#[trigger] s[i]),
    decreases s.len(),
{
    if s.len() > 0 && is_white(s[0]) {
        let t = s.skip(1);
        start_taken_off(t);
        let r = trimmed_start(t);
        assert(s.skip(s.len() - r.len()) =~= t.skip(t.len() - r.len()));
        assert forall|i: int| 0 <= i < s.len() - r.len() implies is_white(#[trigger] s[i]) by {
            if i > 0 {
                assert(t[i - 1] == s[i]);
            }
        }
    } else {
        assert(s.skip(0) =~= s);
    }
}

proof fn end_taken_off(s: Seq<char>)
    ensures
        trimmed_end(s).len() <= s.len(),
        s.take(trimmed_end(s).len() as int) == trimmed_end(s),
        forall|i: int| trimmed_end(s).len() <= i < s.len() ==> is_white(#[trigger] s[i]),
    decreases s.len(),
{
    if s.len() > 0 && is_white(s.last()) {
        let t = s.drop_last();
        end_taken_off(t);
        let r = trimmed_end(t);
        assert(s.take(r.len() as int) =~= t.take(r.len() as int));
        assert forall|i: int| r.len() <= i < s.len() implies is_white(#[trigger] s[i]) by {
            if i < t.len() {
                assert(t[i] == s[i]);
            }
        }
    } else {
        assert(s.take(s.len() as int) =~= s);
    }
}

/// A word ends at the next white space; white space between words does not count.
pub proof fn white_space_ends_words(w: Seq<char>, c: char, rest: Seq<char>)
    requires
        forall|i: int| 0 <= i < w.len() ==> !is_white(#[trigger] w[i]),
        is_white(c),
    ensures
        words(Seq::empty()).len() == 0,
        words(seq![c] + rest) == words(rest),
        w.len() > 0 ==> words(w + seq![c] + rest) == seq![w] + words(rest),
        w.len() > 0 ==> words(w) == seq![w],
{
    assert((seq![c] + rest).skip(1) =~= rest);
    if w.len() > 0 {
        let s = w + seq![c] + rest;
        assert(s[0] == w[0]);
        assert(s.take(w.len() as int) =~= w);
        let more = seq![c] + rest;
        assert(s =~= w + more);
        length_of_word(w, more);
        assert(s.skip(w.len() as int) =~= more);
        assert(words(s) == seq![w] + words(more));
        length_of_word(w, Seq::empty());
        assert(w + Seq::<char>::empty() =~= w);
        assert(w.take(w.len() as int) =~= w);
        assert(w.skip(w.len() as int) =~= Seq::<char>::empty());
        assert(words(Seq::<char>::empty()) =~= Seq::<Seq<char>>::empty());
        assert(word_len(w) == w.len());
        assert(words(w) == seq![w] + words(w.skip(w.len() as int)));
        assert(words(w) =~= seq![w]);
    }
}

proof fn length_of_word(w: Seq<char>, rest: Seq<char>)
    requires
        forall|i: int| 0 <= i < w.len() ==> !is_white(#[trigger] w[i]),
        rest.len() > 0 ==> is_white(rest[0]),
    ensures
        word_len(w + rest) == w.len(),
    decreases w.len(),
{
    let s = w + rest;
    if w.len() > 0 {
        assert(!is_white(w[0]));
        assert(s[0] == w[0]);
        assert(s.skip(1) =~= w.skip(1) + rest);
        assert forall|i: int| 0 <= i < w.skip(1).len() implies !is_white(#[trigger] w.skip(1)[i]) by {
            assert(w.skip(1)[i] == w[i + 1]);
        }
        length_of_word(w.skip(1), rest);
    } else {
        assert(s =~= rest);
    }
}

} // verus!
