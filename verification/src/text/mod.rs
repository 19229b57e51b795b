//! Text operations on `str` and `String`, stated over the sequence of characters.

pub mod pattern;
pub mod space;
pub mod number;
pub mod case;

use vstd::prelude::*;
use vstd::utf8::*;

verus! {

/// `String::push` appends one character at the end.
pub assume_specification[ String::push ](s: &mut String, ch: char)
    ensures
        final(s)@ == old(s)@.push(ch),
;

/// The text in an optional string slice.
pub open spec fn opt_str(s: Option<&str>) -> Option<Seq<char>> {
    match s {
        Some(s) => Some(s@),
        None => None,
    }
}

/// The texts held by an optional string.
pub open spec fn opt_text(o: Option<String>) -> Option<Seq<char>> {
    match o {
        Some(s) => Some(s@),
        None => None,
    }
}

/// The texts held by a list of strings.
pub open spec fn texts(v: Seq<String>) -> Seq<Seq<char>> {
    Seq::new(v.len(), |i: int| v[i]@)
}

/// The characters of `s`, in order.
pub fn to_chars(s: &str) -> (r: Vec<char>)
    ensures
        r@ == s@,
{
    let mut r: Vec<char> = Vec::new();
    for c in it: s.chars()
        invariant
            r@ == it.seq().take(it.index()),
            it.seq() == s@,
    {
        r.push(c);
    }
    r
}

/// The text of `chars[from..to]`.
pub fn from_chars(chars: &Vec<char>, from: usize, to: usize) -> (r: String)
    requires
        from <= to <= chars@.len(),
    ensures
        r@ == chars@.subrange(from as int, to as int),
{
    let mut r = String::new();
    let mut i: usize = from;
    while i < to
        invariant
            from <= i <= to <= chars@.len(),
            r@ == chars@.subrange(from as int, i as int),
        decreases to - i,
    {
        r.push(chars[i]);
        i = i + 1;
    }
    r
}

/// Whether two texts hold the same characters.
pub fn str_eq(a: &str, b: &str) -> (r: bool)
    ensures
        r == (a@ == b@),
{
    let x = a.to_owned();
    let y = b.to_owned();
    x == y
}

/// Whether an optional text is present and equal to `b`.
pub fn opt_eq(a: &Option<String>, b: &str) -> (r: bool)
    ensures
        r == (opt_text(*a) == Some(b@)),
{
    match a {
        Some(s) => str_eq(s.as_str(), b),
        None => false,
    }
}

/// A copy of an optional borrowed text.
pub fn opt_owned(a: Option<&str>) -> (r: Option<String>)
    ensures
        opt_text(r) == opt_str(a),
{
    match a {
        Some(s) => Some(s.to_owned()),
        None => None,
    }
}

/// Whether `list` holds the text `x`.
pub fn list_contains(list: &Vec<String>, x: &str) -> (r: bool)
    ensures
        r == texts(list@).contains(x@),
{
    let mut i: usize = 0;
    while i < list.len()
        invariant
            i <= list@.len(),
            forall|j: int| 0 <= j < i ==> texts(list@)[j] != x@,
        decreases list.len() - i,
    {
        if str_eq(list[i].as_str(), x) {
            assert(texts(list@)[i as int] == x@);
            return true;
        }
        i = i + 1;
    }
    false
}

// ---------------------------------------------------------------------------
// Byte length and byte prefixes
// ---------------------------------------------------------------------------

/// Number of bytes of the UTF-8 encoding of `s`.
pub open spec fn byte_len(s: Seq<char>) -> nat {
    encode_utf8(s).len()
}

/// Whether a slice of `s` may start or end at byte `n`.
pub open spec fn byte_boundary(s: Seq<char>, n: int) -> bool {
    0 <= n <= byte_len(s) && is_char_boundary(encode_utf8(s), n)
}

/// The first `n` bytes of `s`, as text.
pub open spec fn byte_take(s: Seq<char>, n: int) -> Seq<char> {
    decode_utf8(encode_utf8(s).subrange(0, n))
}

/// What follows the first `n` bytes of `s`, as text.
pub open spec fn byte_skip(s: Seq<char>, n: int) -> Seq<char> {
    decode_utf8(encode_utf8(s).subrange(n, byte_len(s) as int))
}

/// Number of bytes of the UTF-8 encoding of `s`.
pub fn len_bytes(s: &str) -> (r: usize)
    ensures
        r == byte_len(s@),
{
    s.as_bytes().len()
}

/// The first `n` bytes of `s`.
pub fn prefix_bytes(s: &str, n: usize) -> (r: &str)
    requires
        byte_boundary(s@, n as int),
    ensures
        r@ == byte_take(s@, n as int),
{
    let parts = s.split_at(n);
    proof {
        encode_utf8_decode_utf8(parts.0@);
    }
    parts.0
}

/// What follows the first `n` bytes of `s`.
pub fn suffix_bytes(s: &str, n: usize) -> (r: &str)
    requires
        byte_boundary(s@, n as int),
    ensures
        r@ == byte_skip(s@, n as int),
{
    let parts = s.split_at(n);
    proof {
        encode_utf8_decode_utf8(parts.1@);
    }
    parts.1
}

/// On ASCII text every byte offset is a boundary and a byte prefix is a character prefix.
pub proof fn ascii_byte_take(s: Seq<char>, n: int)
    requires
        is_ascii_chars(s),
        0 <= n <= s.len(),
    ensures
        byte_len(s) == s.len(),
        byte_boundary(s, n),
        byte_take(s, n) == s.take(n),
        byte_skip(s, n) == s.skip(n),
{
    let b = encode_utf8(s);
    is_ascii_chars_encode_utf8(s);
    is_ascii_chars_encode_utf8(s.take(n));
    is_ascii_chars_encode_utf8(s.skip(n));
    encode_utf8_valid_utf8(s);
    encode_utf8_decode_utf8(s.take(n));
    encode_utf8_decode_utf8(s.skip(n));
    assert(b.subrange(0, n) =~= encode_utf8(s.take(n)));
    assert(b.subrange(n, b.len() as int) =~= encode_utf8(s.skip(n)));
    if n < s.len() {
        let c = s[n];
        assert(b[n] == c as u8);
        is_char_boundary_iff_is_leading_byte(b, n);
        assert(b[n] < 128);
        let x = b[n];
        utf8_byte_ranges_bitwise(x);
    } else {
        is_char_boundary_start_end_of_seq(b);
    }
}

} // verus!
