//! Decimal numbers in text.

use super::to_chars;
use vstd::prelude::*;

verus! {

/// The digit `d`, for `d` below ten.
pub open spec fn digit_char(d: nat) -> char {
    (48 + d) as char
}

/// Whether `c` is one of `0` to `9`.
pub open spec fn is_digit(c: char) -> bool {
    '0' <= c <= '9'
}

/// The decimal digits of `n`, most significant first.
pub open spec fn decimal(n: nat) -> Seq<char>
    decreases n,
{
    if n < 10 {
        seq![digit_char(n)]
    } else {
        decimal(n / 10).push(digit_char(n % 10))
    }
}

/// The decimal form of an integer, with a minus sign where it is negative.
pub open spec fn decimal_int(n: int) -> Seq<char> {
    if n < 0 {
        seq!['-'] + decimal((-n) as nat)
    } else {
        decimal(n as nat)
    }
}

/// Whether every character of `s` is a digit.
pub open spec fn all_digits(s: Seq<char>) -> bool {
    forall|i: int| 0 <= i < s.len() ==> is_digit(#[trigger] s[i])
}

/// The number that a sequence of digits writes.
pub open spec fn digits_value(s: Seq<char>) -> nat
    decreases s.len(),
{
    if s.len() == 0 {
        0
    } else {
        digits_value(s.drop_last()) * 10 + (s.last() as u32 - 48) as nat
    }
}

/// What is left of `s` after one optional plus sign.
pub open spec fn without_plus(s: Seq<char>) -> Seq<char> {
    if s.len() > 0 && s[0] == '+' {
        s.skip(1)
    } else {
        s
    }
}

/// The number up to `max` that `s` writes: an optional plus sign followed by digits only.
pub open spec fn parsed(s: Seq<char>, max: nat) -> Option<nat> {
    let d = without_plus(s);
    if d.len() > 0 && all_digits(d) && digits_value(d) <= max {
        Some(digits_value(d))
    } else {
        None
    }
}

proof fn digits_value_prefix(s: Seq<char>, k: int)
    requires
        0 <= k <= s.len(),
        all_digits(s),
    ensures
        digits_value(s.take(k)) <= digits_value(s),
    decreases s.len() - k,
{
    if k < s.len() {
        digits_value_prefix(s, k + 1);
        assert(s.take(k + 1).drop_last() =~= s.take(k));
        assert(is_digit(s[k]));
    } else {
        assert(s.take(k) =~= s);
    }
}

/// Reads a number that `parsed` accepts up to `max`.
pub fn parse_up_to(s: &str, max: u64) -> (r: Option<u64>)
    ensures
        match r {
            Some(n) => parsed(s@, max as nat) == Some(n as nat),
            None => parsed(s@, max as nat) is None,
        },
{
    let cs = to_chars(s);
    let from: usize = if cs.len() > 0 && cs[0] == '+' {
        1
    } else {
        0
    };
    let ghost d = without_plus(s@);
    proof {
        assert(d =~= s@.skip(from as int));
    }
    if from == cs.len() {
        return None;
    }
    let mut value: u64 = 0;
    let mut i: usize = from;
    while i < cs.len()
        invariant
            from <= i <= cs@.len(),
            cs@ == s@,
            d == s@.skip(from as int),
            d == without_plus(s@),
            forall|j: int| 0 <= j < i - from ==> is_digit(#[trigger] d[j]),
            value == digits_value(d.take(i - from)),
            value <= max,
        decreases cs.len() - i,
    {
        let c = cs[i];
        proof {
            assert(d[i - from] == c);
            assert(d.take(i + 1 - from).drop_last() =~= d.take(i - from));
        }
        if !('0' <= c && c <= '9') {
            return None;
        }
        let digit: u64 = (c as u32 - 48) as u64;
        let next: u128 = value as u128 * 10 + digit as u128;
        if next > max as u128 {
            proof {
                if all_digits(d) {
                    digits_value_prefix(d, i + 1 - from);
                }
            }
            return None;
        }
        value = next as u64;
        i = i + 1;
    }
    proof {
        assert(d.take(i - from) =~= d);
    }
    Some(value)
}

/// Reads a `u64`.
pub fn parse_u64(s: &str) -> (r: Option<u64>)
    ensures
        match r {
            Some(n) => parsed(s@, u64::MAX as nat) == Some(n as nat),
            None => parsed(s@, u64::MAX as nat) is None,
        },
{
    parse_up_to(s, u64::MAX)
}

/// Reads a `usize`.
pub fn parse_usize(s: &str) -> (r: Option<usize>)
    ensures
        match r {
            Some(n) => parsed(s@, usize::MAX as nat) == Some(n as nat),
            None => parsed(s@, usize::MAX as nat) is None,
        },
{
    match parse_up_to(s, usize::MAX as u64) {
        Some(n) => Some(n as usize),
        None => None,
    }
}

fn digit(d: u128) -> (r: char)
    requires
        d < 10,
    ensures
        r == digit_char(d as nat),
{
    let u: u8 = 48 + d as u8;
    u as char
}

/// The decimal digits of `n`, least significant first.
fn digits_reversed(n: u128) -> (r: Vec<char>)
    ensures
        r@.len() > 0,
        r@.reverse() == decimal(n as nat),
{
    let mut out: Vec<char> = Vec::new();
    let mut rest: u128 = n;
    while rest >= 10
        invariant
            decimal(n as nat) == decimal(rest as nat) + out@.reverse(),
        decreases rest,
    {
        let ghost before = out@;
        out.push(digit(rest % 10));
        proof {
            assert(decimal(rest as nat) + before.reverse() =~= decimal((rest / 10) as nat)
                + out@.reverse());
        }
        rest = rest / 10;
    }
    let ghost before = out@;
    out.push(digit(rest));
    proof {
        assert(decimal(rest as nat) + before.reverse() =~= out@.reverse());
    }
    out
}

/// The text of `v` read backwards.
fn reversed_text(v: &Vec<char>) -> (r: String)
    ensures
        r@ == v@.reverse(),
{
    let mut r = String::new();
    let mut i: usize = v.len();
    while i > 0
        invariant
            i <= v@.len(),
            r@ == v@.reverse().take(v@.len() - i),
        decreases i,
    {
        i = i - 1;
        r.push(v[i]);
    }
    r
}

/// The decimal form of `n`.
pub fn u64_text(n: u64) -> (r: String)
    ensures
        r@ == decimal(n as nat),
{
    u128_text(n as u128)
}

/// The decimal form of `n`.
pub fn u128_text(n: u128) -> (r: String)
    ensures
        r@ == decimal(n as nat),
{
    reversed_text(&digits_reversed(n))
}

/// The decimal form of `n`.
pub fn i64_text(n: i64) -> (r: String)
    ensures
        r@ == decimal_int(n as int),
{
    if n < 0 {
        let m: u64 = (-(n as i128)) as u64;
        let mut r = String::from_str("-");
        r.append(u64_text(m).as_str());
        proof {
            reveal_strlit("-");
            assert("-"@ =~= seq!['-']);
        }
        r
    } else {
        u64_text(n as u64)
    }
}

/// Whether a comma stands before the `i`-th of `n` digits.
pub open spec fn comma_before(n: nat, i: int) -> bool {
    0 < i && (n - i) % 3 == 0
}

/// Digits with a comma between groups of three, counted from the right.
pub open spec fn grouped(s: Seq<char>) -> Seq<char>
    decreases s.len(),
{
    if s.len() <= 3 {
        s
    } else {
        grouped(s.take(s.len() - 3)) + seq![','] + s.skip(s.len() - 3)
    }
}

/// `grouped` from the left: the digits up to `i`, each group of three counted from the right end.
spec fn grouped_upto(s: Seq<char>, i: int) -> Seq<char>
    decreases i,
{
    if i <= 0 {
        Seq::empty()
    } else if comma_before(s.len(), i - 1) {
        grouped_upto(s, i - 1) + seq![',', s[i - 1]]
    } else {
        grouped_upto(s, i - 1).push(s[i - 1])
    }
}

proof fn grouped_upto_prefix(s: Seq<char>, t: Seq<char>, i: int)
    requires
        0 <= i <= t.len() <= s.len(),
        t == s.take(t.len() as int),
        (s.len() - t.len()) % 3 == 0,
    ensures
        grouped_upto(s, i) == grouped_upto(t, i),
    decreases i,
{
    if i > 0 {
        grouped_upto_prefix(s, t, i - 1);
        assert(comma_before(s.len(), i - 1) == comma_before(t.len(), i - 1));
    }
}

proof fn grouped_upto_is_grouped(s: Seq<char>)
    ensures
        grouped_upto(s, s.len() as int) == grouped(s),
    decreases s.len(),
{
    let n = s.len() as int;
    reveal_with_fuel(grouped_upto, 4);
    if n <= 3 {
        assert(grouped_upto(s, n) =~= s);
    } else {
        let t = s.take(n - 3);
        grouped_upto_prefix(s, t, n - 3);
        grouped_upto_is_grouped(t);
        assert(comma_before(s.len(), n - 3));
        assert(!comma_before(s.len(), n - 2));
        assert(!comma_before(s.len(), n - 1));
        assert(grouped_upto(s, n) =~= grouped_upto(s, n - 3) + seq![','] + s.skip(n - 3));
    }
}

/// `n` with a comma between groups of three digits.
pub fn fmt_num(n: u64) -> (r: String)
    ensures
        r@ == grouped(decimal(n as nat)),
{
    let text = u64_text(n);
    let cs = to_chars(text.as_str());
    let mut r = String::new();
    let mut i: usize = 0;
    while i < cs.len()
        invariant
            i <= cs@.len(),
            r@ == grouped_upto(cs@, i as int),
        decreases cs.len() - i,
    {
        if i > 0 && (cs.len() - i) % 3 == 0 {
            r.push(',');
        }
        r.push(cs[i]);
        i = i + 1;
    }
    proof {
        grouped_upto_is_grouped(cs@);
    }
    r
}

/// The digits of a decimal form.
pub proof fn decimal_is_digits(n: nat)
    ensures
        decimal(n).len() > 0,
        all_digits(decimal(n)),
        digits_value(decimal(n)) == n,
    decreases n,
{
    if n < 10 {
        reveal_with_fuel(digits_value, 2);
        assert(decimal(n).drop_last() =~= Seq::<char>::empty());
    } else {
        decimal_is_digits(n / 10);
        assert(decimal(n).drop_last() =~= decimal(n / 10));
    }
}

/// Reading back a number's decimal form gives the number.
pub proof fn parse_decimal_round_trip(n: nat, max: nat)
    requires
        n <= max,
    ensures
        parsed(decimal(n), max) == Some(n),
{
    decimal_is_digits(n);
    assert(is_digit(decimal(n)[0]));
}

/// A decimal form does not begin with a zero, but for that of zero itself, so different numbers read
/// differently.
pub proof fn decimals_differ(a: nat, b: nat)
    ensures
        a > 0 ==> decimal(a)[0] != '0',
        decimal(0) == seq!['0'],
        decimal(a) == decimal(b) ==> a == b,
    decreases a,
{
    decimal_is_digits(a);
    decimal_is_digits(b);
    if a >= 10 {
        decimals_differ(a / 10, b);
        decimal_is_digits(a / 10);
        assert(decimal(a)[0] == decimal(a / 10)[0]);
    }
}

/// An integer below zero has a minus sign before its magnitude; any other is written as it is.
pub proof fn signs_of_integers(n: int)
    ensures
        n < 0 ==> decimal_int(n)[0] == '-' && digits_value(decimal_int(n).skip(1)) == -n && all_digits(
            decimal_int(n).skip(1),
        ),
        n >= 0 ==> all_digits(decimal_int(n)) && digits_value(decimal_int(n)) == n,
{
    if n < 0 {
        decimal_is_digits((-n) as nat);
        assert(decimal_int(n).skip(1) =~= decimal((-n) as nat));
    } else {
        decimal_is_digits(n as nat);
    }
}

/// What reads as a number: digits, with at most one plus sign before them, up to the largest number.
/// A further digit makes the number ten times as large, and adds itself.
pub proof fn digits_read(s: Seq<char>, d: nat, max: nat)
    requires
        d < 10,
    ensures
        parsed(Seq::empty(), max) is None,
        parsed(seq!['+'], max) is None,
        s.len() > 0 && all_digits(s) ==> parsed(seq!['+'] + s, max) == parsed(s, max),
        s.len() > 0 && all_digits(s) && digits_value(s) <= max ==> parsed(s, max) == Some(
            digits_value(s),
        ),
        s.len() > 0 && all_digits(s) && digits_value(s) > max ==> parsed(s, max) is None,
        (exists|i: int| 0 < i < s.len() && !is_digit(#[trigger] s[i])) ==> parsed(s, max) is None,
        s.len() > 0 && !is_digit(s[0]) && s[0] != '+' ==> parsed(s, max) is None,
        digits_value(s.push(digit_char(d))) == 10 * digits_value(s) + d,
        digits_value(Seq::empty()) == 0,
{
    assert(seq!['+'].skip(1) =~= Seq::<char>::empty());
    assert((seq!['+'] + s).skip(1) =~= s);
    if s.len() > 0 && all_digits(s) {
        assert(is_digit(s[0]));
        assert(without_plus(s) == s);
    }
    if exists|i: int| 0 < i < s.len() && !is_digit(#[trigger] s[i]) {
        let i = choose|i: int| 0 < i < s.len() && !is_digit(#[trigger] s[i]);
        let t = without_plus(s);
        if s[0] == '+' {
            assert(t[i - 1] == s[i]);
        }
        assert(!all_digits(t));
    }
    assert(s.push(digit_char(d)).drop_last() =~= s);
}

/// Counted from the right, every fourth character of a grouped number is a comma, and the others are
/// its digits in their order.
pub proof fn commas_set_thousands_apart(s: Seq<char>, p: int)
    requires
        0 <= p < grouped(s).len(),
    ensures
        ({
            let g = grouped(s);
            &&& p % 4 == 3 ==> g[g.len() - 1 - p] == ','
            &&& p % 4 != 3 ==> 0 <= s.len() - 1 - (p - p / 4) && g[g.len() - 1 - p] == s[s.len() - 1 - (
            p - p / 4)]
        }),
        s.len() > 0 ==> grouped(s).len() == s.len() + (s.len() - 1) / 3,
        s.len() > 0 ==> grouped(s)[0] == s[0],
    decreases s.len(),
{
    if s.len() > 3 {
        let t = s.take(s.len() - 3);
        let g = grouped(t);
        let whole = grouped(s);
        assert(whole == g + seq![','] + s.skip(s.len() - 3));
        grouped_not_empty(t);
        commas_set_thousands_apart(t, 0);
        if p >= 4 {
            commas_set_thousands_apart(t, p - 4);
            assert(whole[whole.len() - 1 - p] == g[g.len() - 1 - (p - 4)]);
            assert((p - 4) / 4 == p / 4 - 1);
        }
    }
}

proof fn grouped_not_empty(s: Seq<char>)
    requires
        s.len() > 0,
    ensures
        grouped(s).len() > 0,
{
}

} // verus!
