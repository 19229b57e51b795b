//! What the dashboard shows.

use super::at;
use crate::cost::types::CostRecord;
use crate::order::{
    arranged, first_n, ranked, ranked_is_permutation, stable_order, times_in_order,
};
use crate::text::pattern::{after_last, rsplit_tail};
use crate::text::{ascii_byte_take, byte_boundary, byte_len, byte_take, len_bytes, prefix_bytes};
use crate::time::{day_of_time, time_day};
use vstd::prelude::*;
use vstd::utf8::is_ascii_chars;

verus! {

/// A text of more than `max` bytes, cut to one byte less and marked.
pub open spec fn cut_text(s: Seq<char>, max: int) -> Seq<char> {
    if byte_len(s) > max {
        byte_take(s, max - 1) + "…"@
    } else {
        s
    }
}

/// A text of more than `max` bytes, cut to one byte less and marked.
pub fn truncate_str(s: &str, max: usize) -> (r: String)
    requires
        max >= 1,
        byte_len(s@) <= max || byte_boundary(s@, max - 1),
    ensures
        r@ == cut_text(s@, max as int),
{
    if len_bytes(s) > max {
        let mut r = prefix_bytes(s, max - 1).to_owned();
        r.append("…");
        r
    } else {
        s.to_owned()
    }
}

/// A model without its provider, cut to what fits.
pub fn short_model(model: &str) -> (r: String)
    requires
        byte_len(after_last(model@, '/')) <= 25 || byte_boundary(after_last(model@, '/'), 24),
    ensures
        r@ == cut_text(after_last(model@, '/'), 25),
{
    truncate_str(rsplit_tail(model, '/').as_str(), 25)
}

/// The positions of the records of a day.
pub open spec fn on_day(records: Seq<CostRecord>, day: i64) -> Seq<usize>
    decreases records.len(),
{
    if records.len() == 0 {
        Seq::empty()
    } else {
        let before = on_day(records.drop_last(), day);
        if day_of_time(records.last().usage.timestamp) == day {
            before.push((records.len() - 1) as usize)
        } else {
            before
        }
    }
}

proof fn on_day_in_range(records: Seq<CostRecord>, day: i64)
    requires
        records.len() <= usize::MAX,
    ensures
        forall|i: int|
            0 <= i < on_day(records, day).len() ==> (#[trigger] on_day(records, day)[i])
                < records.len(),
    decreases records.len(),
{
    if records.len() > 0 {
        on_day_in_range(records.drop_last(), day);
        let before = on_day(records.drop_last(), day);
        assert forall|i: int| 0 <= i < on_day(records, day).len() implies (
        #[trigger] on_day(records, day)[i]) < records.len() by {
            if i < before.len() {
                assert(on_day(records, day)[i] == before[i]);
            }
        }
    }
}

fn pick_day(records: &Vec<CostRecord>, day: i64) -> (r: Vec<usize>)
    ensures
        r@ == on_day(records@, day),
        forall|i: int| 0 <= i < r@.len() ==> (#[trigger] r@[i]) < records@.len(),
{
    let mut r: Vec<usize> = Vec::new();
    let mut i: usize = 0;
    assert(r@ =~= on_day(records@.take(0), day));
    while i < records.len()
        invariant
            i <= records@.len(),
            r@ == on_day(records@.take(i as int), day),
        decreases records.len() - i,
    {
        proof {
            assert(records@.take(i + 1).drop_last() =~= records@.take(i as int));
            assert(records@.take(i + 1).last() == records@[i as int]);
        }
        if time_day(records[i].usage.timestamp) == day as i128 {
            r.push(i);
        }
        i = i + 1;
    }
    proof {
        assert(records@.take(i as int) =~= records@);
        on_day_in_range(records@, day);
    }
    r
}

/// Whether a list holds the positions of at most twenty records of a day, the latest first.
pub open spec fn latest_first(r: Seq<usize>, records: Seq<CostRecord>, picked: Seq<usize>) -> bool {
    exists|order: Seq<usize>|
        #[trigger] ranked(super::times(at(records, picked)), picked.len() as int, order, true) && r
            == first_n(arranged(picked, order), 20)
}

/// The requests that the dashboard lists: the latest twenty of a day.
pub fn recent_requests(records: &Vec<CostRecord>, today: i64) -> (r: Vec<usize>)
    ensures
        latest_first(r@, records@, on_day(records@, today)),
{
    let idx = pick_day(records, today);
    let ghost sel = at(records@, idx@);
    let n: usize = idx.len();
    let mut moments: Vec<i128> = Vec::new();
    let mut i: usize = 0;
    while i < n
        invariant
            i <= n,
            n == idx@.len(),
            forall|i: int| 0 <= i < idx@.len() ==> (#[trigger] idx@[i]) < records@.len(),
            sel == at(records@, idx@),
            moments@ == super::times(sel).take(i as int),
        decreases n - i,
    {
        moments.push(records[idx[i]].usage.timestamp);
        assert(moments@ =~= super::times(sel).take(i + 1));
        i = i + 1;
    }
    assert(moments@ =~= super::times(sel));
    let order = stable_order(&moments, true);
    let ghost want = arranged(idx@, order@);
    let m: usize = if n <= 20 {
        n
    } else {
        20
    };
    let mut r: Vec<usize> = Vec::new();
    let mut j: usize = 0;
    while j < m
        invariant
            j <= m,
            m <= n,
            n == idx@.len(),
            moments@.len() == n,
            ranked(moments@, n as int, order@, true),
            want == arranged(idx@, order@),
            r@ == want.take(j as int),
        decreases m - j,
    {
        r.push(idx[order[j]]);
        assert(r@ =~= want.take(j + 1));
        j = j + 1;
    }
    proof {
        assert(r@ =~= first_n(want, 20));
        assert(ranked(super::times(at(records@, idx@)), idx@.len() as int, order@, true));
    }
    r
}

/// Whether two times are the earliest and the latest of records.
pub open spec fn spans(sel: Seq<CostRecord>, first: i128, last: i128) -> bool {
    &&& forall|i: int|
        0 <= i < sel.len() ==> first <= (#[trigger] sel[i]).usage.timestamp <= last
    &&& exists|i: int| 0 <= i < sel.len() && (#[trigger] sel[i]).usage.timestamp == first
    &&& exists|i: int| 0 <= i < sel.len() && (#[trigger] sel[i]).usage.timestamp == last
}

/// The number of requests of a day, with the times of the first and the last of them.
pub fn request_span(records: &Vec<CostRecord>, today: i64) -> (r: Option<(usize, i128, i128)>)
    ensures
        match r {
            Some(s) => {
                let sel = at(records@, on_day(records@, today));
                &&& s.0 == sel.len()
                &&& s.0 >= 2
                &&& spans(sel, s.1, s.2)
            },
            None => on_day(records@, today).len() < 2,
        },
{
    let idx = pick_day(records, today);
    if idx.len() < 2 {
        return None;
    }
    let ghost sel = at(records@, idx@);
    let mut first: i128 = records[idx[0]].usage.timestamp;
    let mut last: i128 = first;
    let mut i: usize = 1;
    assert(sel[0].usage.timestamp == first);
    while i < idx.len()
        invariant
            1 <= i <= idx@.len(),
            forall|i: int| 0 <= i < idx@.len() ==> (#[trigger] idx@[i]) < records@.len(),
            sel == at(records@, idx@),
            forall|j: int| 0 <= j < i ==> first <= (#[trigger] sel[j]).usage.timestamp <= last,
            exists|j: int| 0 <= j < i && (#[trigger] sel[j]).usage.timestamp == first,
            exists|j: int| 0 <= j < i && (#[trigger] sel[j]).usage.timestamp == last,
        decreases idx.len() - i,
    {
        let t: i128 = records[idx[i]].usage.timestamp;
        assert(sel[i as int].usage.timestamp == t);
        let ghost a = choose|j: int| 0 <= j < i && (#[trigger] sel[j]).usage.timestamp == first;
        let ghost b = choose|j: int| 0 <= j < i && (#[trigger] sel[j]).usage.timestamp == last;
        if t < first {
            first = t;
        } else {
            assert(0 <= a < i + 1 && sel[a].usage.timestamp == first);
        }
        if t > last {
            last = t;
        } else {
            assert(0 <= b < i + 1 && sel[b].usage.timestamp == last);
        }
        i = i + 1;
    }
    Some((idx.len(), first, last))
}

/// The records of a day are those whose time falls on it, each once, in their order.
pub proof fn records_of_a_day(records: Seq<CostRecord>, day: i64)
    requires
        records.len() <= usize::MAX,
    ensures
        forall|k: usize|
            #[trigger] on_day(records, day).contains(k) <==> k < records.len() && day_of_time(
                records[k as int].usage.timestamp,
            ) == day,
        forall|i: int, j: int|
            0 <= i < j < on_day(records, day).len() ==> (#[trigger] on_day(records, day)[i]) < (
            #[trigger] on_day(records, day)[j]),
    decreases records.len(),
{
    let all = on_day(records, day);
    if records.len() > 0 {
        let rest = records.drop_last();
        let before = on_day(rest, day);
        records_of_a_day(rest, day);
        on_day_in_range(rest, day);
        assert forall|k: usize| #[trigger] all.contains(k) <==> k < records.len() && day_of_time(
            records[k as int].usage.timestamp,
        ) == day by {
            if all.contains(k) {
                let i = choose|i: int| 0 <= i < all.len() && all[i] == k;
                if i < before.len() {
                    assert(before[i] == k);
                    assert(before.contains(k));
                    assert(rest[k as int] == records[k as int]);
                }
            }
            if k < records.len() && day_of_time(records[k as int].usage.timestamp) == day {
                if k < rest.len() {
                    assert(rest[k as int] == records[k as int]);
                    assert(before.contains(k));
                    let i = choose|i: int| 0 <= i < before.len() && before[i] == k;
                    assert(all[i] == k);
                } else {
                    assert(all[before.len() as int] == k);
                }
            }
        }
        assert forall|i: int, j: int| 0 <= i < j < all.len() implies (#[trigger] all[i]) < (
        #[trigger] all[j]) by {
            assert(all[i] == before[i]);
            if j < before.len() {
                assert(all[j] == before[j]);
            }
        }
    }
}

/// The list holds records of the day, the latest first, twenty of them or all, and none that is left
/// out is later than one that is listed.
pub proof fn latest_requests_are_listed(
    r: Seq<usize>,
    records: Seq<CostRecord>,
    day: i64,
    i: int,
)
    requires
        records.len() <= usize::MAX,
        latest_first(r, records, on_day(records, day)),
        0 <= i < r.len(),
    ensures
        r.len() == (if on_day(records, day).len() < 20 {
            on_day(records, day).len() as int
        } else {
            20
        }),
        r[i] < records.len(),
        day_of_time(records[r[i] as int].usage.timestamp) == day,
        forall|j: int|
            i < j < r.len() ==> records[(#[trigger] r[j]) as int].usage.timestamp
                <= records[r[i] as int].usage.timestamp,
        forall|k: usize|
            k < records.len() && day_of_time(records[k as int].usage.timestamp) == day
                && !(#[trigger] r.contains(k)) ==> records[k as int].usage.timestamp
                <= records[r[i] as int].usage.timestamp,
{
    let picked = on_day(records, day);
    let keys = super::times(at(records, picked));
    let order = choose|order: Seq<usize>|
        #[trigger] ranked(super::times(at(records, picked)), picked.len() as int, order, true) && r
            == first_n(arranged(picked, order), 20);
    let all = arranged(picked, order);
    records_of_a_day(records, day);
    ranked_is_permutation(keys, order, true);
    assert(all.len() == picked.len());
    assert(r[i] == all[i] && all[i] == picked[order[i] as int]);
    assert(picked.contains(picked[order[i] as int]));
    assert(keys[order[i] as int] == records[r[i] as int].usage.timestamp);
    assert forall|j: int| i < j < r.len() implies records[(#[trigger] r[j]) as int].usage.timestamp
        <= records[r[i] as int].usage.timestamp by {
        times_in_order(keys, order, i, j);
        assert(r[j] == picked[order[j] as int]);
        assert(keys[order[j] as int] == records[r[j] as int].usage.timestamp);
    }
    assert forall|k: usize|
        k < records.len() && day_of_time(records[k as int].usage.timestamp) == day
            && !(#[trigger] r.contains(k)) implies records[k as int].usage.timestamp
        <= records[r[i] as int].usage.timestamp by {
        assert(picked.contains(k));
        let p = choose|p: int| 0 <= p < picked.len() && picked[p] == k;
        picked_is_short(records, day);
        assert(order.contains(p as usize));
        let q = choose|q: int| 0 <= q < order.len() && order[q] == p as usize;
        assert(all[q] == k);
        if q < r.len() {
            assert(r[q] == k);
        } else {
            times_in_order(keys, order, i, q);
        }
    }
}

proof fn picked_is_short(records: Seq<CostRecord>, day: i64)
    ensures
        on_day(records, day).len() <= records.len(),
    decreases records.len(),
{
    if records.len() > 0 {
        picked_is_short(records.drop_last(), day);
    }
}

/// A short text stays as it is; of a long one the first bytes stay, one less than there is room for,
/// and a mark stands behind them.
pub proof fn long_texts_are_cut(s: Seq<char>, max: int)
    requires
        is_ascii_chars(s),
        max >= 1,
    ensures
        s.len() <= max ==> cut_text(s, max) == s,
        s.len() > max ==> cut_text(s, max) == s.take(max - 1) + "…"@,
{
    ascii_byte_take(s, 0);
    if s.len() > max {
        ascii_byte_take(s, max - 1);
    }
}

} // verus!
