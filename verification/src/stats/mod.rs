//! Statistics over cost records.

use crate::cost::types::{CostRecord, TokenBreakdown};
use crate::score::score_rank;
use crate::order::{
    arranged, arranged_holds_the_same, numbers_in_order, precedes, ranked, ranked_is_permutation,
    stable_order, times_in_order,
};
use crate::text::{list_contains, opt_eq, opt_text, str_eq, texts};
use crate::time::{
    date_of_day, date_text, day_of_date, day_of_time, day_of_ymd, join_day, month_of_day,
    parse_date, split_day, time_day,
};
use vstd::prelude::*;

pub mod tui;

pub use crate::text::number::fmt_num;

verus! {

/// Which records count: those between two days, of one room if one is given.
#[derive(Debug)]
pub struct StatsFilter {
    /// The first day, counted from the first day of the common era.
    pub start_date: i64,
    /// The last day.
    pub end_date: i64,
    pub room: Option<String>,
}

/// The last day of the month of a day; the day before it where the calendar ends.
pub open spec fn month_end(day: int, year: i32, month: u32) -> int {
    let next = if month == 12 {
        if year < i32::MAX {
            day_of_ymd((year + 1) as i32, 1, 1)
        } else {
            None
        }
    } else {
        day_of_ymd(year, (month + 1) as u32, 1)
    };
    (match next {
        Some(d) => d as int,
        None => day,
    }) - 1
}

/// The first day of the month of a day.
pub open spec fn month_start(day: int, year: i32, month: u32) -> int {
    match day_of_ymd(year, month, 1) {
        Some(d) => d as int,
        None => day,
    }
}

/// The days of a period that begins at a given day: a week, the month around it, or that day.
pub open spec fn days_from(day: i32, period: Seq<char>) -> (int, int) {
    if period == "week"@ {
        (day as int, day + 6)
    } else if period == "month"@ {
        match month_of_day(day) {
            Some(m) => (month_start(day as int, m.0, m.1), month_end(day as int, m.0, m.1)),
            None => (day as int, day as int),
        }
    } else {
        (day as int, day as int)
    }
}

/// The days of a period that ends today: a week, the month so far, or today.
pub open spec fn days_until(today: i32, period: Seq<char>) -> (int, int) {
    if period == "week"@ {
        (today - 6, today as int)
    } else if period == "month"@ {
        match month_of_day(today) {
            Some(m) => (month_start(today as int, m.0, m.1), today as int),
            None => (today as int, today as int),
        }
    } else {
        (today as int, today as int)
    }
}

fn first_of_month(day: i32, year: i32, month: u32) -> (r: i64)
    ensures
        r == month_start(day as int, year, month),
{
    match join_day(year, month, 1) {
        Some(d) => d as i64,
        None => day as i64,
    }
}

fn last_of_month(day: i32, year: i32, month: u32) -> (r: i64)
    requires
        1 <= month <= 12,
    ensures
        r == month_end(day as int, year, month),
{
    let next = if month == 12 {
        if year < i32::MAX {
            join_day(year + 1, 1, 1)
        } else {
            None
        }
    } else {
        join_day(year, month + 1, 1)
    };
    match next {
        Some(d) => d as i64 - 1,
        None => day as i64 - 1,
    }
}

/// The records that a date, a period and a room ask for. A date that does not read is an error.
pub fn build_filter(
    date: Option<&str>,
    period: Option<&str>,
    room: Option<String>,
    today: i32,
) -> (r: Result<StatsFilter, &'static str>)
    ensures
        match date {
            Some(d) => match day_of_date(d@) {
                Some(day) => r is Ok && (r->Ok_0.start_date as int, r->Ok_0.end_date as int)
                    == days_from(
                    day,
                    match period {
                        Some(p) => p@,
                        None => "day"@,
                    },
                ),
                None => r is Err,
            },
            None => r is Ok && (r->Ok_0.start_date as int, r->Ok_0.end_date as int) == (match period {
                Some(p) => days_until(today, p@),
                None => (today as int, today as int),
            }),
        },
        date is None && period is None ==> r is Ok && r->Ok_0.start_date == today && r->Ok_0.end_date
            == today,
        date is None && period is Some && period->0@ == "week"@ ==> r is Ok && r->Ok_0.start_date
            == today - 6 && r->Ok_0.end_date == today,
        date is None && period is Some && period->0@ == "month"@ ==> r is Ok && r->Ok_0.end_date
            == today && (month_of_day(today) matches Some(m) ==> (day_of_ymd(
            m.0,
            m.1,
            1,
        ) matches Some(first) ==> r->Ok_0.start_date == first)),
        r matches Ok(f) ==> f.room == room,
        r matches Err(e) ==> e@ == "Invalid date format, expected YYYY-MM-DD"@,
{
    proof {
        reveal_strlit("month");
        reveal_strlit("week");
        assert("month"@.len() != "week"@.len());
    }
    let days: (i64, i64) = match date {
        Some(d) => {
            let day = match parse_date(d) {
                Some(day) => day,
                None => return Err("Invalid date format, expected YYYY-MM-DD"),
            };
            let p = match period {
                Some(p) => p,
                None => "day",
            };
            if str_eq(p, "week") {
                (day as i64, day as i64 + 6)
            } else if str_eq(p, "month") {
                match split_day(day) {
                    Some(m) => (first_of_month(day, m.0, m.1), last_of_month(day, m.0, m.1)),
                    None => (day as i64, day as i64),
                }
            } else {
                (day as i64, day as i64)
            }
        },
        None => match period {
            Some(p) => if str_eq(p, "week") {
                (today as i64 - 6, today as i64)
            } else if str_eq(p, "month") {
                match split_day(today) {
                    Some(m) => (first_of_month(today, m.0, m.1), today as i64),
                    None => (today as i64, today as i64),
                }
            } else {
                (today as i64, today as i64)
            },
            None => (today as i64, today as i64),
        },
    };
    Ok(StatsFilter { start_date: days.0, end_date: days.1, room })
}

// ---------------------------------------------------------------------------
// Adding up
// ---------------------------------------------------------------------------

/// Whether a record counts.
pub open spec fn counts(r: CostRecord, f: StatsFilter) -> bool {
    &&& f.start_date <= day_of_time(r.usage.timestamp) <= f.end_date
    &&& f.room is Some ==> opt_text(r.room) == opt_text(f.room)
}

/// Whether a record counts.
pub fn record_counts(r: &CostRecord, f: &StatsFilter) -> (b: bool)
    ensures
        b == counts(*r, *f),
{
    let day = time_day(r.usage.timestamp);
    if day < f.start_date as i128 || day > f.end_date as i128 {
        return false;
    }
    match &f.room {
        Some(room) => opt_eq(&r.room, room.as_str()),
        None => true,
    }
}

/// The positions of the records that count.
pub open spec fn counted(records: Seq<CostRecord>, f: StatsFilter) -> Seq<usize>
    decreases records.len(),
{
    if records.len() == 0 {
        Seq::empty()
    } else {
        let before = counted(records.drop_last(), f);
        if counts(records.last(), f) {
            before.push((records.len() - 1) as usize)
        } else {
            before
        }
    }
}

/// The records at positions.
pub open spec fn at(records: Seq<CostRecord>, idx: Seq<usize>) -> Seq<CostRecord> {
    Seq::new(idx.len(), |i: int| records[idx[i] as int])
}

/// The times of records.
pub open spec fn times(records: Seq<CostRecord>) -> Seq<i128> {
    Seq::new(records.len(), |i: int| records[i].usage.timestamp)
}

/// A sum over records.
pub open spec fn sum_over(records: Seq<CostRecord>, f: spec_fn(CostRecord) -> nat) -> nat
    decreases records.len(),
{
    if records.len() == 0 {
        0
    } else {
        sum_over(records.drop_last(), f) + f(records.last())
    }
}

/// A count that may be missing.
pub open spec fn or_zero(n: Option<u64>) -> nat {
    match n {
        Some(n) => n as nat,
        None => 0,
    }
}

/// The bytes of each category, in the order in which categories are listed.
pub open spec fn category_bytes(b: TokenBreakdown) -> Seq<u64> {
    seq![
        b.identity,
        b.workspace_files,
        b.skills,
        b.conversation_history,
        b.tooling,
        b.tool_results,
        b.user_message,
        b.memory_context,
        b.channel_context,
        b.safety,
        b.runtime,
        b.assistant_response,
        b.tool_calls_output,
        b.thinking,
    ]
}

/// The names of the categories.
pub open spec fn category_names() -> Seq<Seq<char>> {
    seq![
        "identity"@,
        "workspace_files"@,
        "skills"@,
        "conversation"@,
        "tooling"@,
        "tool_results"@,
        "user_message"@,
        "memory_context"@,
        "channel_context"@,
        "safety"@,
        "runtime"@,
        "assistant_response"@,
        "tool_calls_output"@,
        "thinking"@,
    ]
}

/// A sum of counts.
pub open spec fn sum_of(s: Seq<u64>) -> nat
    decreases s.len(),
{
    if s.len() == 0 {
        0
    } else {
        sum_of(s.drop_last()) + s.last() as nat
    }
}

/// The bytes of a category in a record.
pub open spec fn bytes_in(r: CostRecord, k: int) -> nat {
    match r.breakdown {
        Some(b) => category_bytes(b)[k] as nat,
        None => 0,
    }
}

/// The bytes of all categories in a record.
pub open spec fn all_bytes_in(r: CostRecord) -> nat {
    match r.breakdown {
        Some(b) => sum_of(category_bytes(b)),
        None => 0,
    }
}

/// The bytes of a category in records.
pub open spec fn category_total(records: Seq<CostRecord>, k: int) -> nat {
    sum_over(records, |r: CostRecord| bytes_in(r, k))
}

/// The bytes of all categories in records.
pub open spec fn grand_total(records: Seq<CostRecord>) -> nat {
    sum_over(records, |r: CostRecord| all_bytes_in(r))
}

/// The tokens read by records.
pub open spec fn input_total(records: Seq<CostRecord>) -> nat {
    sum_over(records, |r: CostRecord| r.usage.input_tokens as nat)
}

/// The tokens written by records.
pub open spec fn output_total(records: Seq<CostRecord>) -> nat {
    sum_over(records, |r: CostRecord| r.usage.output_tokens as nat)
}

/// The tokens that records read from the cache.
pub open spec fn cache_read_total(records: Seq<CostRecord>) -> nat {
    sum_over(records, |r: CostRecord| or_zero(r.usage.cache_read_tokens))
}

/// The tokens that records wrote to the cache.
pub open spec fn cache_write_total(records: Seq<CostRecord>) -> nat {
    sum_over(records, |r: CostRecord| or_zero(r.usage.cache_write_tokens))
}

/// The channel and the room of a record.
pub open spec fn room_of(r: CostRecord) -> Seq<char> {
    (match r.channel {
        Some(c) => c@,
        None => "unknown"@,
    }) + "/"@ + (match r.room {
        Some(m) => m@,
        None => "default"@,
    })
}

/// The channel and the room of a record.
pub fn room_label(r: &CostRecord) -> (label: String)
    ensures
        label@ == room_of(*r),
{
    let mut label = match &r.channel {
        Some(c) => c.clone(),
        None => "unknown".to_owned(),
    };
    label.append("/");
    match &r.room {
        Some(m) => label.append(m.as_str()),
        None => label.append("default"),
    }
    label
}

/// The rooms of records, each once, in the order in which they first come.
pub open spec fn rooms_of(records: Seq<CostRecord>) -> Seq<Seq<char>>
    decreases records.len(),
{
    if records.len() == 0 {
        Seq::empty()
    } else {
        let before = rooms_of(records.drop_last());
        if before.contains(room_of(records.last())) {
            before
        } else {
            before.push(room_of(records.last()))
        }
    }
}

/// The records of a room.
pub open spec fn in_room(records: Seq<CostRecord>, label: Seq<char>) -> Seq<CostRecord> {
    records.filter(|r: CostRecord| room_of(r) == label)
}

/// What was used in a room.
#[derive(Debug)]
pub struct ChannelRoomRow {
    pub label: String,
    pub requests: usize,
    pub input_tokens: u64,
    pub output_tokens: u64,
}

/// The bytes of a category: on average for each request, and in all.
#[derive(Debug)]
pub struct CategoryRow {
    pub name: String,
    pub avg_bytes: u64,
    pub bytes: u64,
}

/// Where the bytes went: the categories with any, the largest first, and the bytes of all.
#[derive(Debug)]
pub struct BreakdownResult {
    pub categories: Vec<CategoryRow>,
    pub total: u64,
}

/// What was used in a span of days. The records that count are given by their positions, the
/// earliest first.
#[derive(Debug)]
pub struct StatsResult {
    pub start_date: i64,
    pub end_date: i64,
    pub total_input: u64,
    pub total_output: u64,
    pub total_cache_read: u64,
    pub total_cache_write: u64,
    pub request_count: usize,
    pub by_channel_room: Vec<ChannelRoomRow>,
    pub breakdown: Option<BreakdownResult>,
    pub records: Vec<usize>,
}

/// Whether the sums over records are small enough to be held.
pub open spec fn sums_fit(records: Seq<CostRecord>) -> bool {
    &&& input_total(records) <= u64::MAX
    &&& output_total(records) <= u64::MAX
    &&& cache_read_total(records) <= u64::MAX
    &&& cache_write_total(records) <= u64::MAX
    &&& grand_total(records) <= u64::MAX
}

/// Whether a row says what was used in its room.
pub open spec fn row_sums(row: ChannelRoomRow, records: Seq<CostRecord>) -> bool {
    let mine = in_room(records, row.label@);
    &&& row.requests == mine.len()
    &&& row.input_tokens == input_total(mine)
    &&& row.output_tokens == output_total(mine)
}

/// A sum over fewer records is no larger.
proof fn sum_grows(records: Seq<CostRecord>, f: spec_fn(CostRecord) -> nat, i: int)
    requires
        0 <= i <= records.len(),
    ensures
        sum_over(records.take(i), f) <= sum_over(records, f),
    decreases records.len() - i,
{
    if i < records.len() {
        sum_grows(records, f, i + 1);
        assert(records.take(i + 1).drop_last() =~= records.take(i));
    } else {
        assert(records.take(i) =~= records);
    }
}

proof fn sum_step(records: Seq<CostRecord>, f: spec_fn(CostRecord) -> nat, i: int)
    requires
        0 <= i < records.len(),
    ensures
        sum_over(records.take(i + 1), f) == sum_over(records.take(i), f) + f(records[i]),
        sum_over(records.take(i + 1), f) <= sum_over(records, f),
{
    assert(records.take(i + 1).drop_last() =~= records.take(i));
    assert(records.take(i + 1).last() == records[i]);
    sum_grows(records, f, i + 1);
}

/// A sum over some of the records is no larger.
proof fn sum_of_some(
    records: Seq<CostRecord>,
    keep: spec_fn(CostRecord) -> bool,
    f: spec_fn(CostRecord) -> nat,
)
    ensures
        sum_over(records.filter(keep), f) <= sum_over(records, f),
    decreases records.len(),
{
    reveal(Seq::filter);
    if records.len() > 0 {
        sum_of_some(records.drop_last(), keep, f);
        let sub = records.drop_last().filter(keep);
        if keep(records.last()) {
            assert(sub.push(records.last()).drop_last() =~= sub);
        }
    }
}

proof fn part_of_sum(s: Seq<u64>, k: int)
    requires
        0 <= k < s.len(),
    ensures
        s[k] <= sum_of(s),
    decreases s.len(),
{
    if k < s.len() - 1 {
        part_of_sum(s.drop_last(), k);
        assert(s.drop_last()[k] == s[k]);
    }
}

fn breakdown_bytes(b: &TokenBreakdown) -> (r: Vec<u64>)
    ensures
        r@ == category_bytes(*b),
{
    let mut r: Vec<u64> = Vec::new();
    r.push(b.identity);
    r.push(b.workspace_files);
    r.push(b.skills);
    r.push(b.conversation_history);
    r.push(b.tooling);
    r.push(b.tool_results);
    r.push(b.user_message);
    r.push(b.memory_context);
    r.push(b.channel_context);
    r.push(b.safety);
    r.push(b.runtime);
    r.push(b.assistant_response);
    r.push(b.tool_calls_output);
    r.push(b.thinking);
    assert(r@ =~= category_bytes(*b));
    r
}

/// The sums of the categories over the records at positions, and the sum of all.
fn sum_categories(records: &Vec<CostRecord>, idx: &Vec<usize>) -> (r: (Vec<u64>, u64))
    requires
        forall|i: int| 0 <= i < idx@.len() ==> (#[trigger] idx@[i]) < records@.len(),
        grand_total(at(records@, idx@)) <= u64::MAX,
    ensures
        r.0@.len() == 14,
        forall|k: int| 0 <= k < 14 ==> (#[trigger] r.0@[k]) == category_total(at(records@, idx@), k),
        r.1 == grand_total(at(records@, idx@)),
{
    let ghost sel = at(records@, idx@);
    let ghost whole = |r: CostRecord| all_bytes_in(r);
    let mut sums: Vec<u64> = Vec::new();
    let mut z: usize = 0;
    while z < 14
        invariant
            z <= 14,
            sums@.len() == z,
            forall|k: int| 0 <= k < z ==> (#[trigger] sums@[k]) == 0,
        decreases 14 - z,
    {
        sums.push(0);
        z = z + 1;
    }
    let mut total: u64 = 0;
    let mut i: usize = 0;
    assert(sel.take(0).len() == 0);
    while i < idx.len()
        invariant
            i <= idx@.len(),
            forall|i: int| 0 <= i < idx@.len() ==> (#[trigger] idx@[i]) < records@.len(),
            sel == at(records@, idx@),
            whole == (|r: CostRecord| all_bytes_in(r)),
            sum_over(sel, whole) <= u64::MAX,
            sums@.len() == 14,
            total == sum_over(sel.take(i as int), whole),
            forall|k: int|
                0 <= k < 14 ==> (#[trigger] sums@[k]) == category_total(sel.take(i as int), k)
                    && sums@[k] <= total,
        decreases idx.len() - i,
    {
        let r = &records[idx[i]];
        assert(*r == sel[i as int]);
        proof {
            sum_step(sel, whole, i as int);
            assert forall|k: int| 0 <= k < 14 implies #[trigger] category_total(
                sel.take(i + 1),
                k,
            ) == category_total(sel.take(i as int), k) + bytes_in(sel[i as int], k) by {
                sum_step(sel, |r: CostRecord| bytes_in(r, k), i as int);
            }
        }
        if let Some(b) = &r.breakdown {
            let bytes = breakdown_bytes(b);
            let ghost before = sums@;
            let ghost so_far = total;
            let mut part: u64 = 0;
            let mut k: usize = 0;
            assert(bytes@.take(0).len() == 0);
            while k < 14
                invariant
                    k <= 14,
                    bytes@.len() == 14,
                    sums@.len() == 14,
                    before.len() == 14,
                    part == sum_of(bytes@.take(k as int)),
                    so_far + sum_of(bytes@) <= u64::MAX,
                    sum_of(bytes@.take(k as int)) <= sum_of(bytes@),
                    forall|j: int| 0 <= j < 14 ==> (#[trigger] before[j]) <= so_far,
                    forall|j: int|
                        0 <= j < 14 ==> (#[trigger] sums@[j]) == before[j] + (if j < k {
                            bytes@[j] as int
                        } else {
                            0
                        }),
                decreases 14 - k,
            {
                proof {
                    part_of_sum(bytes@, k as int);
                    assert(bytes@.take(k + 1).drop_last() =~= bytes@.take(k as int));
                    sum_of_grows(bytes@, k + 1);
                    assert(before[k as int] <= so_far);
                    assert(sums@[k as int] == before[k as int]);
                }
                let grown: u64 = sums[k] + bytes[k];
                sums.set(k, grown);
                part = part + bytes[k];
                k = k + 1;
            }
            assert(bytes@.take(14) =~= bytes@);
            total = total + part;
            proof {
                assert forall|j: int| 0 <= j < 14 implies (#[trigger] sums@[j]) == category_total(
                    sel.take(i + 1),
                    j,
                ) && sums@[j] <= total by {
                    part_of_sum(bytes@, j);
                    assert(before[j] <= so_far);
                    assert(category_total(sel.take(i + 1), j) == category_total(
                        sel.take(i as int),
                        j,
                    ) + bytes_in(sel[i as int], j));
                }
            }
        } else {
            assert forall|j: int| 0 <= j < 14 implies (#[trigger] sums@[j]) == category_total(
                sel.take(i + 1),
                j,
            ) && sums@[j] <= total by {
                assert(category_total(sel.take(i + 1), j) == category_total(sel.take(i as int), j)
                    + bytes_in(sel[i as int], j));
            }
        }
        i = i + 1;
    }
    assert(sel.take(i as int) =~= sel);
    (sums, total)
}

proof fn sum_of_grows(s: Seq<u64>, i: int)
    requires
        0 <= i <= s.len(),
    ensures
        sum_of(s.take(i)) <= sum_of(s),
    decreases s.len() - i,
{
    if i < s.len() {
        sum_of_grows(s, i + 1);
        assert(s.take(i + 1).drop_last() =~= s.take(i));
    } else {
        assert(s.take(i) =~= s);
    }
}

// ---------------------------------------------------------------------------
// Categories
// ---------------------------------------------------------------------------

/// Positions with a count above zero.
pub open spec fn positive(sums: Seq<u64>) -> Seq<usize>
    decreases sums.len(),
{
    if sums.len() == 0 {
        Seq::empty()
    } else {
        let before = positive(sums.drop_last());
        if sums.last() > 0 {
            before.push((sums.len() - 1) as usize)
        } else {
            before
        }
    }
}

/// The counts at positions.
pub open spec fn counts_at(sums: Seq<u64>, idx: Seq<usize>) -> Seq<u64> {
    Seq::new(idx.len(), |i: int| sums[idx[i] as int])
}

/// Whether a row speaks of a category.
pub open spec fn category_row(row: CategoryRow, sums: Seq<u64>, k: int, requests: int) -> bool {
    &&& row.name@ == category_names()[k]
    &&& row.bytes == sums[k]
    &&& row.avg_bytes == sums[k] as int / (if requests > 0 {
        requests
    } else {
        1
    })
}

/// Whether `order` puts the categories with any bytes in order, the largest first.
pub open spec fn largest_first(sums: Seq<u64>, order: Seq<usize>) -> bool {
    let any = positive(sums);
    ranked(counts_at(sums, any), any.len() as int, order, true)
}

fn names() -> (r: Vec<String>)
    ensures
        texts(r@) == category_names(),
{
    let mut r: Vec<String> = Vec::new();
    r.push("identity".to_owned());
    r.push("workspace_files".to_owned());
    r.push("skills".to_owned());
    r.push("conversation".to_owned());
    r.push("tooling".to_owned());
    r.push("tool_results".to_owned());
    r.push("user_message".to_owned());
    r.push("memory_context".to_owned());
    r.push("channel_context".to_owned());
    r.push("safety".to_owned());
    r.push("runtime".to_owned());
    r.push("assistant_response".to_owned());
    r.push("tool_calls_output".to_owned());
    r.push("thinking".to_owned());
    assert(texts(r@) =~= category_names());
    r
}

/// The categories with any bytes, the largest first, with the average for each request.
pub fn breakdown_categories(sums: &Vec<u64>, requests: u64) -> (r: Vec<CategoryRow>)
    requires
        sums@.len() == 14,
    ensures
        exists|order: Seq<usize>| #[trigger]
            largest_first(sums@, order) && r@.len() == order.len() && forall|i: int|
                0 <= i < r@.len() ==> category_row(
                    #[trigger] r@[i],
                    sums@,
                    positive(sums@)[order[i] as int] as int,
                    requests as int,
                ),
        r@.len() == positive(sums@).len(),
{
    let labels = names();
    assert(texts(labels@).len() == 14);
    let mut any: Vec<usize> = Vec::new();
    let mut values: Vec<u64> = Vec::new();
    let mut k: usize = 0;
    assert(any@ =~= positive(sums@.take(0)));
    while k < 14
        invariant
            k <= 14,
            sums@.len() == 14,
            any@ == positive(sums@.take(k as int)),
            values@.len() == any@.len(),
            forall|i: int| 0 <= i < any@.len() ==> (#[trigger] any@[i]) < 14,
            forall|i: int| 0 <= i < any@.len() ==> (#[trigger] values@[i]) == sums@[any@[i] as int],
        decreases 14 - k,
    {
        proof {
            assert(sums@.take(k + 1).drop_last() =~= sums@.take(k as int));
            assert(sums@.take(k + 1).last() == sums@[k as int]);
        }
        if sums[k] > 0 {
            any.push(k);
            values.push(sums[k]);
        }
        k = k + 1;
    }
    proof {
        assert(sums@.take(14) =~= sums@);
        assert(values@ =~= counts_at(sums@, any@));
    }
    let order = stable_order(&values, true);
    let divisor: u64 = if requests > 0 {
        requests
    } else {
        1
    };
    let mut r: Vec<CategoryRow> = Vec::new();
    let mut j: usize = 0;
    while j < order.len()
        invariant
            j <= order@.len(),
            sums@.len() == 14,
            labels@.len() == 14,
            texts(labels@) == category_names(),
            divisor == (if requests > 0 {
                requests
            } else {
                1
            }),
            divisor > 0,
            any@ == positive(sums@),
            forall|i: int| 0 <= i < any@.len() ==> (#[trigger] any@[i]) < 14,
            values@ == counts_at(sums@, any@),
            ranked(values@, values@.len() as int, order@, true),
            r@.len() == j,
            forall|i: int|
                0 <= i < j ==> category_row(
                    #[trigger] r@[i],
                    sums@,
                    any@[order@[i] as int] as int,
                    requests as int,
                ),
        decreases order.len() - j,
    {
        let at = any[order[j]];
        let row = CategoryRow {
            name: labels[at].clone(),
            avg_bytes: sums[at] / divisor,
            bytes: sums[at],
        };
        assert(texts(labels@)[at as int] == labels@[at as int]@);
        r.push(row);
        j = j + 1;
    }
    assert(largest_first(sums@, order@));
    r
}

// ---------------------------------------------------------------------------
// Rooms
// ---------------------------------------------------------------------------

fn collect_rooms(records: &Vec<CostRecord>, idx: &Vec<usize>) -> (r: Vec<String>)
    requires
        forall|i: int| 0 <= i < idx@.len() ==> (#[trigger] idx@[i]) < records@.len(),
    ensures
        texts(r@) == rooms_of(at(records@, idx@)),
{
    let ghost sel = at(records@, idx@);
    let mut r: Vec<String> = Vec::new();
    let mut i: usize = 0;
    assert(texts(r@) =~= rooms_of(sel.take(0)));
    while i < idx.len()
        invariant
            i <= idx@.len(),
            forall|i: int| 0 <= i < idx@.len() ==> (#[trigger] idx@[i]) < records@.len(),
            sel == at(records@, idx@),
            texts(r@) == rooms_of(sel.take(i as int)),
        decreases idx.len() - i,
    {
        proof {
            assert(sel.take(i + 1).drop_last() =~= sel.take(i as int));
            assert(sel.take(i + 1).last() == sel[i as int]);
        }
        let label = room_label(&records[idx[i]]);
        if !list_contains(&r, label.as_str()) {
            let ghost before = r@;
            r.push(label);
            assert(texts(r@) =~= texts(before).push(label@));
        }
        i = i + 1;
    }
    assert(sel.take(i as int) =~= sel);
    r
}

fn sum_room(records: &Vec<CostRecord>, idx: &Vec<usize>, label: &str) -> (r: ChannelRoomRow)
    requires
        forall|i: int| 0 <= i < idx@.len() ==> (#[trigger] idx@[i]) < records@.len(),
        sums_fit(at(records@, idx@)),
    ensures
        r.label@ == label@,
        row_sums(r, at(records@, idx@)),
{
    let ghost sel = at(records@, idx@);
    let ghost keep = |r: CostRecord| room_of(r) == label@;
    let ghost fi = |r: CostRecord| r.usage.input_tokens as nat;
    let ghost fo = |r: CostRecord| r.usage.output_tokens as nat;
    let mut requests: usize = 0;
    let mut input: u64 = 0;
    let mut output: u64 = 0;
    let mut i: usize = 0;
    proof {
        reveal(Seq::filter);
        assert(sel.take(0).filter(keep).len() == 0);
    }
    while i < idx.len()
        invariant
            i <= idx@.len(),
            forall|i: int| 0 <= i < idx@.len() ==> (#[trigger] idx@[i]) < records@.len(),
            sel == at(records@, idx@),
            sums_fit(sel),
            keep == (|r: CostRecord| room_of(r) == label@),
            fi == (|r: CostRecord| r.usage.input_tokens as nat),
            fo == (|r: CostRecord| r.usage.output_tokens as nat),
            requests <= i,
            requests == sel.take(i as int).filter(keep).len(),
            input == sum_over(sel.take(i as int).filter(keep), fi),
            output == sum_over(sel.take(i as int).filter(keep), fo),
        decreases idx.len() - i,
    {
        let r = &records[idx[i]];
        let ghost sub = sel.take(i as int).filter(keep);
        proof {
            reveal(Seq::filter);
            assert(*r == sel[i as int]);
            assert(sel.take(i + 1).drop_last() =~= sel.take(i as int));
            assert(sel.take(i + 1).last() == sel[i as int]);
            if keep(sel[i as int]) {
                let more = sub.push(sel[i as int]);
                assert(sel.take(i + 1).filter(keep) =~= more);
                assert(more.drop_last() =~= sub);
                sum_of_some(sel.take(i + 1), keep, fi);
                sum_of_some(sel.take(i + 1), keep, fo);
                sum_grows(sel, fi, i + 1);
                sum_grows(sel, fo, i + 1);
            }
        }
        let mine = room_label(r);
        if str_eq(mine.as_str(), label) {
            requests = requests + 1;
            input = input + r.usage.input_tokens;
            output = output + r.usage.output_tokens;
        }
        i = i + 1;
    }
    assert(sel.take(i as int) =~= sel);
    ChannelRoomRow {
        label: label.to_owned(),
        requests,
        input_tokens: input,
        output_tokens: output,
    }
}

/// The costs of rows, as integers that order them.
pub open spec fn cost_ranks(costs: Seq<u64>) -> Seq<i64> {
    Seq::new(costs.len(), |i: int| score_rank(costs[i]))
}

/// The order in which rooms are shown, given what each cost: the dearest first.
pub fn order_rooms(costs: &Vec<u64>) -> (r: Vec<usize>)
    ensures
        ranked(cost_ranks(costs@), costs@.len() as int, r@, true),
{
    let mut keys: Vec<i64> = Vec::new();
    let mut i: usize = 0;
    while i < costs.len()
        invariant
            i <= costs@.len(),
            keys@ == cost_ranks(costs@).take(i as int),
        decreases costs.len() - i,
    {
        keys.push(crate::score::rank_score(costs[i]));
        assert(keys@ =~= cost_ranks(costs@).take(i + 1));
        i = i + 1;
    }
    assert(keys@ =~= cost_ranks(costs@));
    stable_order(&keys, true)
}

// ---------------------------------------------------------------------------
// All together
// ---------------------------------------------------------------------------

proof fn counted_in_range(records: Seq<CostRecord>, f: StatsFilter)
    requires
        records.len() <= usize::MAX,
    ensures
        counted(records, f).len() <= records.len(),
        forall|i: int|
            0 <= i < counted(records, f).len() ==> (#[trigger] counted(records, f)[i])
                < records.len(),
    decreases records.len(),
{
    if records.len() > 0 {
        counted_in_range(records.drop_last(), f);
    }
}

/// Whether a list of positions holds those of the records that count, the earliest first.
pub open spec fn earliest_first(
    r: Seq<usize>,
    records: Seq<CostRecord>,
    picked: Seq<usize>,
) -> bool {
    exists|order: Seq<usize>|
        #[trigger] ranked(times(at(records, picked)), picked.len() as int, order, false) && r
            == arranged(picked, order)
}

/// Whether a breakdown says where the bytes of records went.
pub open spec fn breakdown_says(b: BreakdownResult, sel: Seq<CostRecord>) -> bool {
    &&& b.total == grand_total(sel)
    &&& exists|sums: Seq<u64>, order: Seq<usize>|
        {
            &&& sums.len() == 14
            &&& forall|k: int| 0 <= k < 14 ==> (#[trigger] sums[k]) == category_total(sel, k)
            &&& #[trigger] largest_first(sums, order)
            &&& b.categories@.len() == order.len()
            &&& forall|i: int|
                0 <= i < order.len() ==> category_row(
                    #[trigger] b.categories@[i],
                    sums,
                    positive(sums)[order[i] as int] as int,
                    sel.len() as int,
                )
        }
}

/// Adds up the records that count.
pub fn aggregate(records: &Vec<CostRecord>, filter: &StatsFilter) -> (r: StatsResult)
    requires
        sums_fit(at(records@, counted(records@, *filter))),
    ensures
        ({
            let picked = counted(records@, *filter);
            let sel = at(records@, picked);
            &&& r.start_date == filter.start_date
            &&& r.end_date == filter.end_date
            &&& r.total_input == input_total(sel)
            &&& r.total_output == output_total(sel)
            &&& r.total_cache_read == cache_read_total(sel)
            &&& r.total_cache_write == cache_write_total(sel)
            &&& r.request_count == picked.len()
            &&& r.by_channel_room@.len() == rooms_of(sel).len()
            &&& forall|i: int|
                0 <= i < r.by_channel_room@.len() ==> (#[trigger] r.by_channel_room@[i]).label@
                    == rooms_of(sel)[i] && row_sums(r.by_channel_room@[i], sel)
            &&& r.breakdown is Some <==> exists|i: int|
                0 <= i < sel.len() && (#[trigger] sel[i]).breakdown is Some
            &&& r.breakdown is Some ==> breakdown_says(r.breakdown->0, sel)
            &&& earliest_first(r.records@, records@, picked)
        }),
{
    let ghost picked = counted(records@, *filter);
    let ghost sel = at(records@, picked);
    let idx = pick(records, filter);
    let ghost fi = |r: CostRecord| r.usage.input_tokens as nat;
    let ghost fo = |r: CostRecord| r.usage.output_tokens as nat;
    let ghost fr = |r: CostRecord| or_zero(r.usage.cache_read_tokens);
    let ghost fw = |r: CostRecord| or_zero(r.usage.cache_write_tokens);
    let n: usize = idx.len();
    let mut total_input: u64 = 0;
    let mut total_output: u64 = 0;
    let mut total_cache_read: u64 = 0;
    let mut total_cache_write: u64 = 0;
    let mut has_breakdown = false;
    let mut moments: Vec<i128> = Vec::new();
    let mut i: usize = 0;
    assert(sel.take(0).len() == 0);
    while i < n
        invariant
            i <= n,
            n == idx@.len(),
            idx@ == picked,
            forall|i: int| 0 <= i < idx@.len() ==> (#[trigger] idx@[i]) < records@.len(),
            sel == at(records@, picked),
            sums_fit(sel),
            fi == (|r: CostRecord| r.usage.input_tokens as nat),
            fo == (|r: CostRecord| r.usage.output_tokens as nat),
            fr == (|r: CostRecord| or_zero(r.usage.cache_read_tokens)),
            fw == (|r: CostRecord| or_zero(r.usage.cache_write_tokens)),
            total_input == sum_over(sel.take(i as int), fi),
            total_output == sum_over(sel.take(i as int), fo),
            total_cache_read == sum_over(sel.take(i as int), fr),
            total_cache_write == sum_over(sel.take(i as int), fw),
            has_breakdown <==> exists|j: int|
                0 <= j < i && (#[trigger] sel[j]).breakdown is Some,
            moments@ == times(sel).take(i as int),
        decreases n - i,
    {
        let r = &records[idx[i]];
        proof {
            assert(*r == sel[i as int]);
            sum_step(sel, fi, i as int);
            sum_step(sel, fo, i as int);
            sum_step(sel, fr, i as int);
            sum_step(sel, fw, i as int);
        }
        total_input = total_input + r.usage.input_tokens;
        total_output = total_output + r.usage.output_tokens;
        if let Some(c) = r.usage.cache_read_tokens {
            total_cache_read = total_cache_read + c;
        }
        if let Some(c) = r.usage.cache_write_tokens {
            total_cache_write = total_cache_write + c;
        }
        if r.breakdown.is_some() {
            has_breakdown = true;
            assert(sel[i as int].breakdown is Some);
        }
        moments.push(r.usage.timestamp);
        assert(moments@ =~= times(sel).take(i + 1));
        i = i + 1;
    }
    proof {
        assert(sel.take(n as int) =~= sel);
        assert(moments@ =~= times(sel));
    }
    let rooms = collect_rooms(records, &idx);
    let ghost labels = rooms_of(sel);
    let mut by_channel_room: Vec<ChannelRoomRow> = Vec::new();
    let mut k: usize = 0;
    while k < rooms.len()
        invariant
            k <= rooms@.len(),
            texts(rooms@) == labels,
            idx@ == picked,
            forall|i: int| 0 <= i < idx@.len() ==> (#[trigger] idx@[i]) < records@.len(),
            sel == at(records@, picked),
            sums_fit(sel),
            by_channel_room@.len() == k,
            forall|i: int|
                0 <= i < k ==> (#[trigger] by_channel_room@[i]).label@ == labels[i] && row_sums(
                    by_channel_room@[i],
                    sel,
                ),
        decreases rooms.len() - k,
    {
        assert(texts(rooms@)[k as int] == rooms@[k as int]@);
        by_channel_room.push(sum_room(records, &idx, rooms[k].as_str()));
        k = k + 1;
    }
    assert(labels.len() == rooms@.len()) by {
        assert(texts(rooms@).len() == rooms@.len());
    }
    let breakdown = if has_breakdown {
        let sums = sum_categories(records, &idx);
        let categories = breakdown_categories(&sums.0, n as u64);
        proof {
            let order = choose|order: Seq<usize>| #[trigger]
                largest_first(sums.0@, order) && categories@.len() == order.len() && forall|i: int|
                    0 <= i < categories@.len() ==> category_row(
                        #[trigger] categories@[i],
                        sums.0@,
                        positive(sums.0@)[order[i] as int] as int,
                        (n as u64) as int,
                    );
            assert(largest_first(sums.0@, order));
        }
        let b = BreakdownResult { categories, total: sums.1 };
        assert(breakdown_says(b, sel));
        Some(b)
    } else {
        None
    };
    let order = stable_order(&moments, false);
    let ghost want = arranged(picked, order@);
    let mut sorted: Vec<usize> = Vec::new();
    let mut j: usize = 0;
    while j < n
        invariant
            j <= n,
            n == idx@.len(),
            idx@ == picked,
            moments@.len() == n,
            ranked(moments@, n as int, order@, false),
            want == arranged(picked, order@),
            sorted@ == want.take(j as int),
        decreases n - j,
    {
        sorted.push(idx[order[j]]);
        assert(sorted@ =~= want.take(j + 1));
        j = j + 1;
    }
    proof {
        assert(sorted@ =~= want);
        assert(ranked(times(at(records@, picked)), picked.len() as int, order@, false));
    }
    StatsResult {
        start_date: filter.start_date,
        end_date: filter.end_date,
        total_input,
        total_output,
        total_cache_read,
        total_cache_write,
        request_count: n,
        by_channel_room,
        breakdown,
        records: sorted,
    }
}

fn pick(records: &Vec<CostRecord>, filter: &StatsFilter) -> (r: Vec<usize>)
    ensures
        r@ == counted(records@, *filter),
        forall|i: int| 0 <= i < r@.len() ==> (#[trigger] r@[i]) < records@.len(),
{
    let mut r: Vec<usize> = Vec::new();
    let mut i: usize = 0;
    assert(r@ =~= counted(records@.take(0), *filter));
    while i < records.len()
        invariant
            i <= records@.len(),
            r@ == counted(records@.take(i as int), *filter),
        decreases records.len() - i,
    {
        proof {
            assert(records@.take(i + 1).drop_last() =~= records@.take(i as int));
            assert(records@.take(i + 1).last() == records@[i as int]);
        }
        if record_counts(&records[i], filter) {
            r.push(i);
        }
        i = i + 1;
    }
    proof {
        assert(records@.take(i as int) =~= records@);
        counted_in_range(records@, *filter);
    }
    r
}

/// Whether the sums over the records that count can be held; `aggregate` may be called where they
/// can.
pub fn can_aggregate(records: &Vec<CostRecord>, filter: &StatsFilter) -> (b: bool)
    ensures
        b == sums_fit(at(records@, counted(records@, *filter))),
{
    let ghost sel = at(records@, counted(records@, *filter));
    let idx = pick(records, filter);
    let ghost fi = |r: CostRecord| r.usage.input_tokens as nat;
    let ghost fo = |r: CostRecord| r.usage.output_tokens as nat;
    let ghost fr = |r: CostRecord| or_zero(r.usage.cache_read_tokens);
    let ghost fw = |r: CostRecord| or_zero(r.usage.cache_write_tokens);
    let ghost fb = |r: CostRecord| all_bytes_in(r);
    let limit: u128 = u64::MAX as u128;
    let mut input: u128 = 0;
    let mut output: u128 = 0;
    let mut read: u128 = 0;
    let mut written: u128 = 0;
    let mut bytes: u128 = 0;
    let mut i: usize = 0;
    assert(sel.take(0).len() == 0);
    while i < idx.len()
        invariant
            i <= idx@.len(),
            idx@ == counted(records@, *filter),
            forall|i: int| 0 <= i < idx@.len() ==> (#[trigger] idx@[i]) < records@.len(),
            sel == at(records@, idx@),
            limit == u64::MAX,
            fi == (|r: CostRecord| r.usage.input_tokens as nat),
            fo == (|r: CostRecord| r.usage.output_tokens as nat),
            fr == (|r: CostRecord| or_zero(r.usage.cache_read_tokens)),
            fw == (|r: CostRecord| or_zero(r.usage.cache_write_tokens)),
            fb == (|r: CostRecord| all_bytes_in(r)),
            input == sum_over(sel.take(i as int), fi) <= limit,
            output == sum_over(sel.take(i as int), fo) <= limit,
            read == sum_over(sel.take(i as int), fr) <= limit,
            written == sum_over(sel.take(i as int), fw) <= limit,
            bytes == sum_over(sel.take(i as int), fb) <= limit,
        decreases idx.len() - i,
    {
        let r = &records[idx[i]];
        proof {
            assert(*r == sel[i as int]);
            sum_step(sel, fi, i as int);
            sum_step(sel, fo, i as int);
            sum_step(sel, fr, i as int);
            sum_step(sel, fw, i as int);
            sum_step(sel, fb, i as int);
        }
        input = input + r.usage.input_tokens as u128;
        output = output + r.usage.output_tokens as u128;
        if let Some(c) = r.usage.cache_read_tokens {
            read = read + c as u128;
        }
        if let Some(c) = r.usage.cache_write_tokens {
            written = written + c as u128;
        }
        if let Some(b) = &r.breakdown {
            let parts = breakdown_bytes(b);
            let mut k: usize = 0;
            let ghost start = bytes;
            assert(parts@.take(0).len() == 0);
            while k < parts.len()
                invariant
                    k <= parts@.len(),
                    parts@.len() == 14,
                    start <= u64::MAX,
                    bytes == start + sum_of(parts@.take(k as int)),
                    sum_of(parts@.take(k as int)) <= k * u64::MAX,
                decreases parts.len() - k,
            {
                proof {
                    assert(parts@.take(k + 1).drop_last() =~= parts@.take(k as int));
                    assert(parts@.take(k + 1).last() == parts@[k as int]);
                }
                bytes = bytes + parts[k] as u128;
                k = k + 1;
            }
            assert(parts@.take(14) =~= parts@);
        }
        if input > limit || output > limit || read > limit || written > limit || bytes > limit {
            return false;
        }
        i = i + 1;
    }
    assert(sel.take(i as int) =~= sel);
    true
}

/// The days that statistics cover, as text.
pub open spec fn label_of(start: i32, end: i32) -> Option<Seq<char>> {
    match (date_of_day(start), date_of_day(end)) {
        (Some(a), Some(b)) => Some(
            if start == end {
                a
            } else {
                a + " to "@ + b
            },
        ),
        _ => None,
    }
}

/// The days that statistics cover, as text; none where a day lies outside the calendar.
pub fn date_label(start: i32, end: i32) -> (r: Option<String>)
    ensures
        opt_text(r) == label_of(start, end),
{
    let a = match date_text(start) {
        Some(a) => a,
        None => return None,
    };
    let b = match date_text(end) {
        Some(b) => b,
        None => return None,
    };
    if start == end {
        Some(a)
    } else {
        let mut r = a;
        r.append(" to ");
        r.append(b.as_str());
        Some(r)
    }
}

/// The line with the sums of tokens.
pub fn totals_line(result: &StatsResult) -> (r: String)
    ensures
        r@ == "Total: "@ + number_text(result.total_input) + " input / "@ + number_text(
            result.total_output,
        ) + " output / "@ + number_text(result.total_cache_read) + " cache_read / "@ + number_text(
            result.total_cache_write,
        ) + " cache_write"@,
{
    let mut r = String::from_str("Total: ");
    r.append(fmt_num(result.total_input).as_str());
    r.append(" input / ");
    r.append(fmt_num(result.total_output).as_str());
    r.append(" output / ");
    r.append(fmt_num(result.total_cache_read).as_str());
    r.append(" cache_read / ");
    r.append(fmt_num(result.total_cache_write).as_str());
    r.append(" cache_write");
    r
}

/// A number with its thousands set apart.
pub open spec fn number_text(n: u64) -> Seq<char> {
    crate::text::number::grouped(crate::text::number::decimal(n as nat))
}

// ---------------------------------------------------------------------------
// What statistics cover
// ---------------------------------------------------------------------------

/// Whether months are what a calendar makes them: the days of a month begin with its first, follow
/// each other, and there are none before.
pub open spec fn months_are_spans() -> bool {
    forall|d: i32| #[trigger]
        month_of_day(d) is Some ==> {
            let m = month_of_day(d)->0;
            &&& day_of_ymd(m.0, m.1, 1) is Some
            &&& day_of_ymd(m.0, m.1, 1)->0 <= d
            &&& forall|e: i32|
                #![trigger month_of_day(e)]
                {
                    &&& day_of_ymd(m.0, m.1, 1)->0 <= e <= d ==> month_of_day(e) == Some(m)
                    &&& e < day_of_ymd(m.0, m.1, 1)->0 ==> month_of_day(e) != Some(m)
                }
        }
}

/// The month so far: it ends today and begins with the first day of today's month, so a day counts
/// exactly if it is not after today and lies in the same month of the same year as today.
pub proof fn month_so_far(today: i32, d: i32)
    ensures
        days_until(today, "month"@).1 == today,
        month_of_day(today) matches Some(m) ==> (day_of_ymd(m.0, m.1, 1) matches Some(first)
            ==> days_until(today, "month"@).0 == first),
        months_are_spans() && month_of_day(today) is Some ==> (days_until(today, "month"@).0 <= d
            <= days_until(today, "month"@).1 <==> d <= today && month_of_day(d) == month_of_day(
            today,
        )),
{
    reveal_strlit("month");
    reveal_strlit("week");
    assert("month"@.len() != "week"@.len());
    if months_are_spans() && month_of_day(today) is Some {
        let m = month_of_day(today)->0;
        let first = day_of_ymd(m.0, m.1, 1)->0;
        assert(days_until(today, "month"@) == (first as int, today as int));
        assert(month_of_day(d) == month_of_day(d));
    }
}

/// The month around a day: it begins with the first day of the day's month and ends the day before
/// the first day of the next one.
pub proof fn whole_month(day: i32, year: i32, month: u32)
    requires
        year < i32::MAX,
        1 <= month <= 12,
    ensures
        month_of_day(day) == Some((year, month)) ==> {
            &&& day_of_ymd(year, month, 1) matches Some(first) ==> days_from(day, "month"@).0 == first
            &&& month < 12 ==> (day_of_ymd(year, (month + 1) as u32, 1) matches Some(next)
                ==> days_from(day, "month"@).1 == next - 1)
            &&& month == 12 ==> (day_of_ymd((year + 1) as i32, 1, 1) matches Some(next) ==> days_from(
                day,
                "month"@,
            ).1 == next - 1)
        },
{
    reveal_strlit("month");
    reveal_strlit("week");
    assert("month"@.len() != "week"@.len());
}

/// A week is seven days: up to today, or from the day that is given. Any other period but a month is
/// one day.
pub proof fn weeks_and_days(today: i32, day: i32, period: Seq<char>, d: int)
    ensures
        days_until(today, "week"@).0 <= d <= days_until(today, "week"@).1 <==> today - 7 < d <= today,
        days_from(day, "week"@).0 <= d <= days_from(day, "week"@).1 <==> day <= d < day + 7,
        period != "week"@ && period != "month"@ ==> (days_until(today, period).0 <= d <= days_until(
            today,
            period,
        ).1 <==> d == today),
        period != "week"@ && period != "month"@ ==> (days_from(day, period).0 <= d <= days_from(
            day,
            period,
        ).1 <==> d == day),
{
}

/// A record counts exactly if its day is neither before the first day nor after the last, and it is
/// of the room, where one is asked for.
pub proof fn records_count_by_day_and_room(r: CostRecord, f: StatsFilter)
    ensures
        f.room is None ==> (counts(r, f) <==> f.start_date <= day_of_time(r.usage.timestamp)
            && day_of_time(r.usage.timestamp) <= f.end_date),
        f.room matches Some(room) ==> (counts(r, f) <==> f.start_date <= day_of_time(
            r.usage.timestamp,
        ) && day_of_time(r.usage.timestamp) <= f.end_date && r.room is Some && r.room->0@ == room@),
{
}

/// The records that are picked are those that count, each once, in their order.
pub proof fn picked_records_count(records: Seq<CostRecord>, f: StatsFilter)
    requires
        records.len() <= usize::MAX,
    ensures
        forall|k: usize|
            #[trigger] counted(records, f).contains(k) <==> k < records.len() && counts(
                records[k as int],
                f,
            ),
        forall|i: int, j: int|
            0 <= i < j < counted(records, f).len() ==> (#[trigger] counted(records, f)[i]) < (
            #[trigger] counted(records, f)[j]),
    decreases records.len(),
{
    let all = counted(records, f);
    if records.len() > 0 {
        let rest = records.drop_last();
        let before = counted(rest, f);
        let last = (records.len() - 1) as usize;
        picked_records_count(rest, f);
        counted_in_range(rest, f);
        assert forall|k: usize| #[trigger] all.contains(k) <==> k < records.len() && counts(
            records[k as int],
            f,
        ) by {
            if all.contains(k) {
                let i = choose|i: int| 0 <= i < all.len() && all[i] == k;
                if i < before.len() {
                    assert(before[i] == k);
                    assert(before.contains(k));
                    assert(rest[k as int] == records[k as int]);
                }
            }
            if k < records.len() && counts(records[k as int], f) {
                if k < rest.len() {
                    assert(rest[k as int] == records[k as int]);
                    assert(before.contains(k));
                    let i = choose|i: int| 0 <= i < before.len() && before[i] == k;
                    assert(all[i] == k);
                } else {
                    assert(all[before.len() as int] == k);
                }
            }
        }
        assert forall|i: int, j: int| 0 <= i < j < all.len() implies (#[trigger] all[i]) < (
        #[trigger] all[j]) by {
            assert(all[i] == before[i]);
            if j < before.len() {
                assert(all[j] == before[j]);
            }
        }
    }
}

/// A further record adds its own tokens and bytes to each sum.
pub proof fn sums_add_up(records: Seq<CostRecord>, r: CostRecord, k: int)
    requires
        0 <= k < 14,
    ensures
        ({
            let more = records.push(r);
            &&& input_total(more) == input_total(records) + r.usage.input_tokens
            &&& output_total(more) == output_total(records) + r.usage.output_tokens
            &&& cache_read_total(more) == cache_read_total(records) + (match r.usage.cache_read_tokens {
                Some(n) => n as int,
                None => 0,
            })
            &&& cache_write_total(more) == cache_write_total(records) + (match r.usage.cache_write_tokens {
                Some(n) => n as int,
                None => 0,
            })
            &&& grand_total(more) == grand_total(records) + (match r.breakdown {
                Some(b) => b.input_bytes() + b.output_bytes(),
                None => 0,
            })
            &&& r.breakdown is None ==> category_total(more, k) == category_total(records, k)
            &&& r.breakdown matches Some(b) ==> category_total(more, k) == category_total(records, k)
                + category_bytes(b)[k]
        }),
        input_total(Seq::empty()) == 0,
        output_total(Seq::empty()) == 0,
        cache_read_total(Seq::empty()) == 0,
        cache_write_total(Seq::empty()) == 0,
        grand_total(Seq::empty()) == 0,
        category_total(Seq::empty(), k) == 0,
{
    let more = records.push(r);
    assert(more.drop_last() =~= records);
    if let Some(b) = r.breakdown {
        categories_are_named(b);
    }
}

/// The part of a breakdown that goes by a name.
pub open spec fn bytes_named(b: TokenBreakdown, name: Seq<char>, bytes: u64) -> bool {
    exists|k: int|
        0 <= k < 14 && #[trigger] category_names()[k] == name && category_bytes(b)[k] == bytes
}

/// Each category stands for one part of a breakdown, under its name, and together they are all of it.
pub proof fn categories_are_named(b: TokenBreakdown)
    ensures
        category_names().len() == 14,
        category_bytes(b).len() == 14,
        sum_of(category_bytes(b)) == b.input_bytes() + b.output_bytes(),
        bytes_named(b, "identity"@, b.identity),
        bytes_named(b, "workspace_files"@, b.workspace_files),
        bytes_named(b, "skills"@, b.skills),
        bytes_named(b, "conversation"@, b.conversation_history),
        bytes_named(b, "tooling"@, b.tooling),
        bytes_named(b, "tool_results"@, b.tool_results),
        bytes_named(b, "user_message"@, b.user_message),
        bytes_named(b, "memory_context"@, b.memory_context),
        bytes_named(b, "channel_context"@, b.channel_context),
        bytes_named(b, "safety"@, b.safety),
        bytes_named(b, "runtime"@, b.runtime),
        bytes_named(b, "assistant_response"@, b.assistant_response),
        bytes_named(b, "tool_calls_output"@, b.tool_calls_output),
        bytes_named(b, "thinking"@, b.thinking),
{
    let s = category_bytes(b);
    let n = category_names();
    reveal_with_fuel(sum_of, 15);
    assert(sum_of(s) == s[0] + s[1] + s[2] + s[3] + s[4] + s[5] + s[6] + s[7] + s[8] + s[9] + s[10] + s[11] + s[12] + s[13]);
    assert(n[0] == "identity"@);
    assert(n[1] == "workspace_files"@);
    assert(n[2] == "skills"@);
    assert(n[3] == "conversation"@);
    assert(n[4] == "tooling"@);
    assert(n[5] == "tool_results"@);
    assert(n[6] == "user_message"@);
    assert(n[7] == "memory_context"@);
    assert(n[8] == "channel_context"@);
    assert(n[9] == "safety"@);
    assert(n[10] == "runtime"@);
    assert(n[11] == "assistant_response"@);
    assert(n[12] == "tool_calls_output"@);
    assert(n[13] == "thinking"@);
}

/// The rooms of records are those that a record is of, and none comes twice.
pub proof fn rooms_come_once(records: Seq<CostRecord>)
    ensures
        rooms_of(records).no_duplicates(),
        forall|label: Seq<char>|
            #[trigger] rooms_of(records).contains(label) <==> exists|i: int|
                0 <= i < records.len() && room_of(#[trigger] records[i]) == label,
    decreases records.len(),
{
    let all = rooms_of(records);
    if records.len() > 0 {
        let rest = records.drop_last();
        let before = rooms_of(rest);
        let mine = room_of(records.last());
        rooms_come_once(rest);
        assert forall|label: Seq<char>| #[trigger] all.contains(label) <==> exists|i: int|
            0 <= i < records.len() && room_of(#[trigger] records[i]) == label by {
            if all.contains(label) {
                let k = choose|k: int| 0 <= k < all.len() && all[k] == label;
                if k < before.len() {
                    assert(before[k] == label);
                    assert(before.contains(label));
                    let i = choose|i: int|
                        0 <= i < rest.len() && room_of(#[trigger] rest[i]) == label;
                    assert(records[i] == rest[i]);
                } else {
                    assert(room_of(records[records.len() - 1]) == label);
                }
            }
            if exists|i: int| 0 <= i < records.len() && room_of(#[trigger] records[i]) == label {
                let i = choose|i: int|
                    0 <= i < records.len() && room_of(#[trigger] records[i]) == label;
                if i < rest.len() {
                    assert(room_of(rest[i]) == label);
                    assert(before.contains(label));
                    let k = choose|k: int| 0 <= k < before.len() && before[k] == label;
                    assert(all[k] == label);
                } else if before.contains(mine) {
                    assert(all.contains(label));
                } else {
                    assert(all[before.len() as int] == label);
                }
            }
        }
        if !before.contains(mine) {
            assert forall|i: int, j: int| 0 <= i < all.len() && 0 <= j < all.len() && i
                != j implies all[i] != all[j] by {
                if i < before.len() {
                    assert(all[i] == before[i]);
                    assert(before.contains(before[i]));
                }
                if j < before.len() {
                    assert(all[j] == before[j]);
                    assert(before.contains(before[j]));
                }
            }
        }
    } else {
        assert(!all.contains(Seq::<char>::empty()));
    }
}

/// The records of a room are those with its channel and room, with words for what is missing.
pub proof fn rooms_hold_their_records(records: Seq<CostRecord>, label: Seq<char>, r: CostRecord)
    ensures
        in_room(records, label).contains(r) <==> records.contains(r) && room_of(r) == label,
        r.channel is Some && r.room is Some ==> room_of(r) == r.channel->0@ + "/"@ + r.room->0@,
        r.channel is Some && r.room is None ==> room_of(r) == r.channel->0@ + "/default"@,
        r.channel is None && r.room is Some ==> room_of(r) == "unknown/"@ + r.room->0@,
        r.channel is None && r.room is None ==> room_of(r) == "unknown/default"@,
{
    let keep = |r: CostRecord| room_of(r) == label;
    let mine = in_room(records, label);
    if mine.contains(r) {
        let k = choose|k: int| 0 <= k < mine.len() && mine[k] == r;
        records.lemma_filter_pred(keep, k);
        records.lemma_filter_contains_rev(keep, r);
    }
    if records.contains(r) && room_of(r) == label {
        let k = choose|k: int| 0 <= k < records.len() && records[k] == r;
        records.lemma_filter_contains(keep, k);
    }
    reveal_strlit("/");
    reveal_strlit("default");
    reveal_strlit("unknown");
    reveal_strlit("/default");
    reveal_strlit("unknown/");
    reveal_strlit("unknown/default");
    assert("/"@ + "default"@ =~= "/default"@);
    assert("unknown"@ + "/"@ =~= "unknown/"@);
    if r.room is None {
        if r.channel is Some {
            assert(room_of(r) =~= r.channel->0@ + ("/"@ + "default"@));
        } else {
            assert(room_of(r) =~= "unknown/default"@);
        }
    }
}

/// The records of statistics are those that count, each once, the earliest first.
pub proof fn records_are_listed_by_time(
    r: Seq<usize>,
    records: Seq<CostRecord>,
    f: StatsFilter,
    i: int,
    j: int,
)
    requires
        records.len() <= usize::MAX,
        earliest_first(r, records, counted(records, f)),
        0 <= i < j < r.len(),
    ensures
        r.len() == counted(records, f).len(),
        r[i] < records.len() && counts(records[r[i] as int], f),
        records[r[i] as int].usage.timestamp <= records[r[j] as int].usage.timestamp,
        r[i] != r[j],
        forall|k: usize| k < records.len() && counts(records[k as int], f) ==> #[trigger] r.contains(k),
{
    let picked = counted(records, f);
    let keys = times(at(records, picked));
    let order = choose|order: Seq<usize>|
        #[trigger] ranked(times(at(records, picked)), picked.len() as int, order, false) && r
            == arranged(picked, order);
    picked_records_count(records, f);
    counted_in_range(records, f);
    times_in_order(keys, order, i, j);
    let a = order[i] as int;
    let b = order[j] as int;
    assert(r[i] == picked[a] && r[j] == picked[b]);
    assert(picked.contains(picked[a]));
    assert(keys[a] == records[r[i] as int].usage.timestamp);
    assert(keys[b] == records[r[j] as int].usage.timestamp);
    if a < b {
        assert(picked[a] < picked[b]);
    } else {
        assert(precedes(keys, a, b, false));
        assert(a != b);
        assert(picked[b] < picked[a]);
    }
    assert forall|k: usize| k < records.len() && counts(records[k as int], f) implies
        #[trigger] r.contains(k) by {
        assert(picked.contains(k));
        arranged_holds_the_same(keys, picked, order, false, k);
    }
}

/// The positions with a count above zero.
pub proof fn positive_positions(sums: Seq<u64>)
    requires
        sums.len() <= usize::MAX,
    ensures
        forall|k: usize|
            #[trigger] positive(sums).contains(k) <==> k < sums.len() && sums[k as int] > 0,
        positive(sums).no_duplicates(),
    decreases sums.len(),
{
    let all = positive(sums);
    if sums.len() > 0 {
        let rest = sums.drop_last();
        let before = positive(rest);
        let last = (sums.len() - 1) as usize;
        positive_positions(rest);
        assert forall|k: usize| #[trigger] all.contains(k) <==> k < sums.len() && sums[k as int] > 0 by {
            if all.contains(k) {
                let i = choose|i: int| 0 <= i < all.len() && all[i] == k;
                if i < before.len() {
                    assert(before[i] == k);
                    assert(before.contains(k));
                }
            }
            if k < sums.len() && sums[k as int] > 0 {
                if k < rest.len() {
                    assert(before.contains(k));
                    let i = choose|i: int| 0 <= i < before.len() && before[i] == k;
                    assert(all[i] == k);
                } else {
                    assert(all[before.len() as int] == k);
                }
            }
        }
        if sums.last() > 0 {
            assert(!before.contains(last));
            assert forall|i: int, j: int| 0 <= i < all.len() && 0 <= j < all.len() && i
                != j implies all[i] != all[j] by {
                if i < before.len() {
                    assert(all[i] == before[i] && before.contains(before[i]));
                }
                if j < before.len() {
                    assert(all[j] == before[j] && before.contains(before[j]));
                }
            }
        }
    }
}

/// A breakdown lists the categories that any bytes went to, each with its name, its bytes and their
/// average for each request, the largest first, and no other.
pub proof fn breakdown_lists_what_was_used(b: BreakdownResult, sel: Seq<CostRecord>)
    requires
        breakdown_says(b, sel),
    ensures
        b.total == grand_total(sel),
        forall|i: int|
            0 <= i < b.categories@.len() ==> exists|k: int|
                0 <= k < 14 && (#[trigger] b.categories@[i]).name@ == #[trigger] category_names()[k]
                    && b.categories@[i].bytes == category_total(sel, k) && b.categories@[i].bytes > 0
                    && b.categories@[i].avg_bytes == category_total(sel, k) as int / (if sel.len()
                    > 0 {
                    sel.len() as int
                } else {
                    1
                }),
        forall|i: int, j: int|
            0 <= i < j < b.categories@.len() ==> (#[trigger] b.categories@[i]).bytes >= (
            #[trigger] b.categories@[j]).bytes,
        forall|k: int|
            0 <= k < 14 && #[trigger] category_total(sel, k) > 0 ==> exists|i: int|
                0 <= i < b.categories@.len() && (#[trigger] b.categories@[i]).name@
                    == category_names()[k],
{
    let (sums, order) = choose|sums: Seq<u64>, order: Seq<usize>|
        {
            &&& sums.len() == 14
            &&& forall|k: int| 0 <= k < 14 ==> (#[trigger] sums[k]) == category_total(sel, k)
            &&& #[trigger] largest_first(sums, order)
            &&& b.categories@.len() == order.len()
            &&& forall|i: int|
                0 <= i < order.len() ==> category_row(
                    #[trigger] b.categories@[i],
                    sums,
                    positive(sums)[order[i] as int] as int,
                    sel.len() as int,
                )
        };
    let any = positive(sums);
    let keys = counts_at(sums, any);
    positive_positions(sums);
    ranked_is_permutation(keys, order, true);
    assert forall|i: int| 0 <= i < b.categories@.len() implies exists|k: int|
        0 <= k < 14 && (#[trigger] b.categories@[i]).name@ == #[trigger] category_names()[k]
            && b.categories@[i].bytes == category_total(sel, k) && b.categories@[i].bytes > 0
            && b.categories@[i].avg_bytes == category_total(sel, k) as int / (if sel.len() > 0 {
            sel.len() as int
        } else {
            1
        }) by {
        let p = any[order[i] as int];
        assert(any.contains(p));
        let k = p as int;
        assert(category_row(b.categories@[i], sums, k, sel.len() as int));
        assert(sums[k] == category_total(sel, k));
        assert(b.categories@[i].name@ == category_names()[k]);
    }
    assert forall|i: int, j: int| 0 <= i < j < b.categories@.len() implies (
    #[trigger] b.categories@[i]).bytes >= (#[trigger] b.categories@[j]).bytes by {
        numbers_in_order(keys, order, i, j);
        assert(category_row(
            b.categories@[i],
            sums,
            any[order[i] as int] as int,
            sel.len() as int,
        ));
        assert(category_row(
            b.categories@[j],
            sums,
            any[order[j] as int] as int,
            sel.len() as int,
        ));
    }
    assert forall|k: int| 0 <= k < 14 && #[trigger] category_total(sel, k) > 0 implies exists|i: int|
        0 <= i < b.categories@.len() && (#[trigger] b.categories@[i]).name@ == category_names()[k] by {
        assert(sums[k] > 0);
        assert(any.contains(k as usize));
        let p = choose|p: int| 0 <= p < any.len() && any[p] == k as usize;
        any_fits(sums);
        assert(order.contains(p as usize));
        let i = choose|i: int| 0 <= i < order.len() && order[i] == p as usize;
        assert(category_row(
            b.categories@[i],
            sums,
            any[order[i] as int] as int,
            sel.len() as int,
        ));
    }
}

proof fn any_fits(sums: Seq<u64>)
    ensures
        positive(sums).len() <= sums.len(),
    decreases sums.len(),
{
    if sums.len() > 0 {
        any_fits(sums.drop_last());
    }
}

/// The days that statistics cover read as one date where they are one day, else as two.
pub proof fn spans_are_labelled(start: i32, end: i32, a: Seq<char>, b: Seq<char>)
    ensures
        date_of_day(start) == Some(a) && start == end ==> label_of(start, end) == Some(a),
        date_of_day(start) == Some(a) && date_of_day(end) == Some(b) && start != end ==> label_of(
            start,
            end,
        ) == Some(a + " to "@ + b),
        date_of_day(start) is None || date_of_day(end) is None ==> label_of(start, end) is None,
{
}

/// The row of a room counts its records and adds up their tokens: where it is the only one there, its
/// own, and where nothing was asked there, none.
pub proof fn rows_say_what_was_used(row: ChannelRoomRow, records: Seq<CostRecord>)
    requires
        row_sums(row, records),
    ensures
        row.requests == in_room(records, row.label@).len(),
        in_room(records, row.label@).len() == 0 ==> row.input_tokens == 0 && row.output_tokens == 0,
        in_room(records, row.label@).len() == 1 ==> row.input_tokens == in_room(
            records,
            row.label@,
        )[0].usage.input_tokens && row.output_tokens == in_room(
            records,
            row.label@,
        )[0].usage.output_tokens,
{
    let mine = in_room(records, row.label@);
    reveal_with_fuel(sum_over, 3);
    if mine.len() == 1 {
        assert(mine.last() == mine[0]);
        assert(mine.drop_last().len() == 0);
    }
}

} // verus!
