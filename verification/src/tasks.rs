//! Tasks and their statuses.

use crate::text::number::{
    all_digits, decimal, decimal_is_digits, is_digit, parse_decimal_round_trip, parse_u64, parsed,
    u64_text, without_plus,
};
use crate::text::case::{ascii_upper, to_uppercase, uppercase};
use crate::text::pattern::{begins_with, strip_prefix};
use crate::text::space::{is_white, trim, trim_is_idempotent, trimmed, trimmed_already};
use crate::text::{opt_eq, opt_str, opt_text, str_eq};
use vstd::prelude::*;
use vstd::utf8::is_ascii_chars;

verus! {

/// A status that a task once had.
#[derive(Debug)]
pub struct StatusEntry {
    pub status: Option<String>,
    /// The kind of the event that reports it.
    pub kind: u16,
    pub detail: Option<String>,
    pub timestamp: Option<String>,
}

/// What a `StatusEntry` says.
pub struct StatusView {
    pub status: Option<Seq<char>>,
    pub kind: u16,
    pub detail: Option<Seq<char>>,
    pub timestamp: Option<Seq<char>>,
}

impl View for StatusEntry {
    type V = StatusView;

    open spec fn view(&self) -> StatusView {
        StatusView {
            status: opt_text(self.status),
            kind: self.kind,
            detail: opt_text(self.detail),
            timestamp: opt_text(self.timestamp),
        }
    }
}

/// The kind of the event that stands for a task.
pub const TASK_KIND: u16 = 1621;

/// A task as the task file holds it: fields may be missing.
#[derive(Debug)]
pub struct Task {
    pub id: Option<String>,
    pub title: Option<String>,
    pub description: Option<String>,
    pub status: Option<String>,
    pub created_at: Option<String>,
    pub updated_at: Option<String>,
    /// The kind of the event that stands for it.
    pub kind: Option<u16>,
    pub status_history: Option<Vec<StatusEntry>>,
}

/// What a `Task` says.
pub struct TaskView {
    pub id: Option<Seq<char>>,
    pub title: Option<Seq<char>>,
    pub description: Option<Seq<char>>,
    pub status: Option<Seq<char>>,
    pub created_at: Option<Seq<char>>,
    pub updated_at: Option<Seq<char>>,
    pub kind: Option<u16>,
    pub history: Option<Seq<StatusView>>,
}

/// What the statuses of a history say.
pub open spec fn status_views(h: Seq<StatusEntry>) -> Seq<StatusView> {
    Seq::new(h.len(), |i: int| h[i]@)
}

impl View for Task {
    type V = TaskView;

    open spec fn view(&self) -> TaskView {
        TaskView {
            id: opt_text(self.id),
            title: opt_text(self.title),
            description: opt_text(self.description),
            status: opt_text(self.status),
            created_at: opt_text(self.created_at),
            updated_at: opt_text(self.updated_at),
            kind: self.kind,
            history: match self.status_history {
                Some(h) => Some(status_views(h@)),
                None => None,
            },
        }
    }
}

/// What tasks say.
pub open spec fn task_views(tasks: Seq<Task>) -> Seq<TaskView> {
    Seq::new(tasks.len(), |i: int| tasks[i]@)
}

/// The kind of the event that reports a status.
pub open spec fn status_kind(status: Seq<char>) -> Option<u16> {
    if status == "queued"@ {
        Some(1630)
    } else if status == "done"@ {
        Some(1631)
    } else if status == "cancelled"@ {
        Some(1632)
    } else if status == "draft"@ {
        Some(1633)
    } else if status == "executing"@ {
        Some(1634)
    } else if status == "blocked"@ {
        Some(1635)
    } else if status == "review"@ {
        Some(1636)
    } else if status == "failed"@ {
        Some(1637)
    } else {
        None
    }
}

/// The kind of the event that reports a status.
pub fn kind_of_status(status: &str) -> (r: Option<u16>)
    ensures
        r == status_kind(status@),
{
    if str_eq(status, "queued") {
        Some(1630)
    } else if str_eq(status, "done") {
        Some(1631)
    } else if str_eq(status, "cancelled") {
        Some(1632)
    } else if str_eq(status, "draft") {
        Some(1633)
    } else if str_eq(status, "executing") {
        Some(1634)
    } else if str_eq(status, "blocked") {
        Some(1635)
    } else if str_eq(status, "review") {
        Some(1636)
    } else if str_eq(status, "failed") {
        Some(1637)
    } else {
        None
    }
}

/// Two statuses are reported by events of different kinds.
pub proof fn status_kinds_differ(a: Seq<char>, b: Seq<char>)
    requires
        status_kind(a) is Some,
        status_kind(a) == status_kind(b),
    ensures
        a == b,
{
}

/// A task that has just been made.
pub open spec fn new_task(
    id: Seq<char>,
    title: Seq<char>,
    description: Seq<char>,
    status: Seq<char>,
    kind: u16,
    now: Seq<char>,
) -> TaskView {
    TaskView {
        id: Some(id),
        title: Some(title),
        description: Some(description),
        status: Some(status),
        created_at: Some(now),
        updated_at: Some(now),
        kind: Some(TASK_KIND),
        history: Some(
            seq![StatusView { status: Some(status), kind, detail: None, timestamp: Some(now) }],
        ),
    }
}

/// A task that has just been made.
pub fn make_task(
    id: &str,
    title: &str,
    description: &str,
    status: &str,
    kind: u16,
    now: &str,
) -> (r: Task)
    ensures
        r@ == new_task(id@, title@, description@, status@, kind, now@),
{
    let mut history: Vec<StatusEntry> = Vec::new();
    history.push(
        StatusEntry {
            status: Some(status.to_owned()),
            kind,
            detail: None,
            timestamp: Some(now.to_owned()),
        },
    );
    assert(status_views(history@) =~= new_task(
        id@,
        title@,
        description@,
        status@,
        kind,
        now@,
    ).history->0);
    Task {
        id: Some(id.to_owned()),
        title: Some(title.to_owned()),
        description: Some(description.to_owned()),
        status: Some(status.to_owned()),
        created_at: Some(now.to_owned()),
        updated_at: Some(now.to_owned()),
        kind: Some(TASK_KIND),
        status_history: Some(history),
    }
}

/// A task after its status changed. The change is noted in its history, if it has one.
pub open spec fn task_moved(
    t: TaskView,
    status: Seq<char>,
    kind: u16,
    detail: Seq<char>,
    now: Seq<char>,
) -> TaskView {
    TaskView {
        status: Some(status),
        updated_at: Some(now),
        history: match t.history {
            Some(h) => Some(
                h.push(
                    StatusView { status: Some(status), kind, detail: Some(detail), timestamp: Some(now) },
                ),
            ),
            None => None,
        },
        ..t
    }
}

/// The position of the first task with an id.
pub open spec fn task_at(tasks: Seq<TaskView>, id: Seq<char>) -> Option<int>
    decreases tasks.len(),
{
    if tasks.len() == 0 {
        None
    } else {
        match task_at(tasks.drop_last(), id) {
            Some(i) => Some(i),
            None => if tasks.last().id == Some(id) {
                Some(tasks.len() - 1)
            } else {
                None
            },
        }
    }
}

/// The position of the first task with an id.
pub fn find_task(tasks: &Vec<Task>, id: &str) -> (r: Option<usize>)
    ensures
        match r {
            Some(i) => {
                &&& i < tasks@.len()
                &&& task_at(task_views(tasks@), id@) == Some(i as int)
                &&& tasks@[i as int]@.id == Some(id@)
            },
            None => task_at(task_views(tasks@), id@) is None,
        },
{
    let ghost all = task_views(tasks@);
    let mut i: usize = 0;
    assert(task_at(all.take(0), id@) is None);
    while i < tasks.len()
        invariant
            i <= tasks@.len(),
            all == task_views(tasks@),
            task_at(all.take(i as int), id@) is None,
        decreases tasks.len() - i,
    {
        proof {
            assert(all.take(i + 1).drop_last() =~= all.take(i as int));
            assert(all.take(i + 1).last() == all[i as int]);
        }
        if opt_eq(&tasks[i].id, id) {
            proof {
                task_at_stays(all, id@, i + 1);
            }
            return Some(i);
        }
        i = i + 1;
    }
    assert(all.take(i as int) =~= all);
    None
}

proof fn task_at_stays(tasks: Seq<TaskView>, id: Seq<char>, n: int)
    requires
        0 <= n <= tasks.len(),
        task_at(tasks.take(n), id) is Some,
    ensures
        task_at(tasks, id) == task_at(tasks.take(n), id),
    decreases tasks.len() - n,
{
    if n < tasks.len() {
        assert(tasks.take(n + 1).drop_last() =~= tasks.take(n));
        task_at_stays(tasks, id, n + 1);
    } else {
        assert(tasks.take(n) =~= tasks);
    }
}

/// Changes the status of the task at a position.
pub fn move_task(
    tasks: &mut Vec<Task>,
    i: usize,
    status: &str,
    kind: u16,
    detail: &str,
    now: &str,
)
    requires
        i < old(tasks)@.len(),
    ensures
        task_views(final(tasks)@) == task_views(old(tasks)@).update(
            i as int,
            task_moved(old(tasks)@[i as int]@, status@, kind, detail@, now@),
        ),
{
    let ghost before = tasks@;
    let mut task = tasks.remove(i);
    let ghost was = task@;
    task.status = Some(status.to_owned());
    task.updated_at = Some(now.to_owned());
    let mut history: Option<Vec<StatusEntry>> = None;
    std::mem::swap(&mut history, &mut task.status_history);
    if let Some(h) = history {
        let mut h = h;
        let ghost old_h = h@;
        let entry = StatusEntry {
            status: Some(status.to_owned()),
            kind,
            detail: Some(detail.to_owned()),
            timestamp: Some(now.to_owned()),
        };
        h.push(entry);
        assert(status_views(h@) =~= status_views(old_h).push(entry@));
        task.status_history = Some(h);
    }
    assert(task@ == task_moved(was, status@, kind, detail@, now@));
    tasks.insert(i, task);
    assert(task_views(tasks@) =~= task_views(before).update(i as int, task@));
}

// ---------------------------------------------------------------------------
// Listing
// ---------------------------------------------------------------------------

/// A field, or a question mark where it is missing.
pub open spec fn or_mark(f: Option<Seq<char>>) -> Seq<char> {
    match f {
        Some(t) => t,
        None => "?"@,
    }
}

/// A field, or a question mark where it is missing.
pub fn field_or_mark(f: &Option<String>) -> (r: String)
    ensures
        r@ == or_mark(opt_text(*f)),
{
    match f {
        Some(t) => t.clone(),
        None => "?".to_owned(),
    }
}

/// The tasks with a status, or all.
pub open spec fn with_status(tasks: Seq<TaskView>, status: Option<Seq<char>>) -> Seq<TaskView> {
    tasks.filter(|t: TaskView| status is None || t.status == status)
}

/// The line of a task in a list.
pub open spec fn list_line(t: TaskView) -> Seq<char> {
    "  ["@ + or_mark(t.status) + "] "@ + or_mark(t.id) + ": "@ + or_mark(t.title) + " (updated: "@
        + or_mark(t.updated_at) + ")\n"@
}

/// The lines of tasks in a list.
pub open spec fn list_lines(tasks: Seq<TaskView>) -> Seq<char>
    decreases tasks.len(),
{
    if tasks.len() == 0 {
        Seq::empty()
    } else {
        list_lines(tasks.drop_last()) + list_line(tasks.last())
    }
}

/// The list of tasks, if there are any: their number, then a line for each.
pub open spec fn list_text(tasks: Seq<TaskView>) -> Option<Seq<char>> {
    if tasks.len() == 0 {
        None
    } else {
        Some(decimal(tasks.len()) + " task(s):\n"@ + list_lines(tasks))
    }
}

fn push_line(out: &mut String, t: &Task)
    ensures
        final(out)@ == old(out)@ + list_line(t@),
{
    let ghost before = out@;
    out.append("  [");
    out.append(field_or_mark(&t.status).as_str());
    out.append("] ");
    out.append(field_or_mark(&t.id).as_str());
    out.append(": ");
    out.append(field_or_mark(&t.title).as_str());
    out.append(" (updated: ");
    out.append(field_or_mark(&t.updated_at).as_str());
    out.append(")\n");
    assert(out@ =~= before + list_line(t@));
}

/// The list of the tasks with a status, or of all.
pub fn list_tasks(tasks: &Vec<Task>, status: Option<&str>) -> (r: Option<String>)
    ensures
        opt_text(r) == list_text(with_status(task_views(tasks@), opt_str(status))),
{
    let ghost all = task_views(tasks@);
    let ghost wanted = opt_str(status);
    let ghost keep = |t: TaskView| wanted is None || t.status == wanted;
    let mut count: usize = 0;
    let mut lines = String::new();
    let mut i: usize = 0;
    proof {
        reveal(Seq::filter);
        assert(all.take(0).filter(keep) =~= Seq::<TaskView>::empty());
    }
    while i < tasks.len()
        invariant
            i <= tasks@.len(),
            all == task_views(tasks@),
            wanted == opt_str(status),
            keep == (|t: TaskView| wanted is None || t.status == wanted),
            count <= i,
            count == all.take(i as int).filter(keep).len(),
            lines@ == list_lines(all.take(i as int).filter(keep)),
        decreases tasks.len() - i,
    {
        let ghost found = all.take(i as int).filter(keep);
        proof {
            reveal(Seq::filter);
            assert(all.take(i + 1).drop_last() =~= all.take(i as int));
            assert(all.take(i + 1).last() == all[i as int]);
        }
        let listed = match status {
            Some(s) => opt_eq(&tasks[i].status, s),
            None => true,
        };
        if listed {
            push_line(&mut lines, &tasks[i]);
            count = count + 1;
            proof {
                let more = found.push(all[i as int]);
                assert(all.take(i + 1).filter(keep) =~= more);
                assert(more.drop_last() =~= found);
            }
        }
        i = i + 1;
    }
    assert(all.take(i as int) =~= all);
    if count == 0 {
        None
    } else {
        let mut r = u64_text(count as u64);
        r.append(" task(s):\n");
        r.append(lines.as_str());
        Some(r)
    }
}

// ---------------------------------------------------------------------------
// Numbered ids
// ---------------------------------------------------------------------------

/// The id of the task with a number.
pub open spec fn numbered_id(n: nat) -> Seq<char> {
    "SNOW-"@ + decimal(n)
}

/// The number of a task with a numbered id.
pub open spec fn id_number(id: Seq<char>) -> Option<nat> {
    if begins_with(id, "SNOW-"@) {
        parsed(id.skip("SNOW-"@.len() as int), u64::MAX as nat)
    } else {
        None
    }
}

/// The number of a task with a numbered id.
pub fn parse_snow_number(id: &str) -> (r: Option<u64>)
    ensures
        match r {
            Some(n) => id_number(id@) == Some(n as nat),
            None => id_number(id@) is None,
        },
{
    match strip_prefix(id, "SNOW-") {
        Some(rest) => parse_u64(rest.as_str()),
        None => None,
    }
}

/// The number of a task, if its id has one.
pub open spec fn task_number(t: TaskView) -> Option<nat> {
    match t.id {
        Some(id) => id_number(id),
        None => None,
    }
}

/// The largest number of a task.
pub open spec fn largest_number(tasks: Seq<TaskView>) -> nat
    decreases tasks.len(),
{
    if tasks.len() == 0 {
        0
    } else {
        let before = largest_number(tasks.drop_last());
        match task_number(tasks.last()) {
            Some(n) => if n > before {
                n
            } else {
                before
            },
            None => before,
        }
    }
}

/// The largest number of a task.
pub fn last_task_number(tasks: &Vec<Task>) -> (r: u64)
    ensures
        r == largest_number(task_views(tasks@)),
{
    let ghost all = task_views(tasks@);
    let mut max: u64 = 0;
    let mut i: usize = 0;
    assert(all.take(0).len() == 0);
    while i < tasks.len()
        invariant
            i <= tasks@.len(),
            all == task_views(tasks@),
            max == largest_number(all.take(i as int)),
        decreases tasks.len() - i,
    {
        proof {
            assert(all.take(i + 1).drop_last() =~= all.take(i as int));
            assert(all.take(i + 1).last() == all[i as int]);
        }
        if let Some(id) = &tasks[i].id {
            if let Some(n) = parse_snow_number(id.as_str()) {
                if n > max {
                    max = n;
                }
            }
        }
        i = i + 1;
    }
    assert(all.take(i as int) =~= all);
    max
}

/// The number of the next task: one more than the largest.
pub fn next_task_number(tasks: &Vec<Task>) -> (r: u64)
    requires
        largest_number(task_views(tasks@)) < u64::MAX,
    ensures
        r == largest_number(task_views(tasks@)) + 1,
{
    last_task_number(tasks) + 1
}

/// A numbered id has its number.
pub proof fn numbered_id_reads_back(n: nat)
    requires
        n <= u64::MAX,
    ensures
        id_number(numbered_id(n)) == Some(n),
{
    let id = numbered_id(n);
    let p = "SNOW-"@;
    assert(id.subrange(0, p.len() as int) =~= p);
    assert(id.skip(p.len() as int) =~= decimal(n));
    parse_decimal_round_trip(n, u64::MAX as nat);
}

/// The next task gets an id that no task has.
pub proof fn next_id_is_fresh(tasks: Seq<TaskView>, i: int)
    requires
        largest_number(tasks) < u64::MAX,
        0 <= i < tasks.len(),
    ensures
        tasks[i].id != Some(numbered_id(largest_number(tasks) + 1)),
{
    let n = largest_number(tasks) + 1;
    numbered_id_reads_back(n);
    number_is_counted(tasks, i);
}

proof fn number_is_counted(tasks: Seq<TaskView>, i: int)
    requires
        0 <= i < tasks.len(),
    ensures
        task_number(tasks[i]) matches Some(n) ==> n <= largest_number(tasks),
    decreases tasks.len(),
{
    if i < tasks.len() - 1 {
        number_is_counted(tasks.drop_last(), i);
        assert(tasks.drop_last()[i] == tasks[i]);
    }
}

/// A text with its letters raised, as `to_uppercase` gives it.
pub open spec fn raised(t: Seq<char>) -> Seq<char> {
    if is_ascii_chars(t) {
        ascii_upper(t)
    } else {
        uppercase(t)
    }
}

/// The id that a user means: a number, or an id in any letter case, stands for the numbered id;
/// anything else is taken as it is, without blanks around it.
pub open spec fn meant_id(input: Seq<char>) -> Seq<char> {
    let t = trimmed(input);
    match parsed(t, u64::MAX as nat) {
        Some(n) => numbered_id(n),
        None => match id_number(raised(t)) {
            Some(n) => numbered_id(n),
            None => t,
        },
    }
}

/// The id of the task with a number.
pub fn task_id(n: u64) -> (r: String)
    ensures
        r@ == numbered_id(n as nat),
{
    let mut r = String::from_str("SNOW-");
    r.append(u64_text(n).as_str());
    r
}

/// The id that a user means.
pub fn normalize_task_id(input: &str) -> (r: String)
    ensures
        r@ == meant_id(input@),
{
    let t = trim(input);
    if let Some(n) = parse_u64(t.as_str()) {
        return task_id(n);
    }
    if let Some(n) = parse_snow_number(to_uppercase(t.as_str()).as_str()) {
        return task_id(n);
    }
    t
}

proof fn named_id_is_meant(prefix: Seq<char>, n: nat)
    requires
        n <= u64::MAX,
        prefix == "SNOW-"@ || prefix == "snow-"@,
    ensures
        meant_id(prefix + decimal(n)) == numbered_id(n),
{
    reveal_strlit("SNOW-");
    reveal_strlit("snow-");
    let d = decimal(n);
    let id = prefix + d;
    decimal_is_digits(n);
    assert forall|i: int| 0 <= i < d.len() implies is_digit(#[trigger] id[5 + i]) && id[5 + i]
        == d[i] by {
        assert(is_digit(d[i]));
    }
    assert(is_digit(id[5 + (d.len() - 1)]));
    assert(!is_white(id[0]) && !is_white(id.last()));
    trimmed_already(id);
    assert(!is_digit(id[0]) && id[0] != '+');
    assert(without_plus(id) == id);
    assert(!all_digits(id));
    assert forall|i: int| 0 <= i < id.len() implies (#[trigger] id[i]) as u32 <= 127 by {
        if i >= 5 {
            assert(is_digit(id[5 + (i - 5)]));
        }
    }
    assert(is_ascii_chars(id));
    assert(ascii_upper(id) =~= numbered_id(n)) by {
        assert forall|i: int| 0 <= i < id.len() implies ascii_upper(id)[i] == numbered_id(n)[i] by {
            if i >= 5 {
                assert(is_digit(id[5 + (i - 5)]));
            }
        }
    }
    numbered_id_reads_back(n);
}

/// A number, an id in small letters and an id in capitals all mean the numbered id.
pub proof fn every_form_is_meant(n: nat)
    requires
        n <= u64::MAX,
    ensures
        meant_id(decimal(n)) == numbered_id(n),
        meant_id("snow-"@ + decimal(n)) == numbered_id(n),
        meant_id("SNOW-"@ + decimal(n)) == numbered_id(n),
{
    let d = decimal(n);
    decimal_is_digits(n);
    assert(is_digit(d[0]) && is_digit(d[d.len() - 1]));
    trimmed_already(d);
    parse_decimal_round_trip(n, u64::MAX as nat);
    named_id_is_meant("snow-"@, n);
    named_id_is_meant("SNOW-"@, n);
}

/// An id that was made out once means itself.
pub proof fn meant_id_is_idempotent(input: Seq<char>)
    ensures
        meant_id(meant_id(input)) == meant_id(input),
{
    let t = trimmed(input);
    trim_is_idempotent(input);
    match parsed(t, u64::MAX as nat) {
        Some(n) => every_form_is_meant(n),
        None => match id_number(raised(t)) {
            Some(n) => every_form_is_meant(n),
            None => {},
        },
    }
}

/// A task is in the list for a status exactly where it is one of the tasks and has that status; the
/// list for no status holds them all.
pub proof fn listed_by_status(tasks: Seq<TaskView>, status: Option<Seq<char>>, t: TaskView)
    ensures
        with_status(tasks, status).contains(t) <==> tasks.contains(t) && (status is None
            || t.status == status),
        status is None ==> with_status(tasks, status) == tasks,
{
    let keep = |t: TaskView| status is None || t.status == status;
    if with_status(tasks, status).contains(t) {
        tasks.lemma_filter_contains_rev(keep, t);
        let i = choose|i: int|
            0 <= i < with_status(tasks, status).len() && with_status(tasks, status)[i] == t;
        tasks.lemma_filter_pred(keep, i);
    }
    if tasks.contains(t) && (status is None || t.status == status) {
        let i = choose|i: int| 0 <= i < tasks.len() && tasks[i] == t;
        tasks.lemma_filter_contains(keep, i);
    }
    if status is None {
        all_listed(tasks, keep);
    }
}

proof fn all_listed(tasks: Seq<TaskView>, keep: spec_fn(TaskView) -> bool)
    requires
        forall|t: TaskView| #[trigger] keep(t),
    ensures
        tasks.filter(keep) == tasks,
    decreases tasks.len(),
{
    reveal(Seq::filter);
    if tasks.len() > 0 {
        all_listed(tasks.drop_last(), keep);
        assert(keep(tasks.last()));
        assert(tasks.drop_last().push(tasks.last()) =~= tasks);
    }
}

/// Tasks are listed in the order of the file: one more task comes last where it has the status that is
/// asked for, and changes nothing where it has not.
pub proof fn listed_in_order(tasks: Seq<TaskView>, t: TaskView, status: Option<Seq<char>>)
    ensures
        with_status(Seq::empty(), status) == Seq::<TaskView>::empty(),
        status is None || t.status == status ==> with_status(tasks.push(t), status) == with_status(
            tasks,
            status,
        ).push(t),
        status is Some && t.status != status ==> with_status(tasks.push(t), status) == with_status(
            tasks,
            status,
        ),
{
    reveal(Seq::filter);
    assert(tasks.push(t).drop_last() =~= tasks);
}

/// Every task of a list has its line, in order: its status, id, title and last change, each with a
/// question mark where it is missing. The list begins with the number of tasks, and only an empty one
/// gives nothing.
pub proof fn every_listed_task_has_its_line(tasks: Seq<TaskView>, t: TaskView)
    ensures
        list_lines(Seq::empty()) == Seq::<char>::empty(),
        list_lines(tasks.push(t)) == list_lines(tasks) + ("  ["@ + (match t.status {
            Some(s) => s,
            None => "?"@,
        }) + "] "@ + (match t.id {
            Some(s) => s,
            None => "?"@,
        }) + ": "@ + (match t.title {
            Some(s) => s,
            None => "?"@,
        }) + " (updated: "@ + (match t.updated_at {
            Some(s) => s,
            None => "?"@,
        }) + ")\n"@),
        list_text(Seq::empty()) is None,
        list_text(tasks.push(t)) == Some(
            decimal((tasks.len() + 1) as nat) + " task(s):\n"@ + list_lines(tasks.push(t)),
        ),
{
    assert(tasks.push(t).drop_last() =~= tasks);
}

/// The list for the status of an existing task is not empty.
pub proof fn own_status_lists_the_task(tasks: Seq<TaskView>, i: int)
    requires
        0 <= i < tasks.len(),
        tasks[i].status is Some,
    ensures
        list_text(with_status(tasks, tasks[i].status)) is Some,
        with_status(tasks, tasks[i].status).contains(tasks[i]),
{
    listed_by_status(tasks, tasks[i].status, tasks[i]);
}

/// A task is found at the first place that has its id, and nowhere where none has it.
pub proof fn found_at_the_first_place(tasks: Seq<TaskView>, id: Seq<char>, k: int)
    requires
        0 <= k <= tasks.len(),
        forall|j: int| 0 <= j < k ==> (#[trigger] tasks[j]).id != Some(id),
        k < tasks.len() ==> tasks[k].id == Some(id),
    ensures
        task_at(tasks, id) == (if k < tasks.len() {
            Some(k)
        } else {
            None
        }),
    decreases tasks.len(),
{
    if tasks.len() > 0 {
        let rest = tasks.drop_last();
        assert forall|j: int| 0 <= j < k && j < rest.len() implies (#[trigger] rest[j]).id != Some(
            id,
        ) by {
            assert(rest[j] == tasks[j]);
        }
        if k < tasks.len() {
            if k < rest.len() {
                assert(rest[k] == tasks[k]);
                found_at_the_first_place(rest, id, k);
            } else {
                found_at_the_first_place(rest, id, rest.len() as int);
            }
        } else {
            found_at_the_first_place(rest, id, rest.len() as int);
            assert(tasks[tasks.len() - 1].id != Some(id));
        }
    }
}

/// A change of status sets the status and the time, adds one entry at the end of the history with the
/// kind and the detail, and keeps everything else.
pub proof fn moved_task_keeps_the_rest(
    t: TaskView,
    status: Seq<char>,
    kind: u16,
    detail: Seq<char>,
    now: Seq<char>,
)
    ensures
        ({
            let after = task_moved(t, status, kind, detail, now);
            &&& after.id == t.id && after.title == t.title && after.description == t.description
            &&& after.created_at == t.created_at && after.kind == t.kind
            &&& after.status == Some(status) && after.updated_at == Some(now)
            &&& after.history is Some == t.history is Some
            &&& t.history matches Some(h) ==> after.history->0.len() == h.len() + 1
                && after.history->0.take(h.len() as int) == h && after.history->0.last() == (
            StatusView {
                status: Some(status),
                kind,
                detail: Some(detail),
                timestamp: Some(now),
            })
        }),
{
    if let Some(h) = t.history {
        let after = task_moved(t, status, kind, detail, now);
        assert(after.history->0.take(h.len() as int) =~= h);
    }
}

/// The largest number is that of a task, or zero, and no task has a larger one.
pub proof fn largest_number_is_a_bound(tasks: Seq<TaskView>, i: int)
    ensures
        0 <= i < tasks.len() ==> (task_number(tasks[i]) matches Some(n) ==> n <= largest_number(
            tasks,
        )),
        largest_number(tasks) > 0 ==> exists|k: int|
            0 <= k < tasks.len() && task_number(#[trigger] tasks[k]) == Some(largest_number(tasks)),
    decreases tasks.len(),
{
    if 0 <= i < tasks.len() {
        number_is_counted(tasks, i);
    }
    if tasks.len() > 0 {
        let rest = tasks.drop_last();
        largest_number_is_a_bound(rest, 0);
        if largest_number(tasks) > 0 {
            if task_number(tasks.last()) == Some(largest_number(tasks)) {
                assert(tasks[tasks.len() - 1] == tasks.last());
            } else {
                let k = choose|k: int|
                    0 <= k < rest.len() && task_number(#[trigger] rest[k]) == Some(
                        largest_number(rest),
                    );
                assert(tasks[k] == rest[k]);
            }
        }
    }
}

/// Each status has its kind, and nothing else is a status.
pub proof fn kinds_of_statuses(status: Seq<char>)
    ensures
        status_kind(status) == (if status == "queued"@ {
            Some(1630u16)
        } else if status == "done"@ {
            Some(1631u16)
        } else if status == "cancelled"@ {
            Some(1632u16)
        } else if status == "draft"@ {
            Some(1633u16)
        } else if status == "executing"@ {
            Some(1634u16)
        } else if status == "blocked"@ {
            Some(1635u16)
        } else if status == "review"@ {
            Some(1636u16)
        } else if status == "failed"@ {
            Some(1637u16)
        } else {
            None
        }),
{
}

/// A new task holds what was given, was updated when it was made, and its history begins with its
/// first status.
pub proof fn new_tasks_hold_what_was_given(
    id: Seq<char>,
    title: Seq<char>,
    description: Seq<char>,
    status: Seq<char>,
    kind: u16,
    now: Seq<char>,
)
    ensures
        ({
            let t = new_task(id, title, description, status, kind, now);
            &&& t.id == Some(id)
            &&& t.title == Some(title)
            &&& t.description == Some(description)
            &&& t.status == Some(status)
            &&& t.created_at == Some(now)
            &&& t.updated_at == Some(now)
            &&& t.kind == Some(1621u16)
            &&& t.history is Some && t.history->0.len() == 1
            &&& t.history->0[0].status == Some(status)
            &&& t.history->0[0].kind == kind
            &&& t.history->0[0].detail is None
            &&& t.history->0[0].timestamp == Some(now)
        }),
{
}

/// A number, with or without the prefix and in any letter case, means the task with that number; any
/// other text means itself.
pub proof fn numbers_mean_tasks(input: Seq<char>, n: nat)
    requires
        n <= u64::MAX,
    ensures
        trimmed(input) == decimal(n) ==> meant_id(input) == "SNOW-"@ + decimal(n),
        parsed(trimmed(input), u64::MAX as nat) is None && raised(trimmed(input)) == "SNOW-"@ + decimal(
            n,
        ) ==> meant_id(input) == "SNOW-"@ + decimal(n),
        parsed(trimmed(input), u64::MAX as nat) is None && !begins_with(
            raised(trimmed(input)),
            "SNOW-"@,
        ) ==> meant_id(input) == trimmed(input),
{
    parse_decimal_round_trip(n, u64::MAX as nat);
    let id = "SNOW-"@ + decimal(n);
    let k = "SNOW-"@.len() as int;
    assert(id.subrange(0, k) =~= "SNOW-"@);
    assert(id.skip(k) =~= decimal(n));
}

} // verus!
