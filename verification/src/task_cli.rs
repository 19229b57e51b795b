//! The commands that manage tasks.

use crate::tasks::{
    field_or_mark, find_task, kind_of_status, largest_number, list_lines, list_tasks, list_text, make_task,
    meant_id, move_task, new_task, next_id_is_fresh, next_task_number, normalize_task_id,
    numbered_id, numbered_id_reads_back, or_mark, status_kind, status_views, task_at, task_id,
    task_moved, task_views, with_status, StatusEntry, StatusView, Task, TaskView,
    TASK_KIND,
};
use crate::text::number::{decimal, decimal_is_digits, is_digit, parse_decimal_round_trip};
use crate::order::filter_of_all;
use crate::text::pattern::{begins_with, has_substring, parts_are_held};
use crate::text::space::trimmed;
use crate::text::{opt_text, str_eq};
use vstd::prelude::*;

verus! {

/// A command on the tasks.
#[allow(inconsistent_fields)]
#[derive(Debug)]
pub enum TaskCommands {
    /// Makes a task.
    Create { title: String, description: Option<String>, status: String },
    /// Lists the tasks, or those with a status.
    List { status: Option<String> },
    /// Shows a task and its history.
    Status { id: String },
    /// Changes the status of a task.
    Update { id: String, status: String, detail: Option<String> },
}

/// Why a status is refused.
pub open spec fn bad_status(status: Seq<char>) -> Seq<char> {
    "Unknown status: "@ + status
        + ". Valid: draft, queued, executing, blocked, review, done, failed, cancelled"@
}

/// The kind of the event that reports a status, or why there is none.
pub fn status_to_kind(status: &str) -> (r: Result<u16, String>)
    ensures
        match r {
            Ok(k) => status_kind(status@) == Some(k),
            Err(e) => status_kind(status@) is None && e@ == bad_status(status@),
        },
{
    match kind_of_status(status) {
        Some(k) => Ok(k),
        None => {
            let mut e = String::from_str("Unknown status: ");
            e.append(status);
            e.append(". Valid: draft, queued, executing, blocked, review, done, failed, cancelled");
            Err(e)
        },
    }
}

/// A text, or nothing where it is missing.
pub open spec fn or_empty(t: Option<Seq<char>>) -> Seq<char> {
    match t {
        Some(t) => t,
        None => Seq::empty(),
    }
}

fn text_or_empty(t: &Option<String>) -> (r: String)
    ensures
        r@ == or_empty(opt_text(*t)),
{
    match t {
        Some(t) => t.clone(),
        None => String::new(),
    }
}

/// The line of a status in a history.
pub open spec fn history_line(s: StatusView) -> Seq<char> {
    "    "@ + or_mark(s.timestamp) + ": "@ + or_mark(s.status) + (if or_empty(s.detail).len() == 0 {
        "\n"@
    } else {
        " — "@ + or_empty(s.detail) + "\n"@
    })
}

/// The lines of a history.
pub open spec fn history_lines(h: Seq<StatusView>) -> Seq<char>
    decreases h.len(),
{
    if h.len() == 0 {
        Seq::empty()
    } else {
        history_lines(h.drop_last()) + history_line(h.last())
    }
}

/// A task with its history, as it is shown.
pub open spec fn task_text(t: TaskView) -> Seq<char> {
    "Task: "@ + or_mark(t.id) + "\n  Title:   "@ + or_mark(t.title) + "\n  Status:  "@ + or_mark(
        t.status,
    ) + "\n"@ + (if or_empty(t.description).len() > 0 {
        "  Desc:    "@ + or_empty(t.description) + "\n"@
    } else {
        Seq::empty()
    }) + "  Created: "@ + or_mark(t.created_at) + "\n  Updated: "@ + or_mark(t.updated_at) + "\n"@
        + (match t.history {
        Some(h) => if h.len() > 0 {
            "  History:\n"@ + history_lines(h)
        } else {
            Seq::empty()
        },
        None => Seq::empty(),
    })
}

fn push_history(out: &mut String, history: &Vec<StatusEntry>)
    ensures
        final(out)@ == old(out)@ + history_lines(status_views(history@)),
{
    let ghost start = out@;
    let ghost all = status_views(history@);
    let mut i: usize = 0;
    assert(all.take(0).len() == 0);
    assert(out@ =~= start + history_lines(all.take(0)));
    while i < history.len()
        invariant
            i <= history@.len(),
            all == status_views(history@),
            out@ == start + history_lines(all.take(i as int)),
        decreases history.len() - i,
    {
        let ghost before = out@;
        let entry = &history[i];
        out.append("    ");
        out.append(field_or_mark(&entry.timestamp).as_str());
        out.append(": ");
        out.append(field_or_mark(&entry.status).as_str());
        let detail = text_or_empty(&entry.detail);
        proof {
            reveal_strlit("");
            assert(detail@.len() == 0 ==> detail@ =~= ""@);
        }
        if !str_eq(detail.as_str(), "") {
            out.append(" — ");
            out.append(detail.as_str());
        }
        out.append("\n");
        proof {
            assert(all.take(i + 1).drop_last() =~= all.take(i as int));
            assert(all.take(i + 1).last() == all[i as int]);
            assert(out@ =~= before + history_line(all[i as int]));
            assert(out@ =~= start + history_lines(all.take(i + 1)));
        }
        i = i + 1;
    }
    assert(all.take(i as int) =~= all);
}

/// A task with its history, as it is shown.
pub fn show_task(task: &Task) -> (r: String)
    ensures
        r@ == task_text(task@),
{
    let mut out = String::from_str("Task: ");
    out.append(field_or_mark(&task.id).as_str());
    out.append("\n  Title:   ");
    out.append(field_or_mark(&task.title).as_str());
    out.append("\n  Status:  ");
    out.append(field_or_mark(&task.status).as_str());
    out.append("\n");
    let desc = text_or_empty(&task.description);
    let ghost head = out@;
    proof {
        reveal_strlit("");
        assert(desc@.len() == 0 ==> desc@ =~= ""@);
    }
    if !str_eq(desc.as_str(), "") {
        out.append("  Desc:    ");
        out.append(desc.as_str());
        out.append("\n");
        assert(out@ =~= head + ("  Desc:    "@ + desc@ + "\n"@));
    } else {
        assert(out@ =~= head + Seq::<char>::empty());
    }
    out.append("  Created: ");
    out.append(field_or_mark(&task.created_at).as_str());
    out.append("\n  Updated: ");
    out.append(field_or_mark(&task.updated_at).as_str());
    out.append("\n");
    let ghost body = out@;
    if let Some(h) = &task.status_history {
        assert(status_views(h@).len() == h@.len());
        if h.len() > 0 {
            out.append("  History:\n");
            push_history(&mut out, h);
            assert(out@ =~= body + ("  History:\n"@ + history_lines(status_views(h@))));
        } else {
            assert(out@ =~= body + Seq::<char>::empty());
        }
    } else {
        assert(out@ =~= body + Seq::<char>::empty());
    }
    out
}

/// The tasks after a command.
pub open spec fn tasks_after(tasks: Seq<TaskView>, cmd: TaskCommands, now: Seq<char>) -> Seq<
    TaskView,
> {
    match cmd {
        TaskCommands::Create { title, description, status } => match status_kind(status@) {
            Some(kind) => tasks.push(
                new_task(
                    numbered_id(largest_number(tasks) + 1),
                    title@,
                    or_empty(opt_text(description)),
                    status@,
                    kind,
                    now,
                ),
            ),
            None => tasks,
        },
        TaskCommands::Update { id, status, detail } => match (
            status_kind(status@),
            task_at(tasks, meant_id(id@)),
        ) {
            (Some(kind), Some(i)) => tasks.update(
                i,
                task_moved(tasks[i], status@, kind, or_empty(opt_text(detail)), now),
            ),
            _ => tasks,
        },
        TaskCommands::List { status } => tasks,
        TaskCommands::Status { id } => tasks,
    }
}

/// What a command prints, or why it fails.
pub open spec fn printed(tasks: Seq<TaskView>, cmd: TaskCommands) -> Result<Seq<char>, Seq<char>> {
    match cmd {
        TaskCommands::Create { title, description, status } => if status_kind(status@) is Some {
            Ok("Created "@ + numbered_id(largest_number(tasks) + 1) + ": "@ + title@ + "\n"@)
        } else {
            Err(bad_status(status@))
        },
        TaskCommands::List { status } => match list_text(with_status(tasks, opt_text(status))) {
            Some(text) => Ok(text),
            None => Ok("No tasks found.\n"@),
        },
        TaskCommands::Status { id } => match task_at(tasks, meant_id(id@)) {
            Some(i) => Ok(task_text(tasks[i])),
            None => Ok("Task not found: "@ + meant_id(id@) + "\n"@),
        },
        TaskCommands::Update { id, status, detail } => if status_kind(status@) is None {
            Err(bad_status(status@))
        } else if task_at(tasks, meant_id(id@)) is None {
            Err("Task not found: "@ + meant_id(id@))
        } else {
            Ok("Updated "@ + meant_id(id@) + " to "@ + status@ + "\n"@)
        },
    }
}

fn create(
    tasks: &mut Vec<Task>,
    title: &str,
    description: &Option<String>,
    status: &str,
    kind: u16,
    now: &str,
) -> (r: String)
    requires
        largest_number(task_views(old(tasks)@)) < u64::MAX,
    ensures
        ({
            let id = numbered_id(largest_number(task_views(old(tasks)@)) + 1);
            &&& task_views(final(tasks)@) == task_views(old(tasks)@).push(
                new_task(id, title@, or_empty(opt_text(*description)), status@, kind, now@),
            )
            &&& r@ == "Created "@ + id + ": "@ + title@ + "\n"@
        }),
{
    let id = task_id(next_task_number(tasks));
    let desc = text_or_empty(description);
    let task = make_task(id.as_str(), title, desc.as_str(), status, kind, now);
    let ghost before = tasks@;
    tasks.push(task);
    assert(task_views(tasks@) =~= task_views(before).push(task@));
    let mut out = String::from_str("Created ");
    out.append(id.as_str());
    out.append(": ");
    out.append(title);
    out.append("\n");
    out
}

fn not_found(id: &str) -> (r: String)
    ensures
        r@ == "Task not found: "@ + id@,
{
    let mut r = String::from_str("Task not found: ");
    r.append(id);
    r
}

/// Runs a command on the tasks. Gives what it prints, or why it fails.
pub fn handle_command(cmd: &TaskCommands, tasks: &mut Vec<Task>, now: &str) -> (r: Result<
    String,
    String,
>)
    requires
        cmd is Create ==> largest_number(task_views(old(tasks)@)) < u64::MAX,
    ensures
        task_views(final(tasks)@) == tasks_after(task_views(old(tasks)@), *cmd, now@),
        match r {
            Ok(text) => printed(task_views(old(tasks)@), *cmd) == Ok::<Seq<char>, Seq<char>>(text@),
            Err(e) => printed(task_views(old(tasks)@), *cmd) == Err::<Seq<char>, Seq<char>>(e@),
        },
{
    match cmd {
        TaskCommands::Create { title, description, status } => {
            match status_to_kind(status.as_str()) {
                Ok(kind) => Ok(
                    create(tasks, title.as_str(), description, status.as_str(), kind, now),
                ),
                Err(e) => Err(e),
            }
        },
        TaskCommands::List { status } => {
            let listed = match status {
                Some(s) => list_tasks(tasks, Some(s.as_str())),
                None => list_tasks(tasks, None),
            };
            match listed {
                Some(text) => Ok(text),
                None => Ok("No tasks found.\n".to_owned()),
            }
        },
        TaskCommands::Status { id } => {
            let wanted = normalize_task_id(id.as_str());
            match find_task(tasks, wanted.as_str()) {
                Some(i) => Ok(show_task(&tasks[i])),
                None => {
                    let mut out = not_found(wanted.as_str());
                    out.append("\n");
                    Ok(out)
                },
            }
        },
        TaskCommands::Update { id, status, detail } => {
            let kind = match status_to_kind(status.as_str()) {
                Ok(kind) => kind,
                Err(e) => return Err(e),
            };
            let wanted = normalize_task_id(id.as_str());
            match find_task(tasks, wanted.as_str()) {
                Some(i) => {
                    let detail = text_or_empty(detail);
                    move_task(tasks, i, status.as_str(), kind, detail.as_str(), now);
                    let mut out = String::from_str("Updated ");
                    out.append(wanted.as_str());
                    out.append(" to ");
                    out.append(status.as_str());
                    out.append("\n");
                    Ok(out)
                },
                None => Err(not_found(wanted.as_str())),
            }
        },
    }
}

proof fn place_goes_by_ids(a: Seq<TaskView>, b: Seq<TaskView>, id: Seq<char>)
    requires
        a.len() == b.len(),
        forall|i: int| 0 <= i < a.len() ==> (#[trigger] a[i]).id == b[i].id,
    ensures
        task_at(a, id) == task_at(b, id),
    decreases a.len(),
{
    if a.len() > 0 {
        assert forall|i: int| 0 <= i < a.drop_last().len() implies (#[trigger] a.drop_last()[i]).id
            == b.drop_last()[i].id by {
            assert(a[i].id == b[i].id);
        }
        place_goes_by_ids(a.drop_last(), b.drop_last(), id);
        assert(a[a.len() - 1].id == b[b.len() - 1].id);
    }
}

proof fn absent(tasks: Seq<TaskView>, id: Seq<char>)
    requires
        forall|i: int| 0 <= i < tasks.len() ==> (#[trigger] tasks[i]).id != Some(id),
    ensures
        task_at(tasks, id) is None,
    decreases tasks.len(),
{
    if tasks.len() > 0 {
        assert forall|i: int| 0 <= i < tasks.drop_last().len() implies (
        #[trigger] tasks.drop_last()[i]).id != Some(id) by {
            assert(tasks[i].id != Some(id));
        }
        absent(tasks.drop_last(), id);
        assert(tasks[tasks.len() - 1].id != Some(id));
    }
}

proof fn place_in_range(tasks: Seq<TaskView>, id: Seq<char>)
    ensures
        task_at(tasks, id) matches Some(i) ==> 0 <= i < tasks.len() && tasks[i].id == Some(id),
    decreases tasks.len(),
{
    if tasks.len() > 0 {
        place_in_range(tasks.drop_last(), id);
    }
}

/// A task that was created is found by its number.
pub proof fn created_task_is_found(
    tasks: Seq<TaskView>,
    title: String,
    description: Option<String>,
    status: String,
    now: Seq<char>,
)
    requires
        status_kind(status@) is Some,
        largest_number(tasks) < u64::MAX,
    ensures
        ({
            let after = tasks_after(
                tasks,
                (TaskCommands::Create { title, description, status }),
                now,
            );
            &&& task_at(after, meant_id(decimal(largest_number(tasks) + 1))) == Some(
                tasks.len() as int,
            )
            &&& after.last().title == Some(title@)
            &&& after.last().status == Some(status@)
            &&& after.last().kind == Some(TASK_KIND)
        }),
{
    let n = largest_number(tasks) + 1;
    let after = tasks_after(tasks, TaskCommands::Create { title, description, status }, now);
    decimal_is_digits(n);
    let d = decimal(n);
    assert(is_digit(d[0]) && is_digit(d[d.len() - 1]));
    assert(trimmed(d) == d);
    parse_decimal_round_trip(n, u64::MAX as nat);
    assert forall|i: int| 0 <= i < tasks.len() implies (#[trigger] tasks[i]).id != Some(
        numbered_id(n),
    ) by {
        next_id_is_fresh(tasks, i);
    }
    absent(tasks, numbered_id(n));
    assert(after.drop_last() =~= tasks);
}

/// An update that does not fail is seen: the task is found where it was, with the new status.
pub proof fn updated_task_has_status(
    tasks: Seq<TaskView>,
    id: String,
    status: String,
    detail: Option<String>,
    now: Seq<char>,
)
    requires
        printed(tasks, (TaskCommands::Update { id, status, detail })) is Ok,
    ensures
        ({
            let after = tasks_after(tasks, (TaskCommands::Update { id, status, detail }), now);
            let i = task_at(tasks, meant_id(id@));
            &&& i is Some
            &&& task_at(after, meant_id(id@)) == i
            &&& after[i->0].status == Some(status@)
            &&& after[i->0].updated_at == Some(now)
            &&& after[i->0].kind == tasks[i->0].kind
        }),
{
    let after = tasks_after(tasks, TaskCommands::Update { id, status, detail }, now);
    place_in_range(tasks, meant_id(id@));
    place_goes_by_ids(tasks, after, meant_id(id@));
}

/// A command that fails changes no task.
pub proof fn failed_command_changes_nothing(
    tasks: Seq<TaskView>,
    cmd: TaskCommands,
    now: Seq<char>,
)
    requires
        printed(tasks, cmd) is Err,
    ensures
        tasks_after(tasks, cmd, now) == tasks,
{
}

/// The tasks after commands were run in turn, each at its time.
pub open spec fn tasks_after_all(
    tasks: Seq<TaskView>,
    cmds: Seq<TaskCommands>,
    times: Seq<Seq<char>>,
) -> Seq<TaskView>
    decreases cmds.len(),
{
    if cmds.len() == 0 {
        tasks
    } else {
        tasks_after(
            tasks_after_all(tasks, cmds.drop_last(), times),
            cmds.last(),
            times[cmds.len() - 1],
        )
    }
}

/// Whether a command makes a task and does not fail.
pub open spec fn makes_task(cmd: TaskCommands) -> bool {
    cmd matches TaskCommands::Create { title, description, status } && status_kind(status@) is Some
}

/// The task that a command makes under a number.
pub open spec fn made_task(cmd: TaskCommands, n: nat, now: Seq<char>) -> TaskView
    recommends
        makes_task(cmd),
{
    new_task(
        numbered_id(n),
        cmd->Create_title@,
        or_empty(opt_text(cmd->Create_description)),
        cmd->Create_status@,
        status_kind(cmd->Create_status@)->0,
        now,
    )
}

/// Tasks that are made in turn, from none, are numbered from one in the order in which they are
/// made; each is as its command says.
pub proof fn tasks_are_numbered_in_turn(cmds: Seq<TaskCommands>, times: Seq<Seq<char>>)
    requires
        cmds.len() <= u64::MAX,
        forall|i: int| 0 <= i < cmds.len() ==> makes_task(#[trigger] cmds[i]),
    ensures
        tasks_after_all(Seq::empty(), cmds, times) == Seq::new(
            cmds.len(),
            |i: int| made_task(cmds[i], (i + 1) as nat, times[i]),
        ),
        largest_number(tasks_after_all(Seq::empty(), cmds, times)) == cmds.len(),
    decreases cmds.len(),
{
    let all = tasks_after_all(Seq::empty(), cmds, times);
    if cmds.len() > 0 {
        let earlier = cmds.drop_last();
        assert forall|i: int| 0 <= i < earlier.len() implies makes_task(#[trigger] earlier[i]) by {
            assert(earlier[i] == cmds[i]);
        }
        tasks_are_numbered_in_turn(earlier, times);
        let before = tasks_after_all(Seq::empty(), earlier, times);
        let n = cmds.len();
        assert(makes_task(cmds[n - 1]));
        assert(all == before.push(made_task(cmds.last(), n, times[n - 1])));
        assert(all =~= Seq::new(
            cmds.len(),
            |i: int| made_task(cmds[i], (i + 1) as nat, times[i]),
        ));
        assert(all.drop_last() =~= before);
        numbered_id_reads_back(n);
    }
}

/// A task that is made when k tasks were made before it, from none, comes last under the number k + 1:
/// with the title, description and status as given, the kind of a task, one time for its making and
/// its last change, and a history of that one status.
pub proof fn next_task_is_numbered_next(
    cmds: Seq<TaskCommands>,
    times: Seq<Seq<char>>,
    title: String,
    description: Option<String>,
    status: String,
    now: Seq<char>,
)
    requires
        cmds.len() < u64::MAX,
        forall|i: int| 0 <= i < cmds.len() ==> makes_task(#[trigger] cmds[i]),
        status_kind(status@) is Some,
    ensures
        ({
            let before = tasks_after_all(Seq::empty(), cmds, times);
            let cmd = TaskCommands::Create { title, description, status };
            let task = TaskView {
                id: Some("SNOW-"@ + decimal(cmds.len() + 1)),
                title: Some(title@),
                description: Some(
                    match description {
                        Some(d) => d@,
                        None => Seq::empty(),
                    },
                ),
                status: Some(status@),
                created_at: Some(now),
                updated_at: Some(now),
                kind: Some(1621),
                history: Some(
                    seq![
                        StatusView {
                            status: Some(status@),
                            kind: status_kind(status@)->0,
                            detail: None,
                            timestamp: Some(now),
                        },
                    ],
                ),
            };
            &&& before.len() == cmds.len()
            &&& printed(before, cmd) is Ok
            &&& tasks_after(before, cmd, now) == before.push(task)
        }),
{
    tasks_are_numbered_in_turn(cmds, times);
}

/// A task is shown with its number, its title, its status and its times, its description where it has
/// one, and its history.
#[verifier::rlimit(40)]
pub proof fn tasks_are_shown(t: TaskView)
    ensures
        begins_with(task_text(t), "Task: "@ + or_mark(t.id) + "\n"@),
        has_substring(task_text(t), "  Title:   "@ + or_mark(t.title) + "\n"@),
        has_substring(task_text(t), "  Status:  "@ + or_mark(t.status) + "\n"@),
        has_substring(task_text(t), "  Created: "@ + or_mark(t.created_at) + "\n"@),
        has_substring(task_text(t), "  Updated: "@ + or_mark(t.updated_at) + "\n"@),
        t.description matches Some(d) ==> d.len() > 0 ==> has_substring(
            task_text(t),
            "  Desc:    "@ + d + "\n"@,
        ),
        t.history matches Some(h) ==> h.len() > 0 ==> has_substring(
            task_text(t),
            "  History:\n"@ + history_lines(h),
        ),
{
    reveal_strlit("\n");
    reveal_strlit("  Title:   ");
    reveal_strlit("\n  Title:   ");
    reveal_strlit("  Status:  ");
    reveal_strlit("\n  Status:  ");
    reveal_strlit("  Updated: ");
    reveal_strlit("\n  Updated: ");
    assert("\n  Title:   "@ =~= "\n"@ + "  Title:   "@);
    assert("\n  Status:  "@ =~= "\n"@ + "  Status:  "@);
    assert("\n  Updated: "@ =~= "\n"@ + "  Updated: "@);
    let a = "Task: "@ + or_mark(t.id) + "\n"@;
    let b = "  Title:   "@ + or_mark(t.title) + "\n"@;
    let c = "  Status:  "@ + or_mark(t.status) + "\n"@;
    let d = if or_empty(t.description).len() > 0 {
        "  Desc:    "@ + or_empty(t.description) + "\n"@
    } else {
        Seq::empty()
    };
    let e = "  Created: "@ + or_mark(t.created_at) + "\n"@;
    let f = "  Updated: "@ + or_mark(t.updated_at) + "\n"@;
    let g = match t.history {
        Some(h) => if h.len() > 0 {
            "  History:\n"@ + history_lines(h)
        } else {
            Seq::empty()
        },
        None => Seq::empty(),
    };
    let x = task_text(t);
    assert(x =~= a + b + c + d + e + f + g);
    seven_parts_are_held(a, b, c, d, e, f, g);
}

proof fn seven_parts_are_held(
    a: Seq<char>,
    b: Seq<char>,
    c: Seq<char>,
    d: Seq<char>,
    e: Seq<char>,
    f: Seq<char>,
    g: Seq<char>,
)
    ensures
        ({
            let x = a + b + c + d + e + f + g;
            &&& begins_with(x, a)
            &&& has_substring(x, b) && has_substring(x, c) && has_substring(x, d)
            &&& has_substring(x, e) && has_substring(x, f) && has_substring(x, g)
        }),
{
    let x = a + b + c + d + e + f + g;
    assert(x.subrange(0, a.len() as int) =~= a);
    assert(x =~= a + b + (c + d + e + f + g));
    parts_are_held(a, b, c + d + e + f + g);
    assert(x =~= (a + b) + c + (d + e + f + g));
    parts_are_held(a + b, c, d + e + f + g);
    assert(x =~= (a + b + c) + d + (e + f + g));
    parts_are_held(a + b + c, d, e + f + g);
    assert(x =~= (a + b + c + d) + e + (f + g));
    parts_are_held(a + b + c + d, e, f + g);
    assert(x =~= (a + b + c + d + e) + f + g);
    parts_are_held(a + b + c + d + e, f, g);
    assert(x =~= (a + b + c + d + e + f) + g + Seq::<char>::empty());
    parts_are_held(a + b + c + d + e + f, g, Seq::<char>::empty());
}

/// Every change of a task has its line in its history, in order, with the time, the status and, where
/// there is any, the detail.
pub proof fn every_change_has_its_line(h: Seq<StatusView>, s: StatusView)
    ensures
        history_lines(Seq::empty()).len() == 0,
        s.detail is None || s.detail->0.len() == 0 ==> history_lines(h.push(s)) == history_lines(h) + (
        "    "@ + or_mark(s.timestamp) + ": "@ + or_mark(s.status) + "\n"@),
        s.detail matches Some(d) ==> d.len() > 0 ==> history_lines(h.push(s)) == history_lines(h) + (
        "    "@ + or_mark(s.timestamp) + ": "@ + or_mark(s.status) + (" — "@ + d + "\n"@)),
{
    assert(h.push(s).drop_last() =~= h);
}

/// What a command prints: the task that was made, the tasks with a status, the task that is asked for,
/// or the task that was moved; and what was wrong where it was refused.
pub proof fn commands_are_answered(
    tasks: Seq<TaskView>,
    title: String,
    description: Option<String>,
    status: String,
    id: String,
)
    ensures
        status_kind(status@) is Some ==> printed(
            tasks,
            TaskCommands::Create { title, description, status },
        ) == Ok::<Seq<char>, Seq<char>>(
            "Created "@ + ("SNOW-"@ + decimal(largest_number(tasks) + 1)) + ": "@ + title@ + "\n"@,
        ),
        status_kind(status@) is None ==> printed(
            tasks,
            TaskCommands::Create { title, description, status },
        ) == Err::<Seq<char>, Seq<char>>(bad_status(status@)),
        status_kind(status@) is None ==> printed(
            tasks,
            TaskCommands::Update { id, status, detail: description },
        ) == Err::<Seq<char>, Seq<char>>(bad_status(status@)),
        status_kind(status@) is Some ==> (printed(
            tasks,
            TaskCommands::Update { id, status, detail: description },
        ) is Ok <==> task_at(tasks, meant_id(id@)) is Some),
        task_at(tasks, meant_id(id@)) matches Some(i) ==> printed(tasks, TaskCommands::Status { id })
            == Ok::<Seq<char>, Seq<char>>(task_text(tasks[i])),
        task_at(tasks, meant_id(id@)) is None ==> printed(tasks, TaskCommands::Status { id }) == Ok::<
            Seq<char>,
            Seq<char>,
        >("Task not found: "@ + meant_id(id@) + "\n"@),
        tasks.len() > 0 ==> printed(tasks, TaskCommands::List { status: None }) == Ok::<
            Seq<char>,
            Seq<char>,
        >(decimal(tasks.len()) + " task(s):\n"@ + list_lines(tasks)),
        begins_with(bad_status(status@), "Unknown status: "@ + status@),
{
    let none = None::<Seq<char>>;
    let keep = |t: TaskView| none is None || t.status == none;
    filter_of_all(tasks, keep);
    assert(with_status(tasks, none) == tasks.filter(keep));
    let b = "Unknown status: "@ + status@;
    assert(bad_status(status@).subrange(0, b.len() as int) =~= b);
}

/// A task that is created gets the number after the largest, its words and its status, behind the
/// other tasks, which stay; one that is moved stays in its place, and so do the others.
pub proof fn commands_change_one_task(
    tasks: Seq<TaskView>,
    title: String,
    description: Option<String>,
    status: String,
    id: String,
    now: Seq<char>,
    j: int,
)
    requires
        status_kind(status@) is Some,
        0 <= j < tasks.len(),
    ensures
        ({
            let after = tasks_after(tasks, TaskCommands::Create { title, description, status }, now);
            &&& after.drop_last() == tasks
            &&& after.last().id == Some("SNOW-"@ + decimal(largest_number(tasks) + 1))
            &&& after.last().title == Some(title@)
            &&& description matches Some(d) ==> after.last().description == Some(d@)
            &&& after.last().status == Some(status@)
            &&& after.last().created_at == Some(now)
        }),
        ({
            let after = tasks_after(
                tasks,
                TaskCommands::Update { id, status, detail: description },
                now,
            );
            &&& after.len() == tasks.len()
            &&& task_at(tasks, meant_id(id@)) != Some(j) ==> after[j] == tasks[j]
            &&& task_at(tasks, meant_id(id@)) == Some(j) ==> after[j].status == Some(status@)
                && after[j].title == tasks[j].title && after[j].id == tasks[j].id
                && after[j].description == tasks[j].description
        }),
{
    let after = tasks_after(tasks, TaskCommands::Create { title, description, status }, now);
    assert(after.drop_last() =~= tasks);
    place_in_range(tasks, meant_id(id@));
}

} // verus!
