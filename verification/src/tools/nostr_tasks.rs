//! The tool that manages tasks.

use super::traits::{done, failed, ResultView, ToolResult};
use crate::tasks::{
    find_task, kind_of_status, list_lines, list_tasks, list_text, make_task, move_task, new_task, status_kind,
    task_at, task_moved, task_views, with_status, Task, TaskView,
};
use crate::order::filter_of_all;
use crate::text::number::{decimal, decimal_int, i64_text};
use crate::text::pattern::{has_substring, parts_are_held};
use crate::text::{opt_text, str_eq};
use vstd::prelude::*;

verus! {

/// What the agent asks of the tool.
#[derive(Debug)]
pub struct TaskArgs {
    pub action: Option<String>,
    pub title: Option<String>,
    pub description: Option<String>,
    pub task_id: Option<String>,
    pub status: Option<String>,
    pub detail: Option<String>,
    pub filter_status: Option<String>,
}

/// A text, or another where it is missing.
pub open spec fn or_else(t: Option<Seq<char>>, other: Seq<char>) -> Seq<char> {
    match t {
        Some(t) => t,
        None => other,
    }
}

fn text_or(t: &Option<String>, other: &str) -> (r: String)
    ensures
        r@ == or_else(opt_text(*t), other@),
{
    match t {
        Some(t) => t.clone(),
        None => other.to_owned(),
    }
}

/// The id of a task made at a time.
pub open spec fn timed_id(millis: i64) -> Seq<char> {
    "task-"@ + decimal_int(millis as int)
}

/// The tasks after the tool did what it was asked.
pub open spec fn tasks_after(
    tasks: Seq<TaskView>,
    args: TaskArgs,
    now: Seq<char>,
    millis: i64,
) -> Seq<TaskView> {
    let action = or_else(opt_text(args.action), Seq::empty());
    if action == "create"@ {
        tasks.push(
            new_task(
                timed_id(millis),
                or_else(opt_text(args.title), "Untitled task"@),
                or_else(opt_text(args.description), Seq::empty()),
                "draft"@,
                1633,
                now,
            ),
        )
    } else if action == "update"@ && args.task_id is Some && args.status is Some && status_kind(
        args.status->0@,
    ) is Some {
        match task_at(tasks, args.task_id->0@) {
            Some(i) => tasks.update(
                i,
                task_moved(
                    tasks[i],
                    args.status->0@,
                    status_kind(args.status->0@)->0,
                    or_else(opt_text(args.detail), Seq::empty()),
                    now,
                ),
            ),
            None => tasks,
        }
    } else {
        tasks
    }
}

/// What the tool answers.
pub open spec fn answer(tasks: Seq<TaskView>, args: TaskArgs, millis: i64) -> ResultView {
    let action = or_else(opt_text(args.action), Seq::empty());
    if action == "create"@ {
        done(
            "Created task "@ + timed_id(millis) + ": "@ + or_else(
                opt_text(args.title),
                "Untitled task"@,
            ),
        )
    } else if action == "update"@ {
        if args.task_id is None {
            failed("task_id is required for update"@)
        } else if args.status is None {
            failed("status is required for update"@)
        } else if status_kind(args.status->0@) is None {
            failed("Unknown status: "@ + args.status->0@)
        } else if task_at(tasks, args.task_id->0@) is None {
            failed("Task not found: "@ + args.task_id->0@)
        } else {
            done("Updated task "@ + args.task_id->0@ + " to "@ + args.status->0@)
        }
    } else if action == "list"@ {
        done(
            or_else(list_text(with_status(tasks, opt_text(args.filter_status))), "No tasks found."@),
        )
    } else {
        failed("Unknown action: "@ + action + ". Use create, update, or list."@)
    }
}

/// The tool that manages tasks.
pub struct NostrTaskTool {
    pub tasks: Vec<Task>,
}

impl NostrTaskTool {
    /// The tool on tasks that were read.
    pub fn new(tasks: Vec<Task>) -> (r: Self)
        ensures
            r.tasks == tasks,
    {
        NostrTaskTool { tasks }
    }

    /// Name of the tool.
    pub fn name(&self) -> (r: &'static str)
        ensures
            r@ == "nostr_task"@,
    {
        "nostr_task"
    }

    /// What the tool is for.
    pub fn description(&self) -> (r: &'static str)
        ensures
            r@
                == "Manage Nostr-native tasks. Actions: create (new task), update (change status), list (show tasks). Task statuses: draft, queued, executing, blocked, review, done, failed, cancelled."@,
    {
        "Manage Nostr-native tasks. Actions: create (new task), update (change status), list (show tasks). Task statuses: draft, queued, executing, blocked, review, done, failed, cancelled."
    }

    fn create(&mut self, args: &TaskArgs, now: &str, millis: i64) -> (r: ToolResult)
        requires
            or_else(opt_text(args.action), Seq::empty()) == "create"@,
        ensures
            task_views(final(self).tasks@) == tasks_after(
                task_views(old(self).tasks@),
                *args,
                now@,
                millis,
            ),
            r@ == answer(task_views(old(self).tasks@), *args, millis),
    {
        proof {
            reveal_strlit("");
            assert(""@ =~= Seq::<char>::empty());
        }
        let title = text_or(&args.title, "Untitled task");
        let description = text_or(&args.description, "");
        let mut id = String::from_str("task-");
        id.append(i64_text(millis).as_str());
        let task = make_task(
            id.as_str(),
            title.as_str(),
            description.as_str(),
            "draft",
            1633,
            now,
        );
        let ghost before = self.tasks@;
        self.tasks.push(task);
        assert(task_views(self.tasks@) =~= task_views(before).push(task@));
        let mut output = String::from_str("Created task ");
        output.append(id.as_str());
        output.append(": ");
        output.append(title.as_str());
        ToolResult::done(output)
    }

    fn update(&mut self, args: &TaskArgs, now: &str, millis: i64) -> (r: ToolResult)
        requires
            or_else(opt_text(args.action), Seq::empty()) == "update"@,
        ensures
            task_views(final(self).tasks@) == tasks_after(
                task_views(old(self).tasks@),
                *args,
                now@,
                millis,
            ),
            r@ == answer(task_views(old(self).tasks@), *args, millis),
    {
        proof {
            reveal_strlit("");
            reveal_strlit("create");
            reveal_strlit("update");
            assert(""@ =~= Seq::<char>::empty());
            assert("create"@[0] != "update"@[0]);
        }
        let task_id = match &args.task_id {
            Some(id) => id,
            None => return ToolResult::failed("task_id is required for update".to_owned()),
        };
        let status = match &args.status {
            Some(s) => s,
            None => return ToolResult::failed("status is required for update".to_owned()),
        };
        let detail = text_or(&args.detail, "");
        let kind = match kind_of_status(status.as_str()) {
            Some(k) => k,
            None => {
                let mut e = String::from_str("Unknown status: ");
                e.append(status.as_str());
                return ToolResult::failed(e);
            },
        };
        match find_task(&self.tasks, task_id.as_str()) {
            Some(i) => {
                move_task(&mut self.tasks, i, status.as_str(), kind, detail.as_str(), now);
                let mut output = String::from_str("Updated task ");
                output.append(task_id.as_str());
                output.append(" to ");
                output.append(status.as_str());
                ToolResult::done(output)
            },
            None => {
                let mut e = String::from_str("Task not found: ");
                e.append(task_id.as_str());
                ToolResult::failed(e)
            },
        }
    }

    /// Does what the agent asks: makes a task, changes the status of one, or lists them.
    pub fn execute(&mut self, args: &TaskArgs, now: &str, now_millis: i64) -> (r: ToolResult)
        ensures
            task_views(final(self).tasks@) == tasks_after(
                task_views(old(self).tasks@),
                *args,
                now@,
                now_millis,
            ),
            r@ == answer(task_views(old(self).tasks@), *args, now_millis),
    {
        proof {
            reveal_strlit("");
            reveal_strlit("create");
            reveal_strlit("update");
            reveal_strlit("list");
            assert(""@ =~= Seq::<char>::empty());
            assert("create"@[0] != "update"@[0] && "list"@[0] != "create"@[0] && "list"@[0]
                != "update"@[0]);
        }
        let action = text_or(&args.action, "");
        if str_eq(action.as_str(), "create") {
            self.create(args, now, now_millis)
        } else if str_eq(action.as_str(), "update") {
            self.update(args, now, now_millis)
        } else if str_eq(action.as_str(), "list") {
            let listed = match &args.filter_status {
                Some(s) => list_tasks(&self.tasks, Some(s.as_str())),
                None => list_tasks(&self.tasks, None),
            };
            ToolResult::done(text_or(&listed, "No tasks found."))
        } else {
            let mut e = String::from_str("Unknown action: ");
            e.append(action.as_str());
            e.append(". Use create, update, or list.");
            ToolResult::failed(e)
        }
    }
}

/// A listing, a refused request and an unknown action change no task.
pub proof fn other_actions_change_nothing(
    tasks: Seq<TaskView>,
    args: TaskArgs,
    now: Seq<char>,
    millis: i64,
)
    requires
        or_else(opt_text(args.action), Seq::empty()) != "create"@,
        or_else(opt_text(args.action), Seq::empty()) != "update"@ || !answer(
            tasks,
            args,
            millis,
        ).success,
    ensures
        tasks_after(tasks, args, now, millis) == tasks,
{
}

/// Whether the tool is asked for an action.
pub open spec fn asked_for(args: TaskArgs, action: Seq<char>) -> bool {
    args.action is Some && args.action->0@ == action
}

/// A task that is created comes last, as a draft, with what was given or a word in its place; the
/// other tasks stay.
pub proof fn created_tasks_come_last(
    tasks: Seq<TaskView>,
    args: TaskArgs,
    now: Seq<char>,
    millis: i64,
)
    requires
        asked_for(args, "create"@),
    ensures
        ({
            let after = tasks_after(tasks, args, now, millis);
            let t = after.last();
            &&& after.len() == tasks.len() + 1
            &&& after.drop_last() == tasks
            &&& t.id == Some("task-"@ + decimal_int(millis as int))
            &&& t.title == Some(
                match args.title {
                    Some(s) => s@,
                    None => "Untitled task"@,
                },
            )
            &&& args.description matches Some(d) ==> t.description == Some(d@)
            &&& t.status == Some("draft"@)
            &&& t.created_at == Some(now)
            &&& t.history is Some && t.history->0.len() == 1 && t.history->0[0].kind == 1633
            &&& answer(tasks, args, millis).success
            &&& has_substring(
                answer(tasks, args, millis).output,
                "task-"@ + decimal_int(millis as int),
            )
        }),
{
    let after = tasks_after(tasks, args, now, millis);
    assert(after.drop_last() =~= tasks);
    let title = or_else(opt_text(args.title), "Untitled task"@);
    let id = timed_id(millis);
    let out = answer(tasks, args, millis).output;
    assert(out =~= "Created task "@ + id + (": "@ + title));
    parts_are_held("Created task "@, id, ": "@ + title);
}

/// A task that is updated has its new status, and the others stay as they are; an update that lacks
/// something, names no status or finds no task fails and changes nothing.
pub proof fn updated_tasks_move(
    tasks: Seq<TaskView>,
    args: TaskArgs,
    now: Seq<char>,
    millis: i64,
    j: int,
)
    requires
        asked_for(args, "update"@),
        0 <= j < tasks.len(),
    ensures
        ({
            let after = tasks_after(tasks, args, now, millis);
            let ok = args.task_id is Some && args.status is Some && status_kind(args.status->0@) is Some
                && task_at(tasks, args.task_id->0@) is Some;
            let i = task_at(tasks, args.task_id->0@)->0;
            &&& answer(tasks, args, millis).success <==> ok
            &&& !ok ==> after == tasks
            &&& ok && 0 <= i < tasks.len() ==> {
                &&& after.len() == tasks.len()
                &&& j != i ==> after[j] == tasks[j]
                &&& after[i].status == Some(args.status->0@)
                &&& after[i].updated_at == Some(now)
                &&& after[i].id == tasks[i].id && after[i].title == tasks[i].title
                &&& after[i].description == tasks[i].description && after[i].created_at
                    == tasks[i].created_at
            }
        }),
{
    reveal_strlit("create");
    reveal_strlit("update");
    assert("create"@[0] != "update"@[0]);
}

/// A list shows the tasks with the status that is asked for, or all, and says so where there are none;
/// any other action is refused.
pub proof fn tasks_are_listed(tasks: Seq<TaskView>, args: TaskArgs, now: Seq<char>, millis: i64)
    ensures
        asked_for(args, "list"@) ==> answer(tasks, args, millis).success && tasks_after(
            tasks,
            args,
            now,
            millis,
        ) == tasks,
        asked_for(args, "list"@) && (forall|i: int|
            0 <= i < tasks.len() ==> args.filter_status is Some && (#[trigger] tasks[i]).status != Some(
                args.filter_status->0@,
            )) ==> answer(tasks, args, millis).output == "No tasks found."@,
        asked_for(args, "list"@) && args.filter_status is None && tasks.len() > 0 ==> answer(
            tasks,
            args,
            millis,
        ).output == decimal(tasks.len()) + " task(s):\n"@ + list_lines(tasks),
        args.action is None || args.action->0@ != "create"@ && args.action->0@ != "update"@
            && args.action->0@ != "list"@ ==> !answer(tasks, args, millis).success && tasks_after(
            tasks,
            args,
            now,
            millis,
        ) == tasks,
{
    reveal_strlit("create");
    reveal_strlit("update");
    reveal_strlit("list");
    assert("create"@.len() == 6 && "update"@.len() == 6 && "list"@.len() == 4);
    let want = opt_text(args.filter_status);
    let keep = |t: TaskView| want is None || t.status == want;
    filter_of_all(tasks, keep);
    assert(with_status(tasks, want) == tasks.filter(keep));
}

} // verus!
