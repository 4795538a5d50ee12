//! The lines shown to the user.

use vstd::prelude::*;
use vstd::string::*;
use crate::decimal::{append_decimal, decimal};
use crate::task::{Task, TaskView, task_views};

verus! {

/// The word that names a completion state.
pub open spec fn status_word(completed: bool) -> Seq<char> {
    if completed {
        "Completed"@
    } else {
        "Pending"@
    }
}

/// The line that shows one task: id, a dot, the description, a dash, the status.
pub open spec fn task_line(t: TaskView) -> Seq<char> {
    decimal(t.id) + ". "@ + t.description + " - "@ + status_word(t.completed)
}

/// The views of a sequence of strings, in the same order.
pub open spec fn line_views(lines: Seq<String>) -> Seq<Seq<char>> {
    Seq::new(lines.len(), |i: int| lines[i]@)
}

/// One line per task, in collection order.
pub open spec fn task_lines(s: Seq<TaskView>) -> Seq<Seq<char>> {
    Seq::new(s.len(), |i: int| task_line(s[i]))
}

/// What listing the collection shows: a notice for an empty collection, else a
/// heading followed by one line per task.
pub open spec fn listing(s: Seq<TaskView>) -> Seq<Seq<char>> {
    if s.len() == 0 {
        seq!["No tasks available."@]
    } else {
        seq!["Tasks:"@] + task_lines(s)
    }
}

/// What a search shows: a notice where nothing matched, else one line per match.
pub open spec fn search_listing(matches: Seq<TaskView>) -> Seq<Seq<char>> {
    if matches.len() == 0 {
        seq!["No tasks matched the query."@]
    } else {
        task_lines(matches)
    }
}

/// The confirmation after a toggle: the description and the new status.
pub open spec fn toggled_text(t: TaskView) -> Seq<char> {
    "Task '"@ + t.description + "' is now "@ + status_word(t.completed) + "."@
}

/// The confirmation after an edit: the id of the edited task.
pub open spec fn edited_text(id: nat) -> Seq<char> {
    "Task with ID "@ + decimal(id) + " was updated."@
}

/// The word that names a completion state.
pub fn status_text(completed: bool) -> (r: &'static str)
    ensures
        r@ == status_word(completed),
{
    if completed {
        "Completed"
    } else {
        "Pending"
    }
}

/// The line that shows `task`.
pub fn format_task(task: &Task) -> (r: String)
    ensures
        r@ == task_line(task@),
{
    let mut out = String::new();
    append_decimal(&mut out, task.id);
    out.append(". ");
    out.append(task.description.as_str());
    out.append(" - ");
    out.append(status_text(task.completed));
    assert(out@ =~= task_line(task@));
    out
}

/// Appends one line per task of `tasks` to `out`.
fn append_task_lines(out: &mut Vec<String>, tasks: &Vec<Task>)
    ensures
        line_views(final(out)@) == line_views(old(out)@) + task_lines(task_views(tasks@)),
{
    let ghost s = task_views(tasks@);
    let mut i: usize = 0;
    while i < tasks.len()
        invariant
            i <= tasks.len(),
            s == task_views(tasks@),
            line_views(out@) == line_views(old(out)@) + task_lines(s.take(i as int)),
        decreases tasks.len() - i,
    {
        let ghost before = out@;
        let line = format_task(&tasks[i]);
        out.push(line);
        proof {
            assert(line_views(out@) =~= line_views(before).push(task_line(s[i as int])));
            assert(task_lines(s.take(i + 1)) =~= task_lines(s.take(i as int)).push(
                task_line(s[i as int]),
            ));
            assert(line_views(out@) =~= line_views(old(out)@) + task_lines(s.take(i + 1)));
        }
        i += 1;
    }
    proof {
        assert(s.take(i as int) =~= s);
    }
}

/// The lines that list the collection, in its own order.
pub fn list_tasks(tasks: &Vec<Task>) -> (r: Vec<String>)
    ensures
        line_views(r@) == listing(task_views(tasks@)),
{
    let mut out: Vec<String> = Vec::new();
    if tasks.len() == 0 {
        out.push(String::from_str("No tasks available."));
    } else {
        out.push(String::from_str("Tasks:"));
        append_task_lines(&mut out, tasks);
    }
    assert(line_views(out@) =~= listing(task_views(tasks@)));
    out
}

/// The lines that show the tasks a search found.
pub fn search_report(matches: &Vec<Task>) -> (r: Vec<String>)
    ensures
        line_views(r@) == search_listing(task_views(matches@)),
{
    let mut out: Vec<String> = Vec::new();
    if matches.len() == 0 {
        out.push(String::from_str("No tasks matched the query."));
    } else {
        append_task_lines(&mut out, matches);
    }
    assert(line_views(out@) =~= search_listing(task_views(matches@)));
    out
}

/// The confirmation after a task was added.
pub fn added_message() -> (r: String)
    ensures
        r@ == "Task added."@,
{
    String::from_str("Task added.")
}

/// The confirmation after a task was removed.
pub fn removed_message() -> (r: String)
    ensures
        r@ == "Task removed."@,
{
    String::from_str("Task removed.")
}

/// The confirmation after `task` was toggled into its present state.
pub fn toggled_message(task: &Task) -> (r: String)
    ensures
        r@ == toggled_text(task@),
{
    let mut out = String::from_str("Task '");
    out.append(task.description.as_str());
    out.append("' is now ");
    out.append(status_text(task.completed));
    out.append(".");
    out
}

/// The confirmation after the task with `id` was edited.
pub fn edited_message(id: u32) -> (r: String)
    ensures
        r@ == edited_text(id as nat),
{
    let mut out = String::from_str("Task with ID ");
    append_decimal(&mut out, id);
    out.append(" was updated.");
    out
}

} // verus!
