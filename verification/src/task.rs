//! The task record, its mathematical view and the error of a failed lookup.

use vstd::prelude::*;
use vstd::string::*;
use crate::decimal::{append_decimal, decimal};

verus! {

/// One entry of the task collection.
#[derive(Debug, PartialEq, Eq)]
pub struct Task {
    pub id: u32,
    pub description: String,
    pub completed: bool,
}

/// What a task is, as plain mathematical values.
pub ghost struct TaskView {
    pub id: nat,
    pub description: Seq<char>,
    pub completed: bool,
}

impl View for Task {
    type V = TaskView;

    open spec fn view(&self) -> TaskView {
        TaskView { id: self.id as nat, description: self.description@, completed: self.completed }
    }
}

impl Clone for Task {
    fn clone(&self) -> (r: Self)
        ensures
            r@ == self@,
    {
        Task { id: self.id, description: self.description.clone(), completed: self.completed }
    }
}

/// The views of a sequence of tasks, in the same order.
pub open spec fn task_views(tasks: Seq<Task>) -> Seq<TaskView> {
    Seq::new(tasks.len(), |i: int| tasks[i]@)
}

/// Why an operation on the collection failed.
#[derive(Debug, Clone, Copy, PartialEq, Eq, Structural)]
pub enum TaskError {
    /// No task of the collection carries the requested id.
    NotFound { id: u32 },
}

/// The text of the line that reports a missing id.
pub open spec fn not_found_text(id: nat) -> Seq<char> {
    "Task with id "@ + decimal(id) + " not found."@
}

impl TaskError {
    /// The line shown to the user for this error.
    pub fn message(&self) -> (r: String)
        ensures
            match *self {
                TaskError::NotFound { id } => r@ == not_found_text(id as nat),
            },
    {
        match *self {
            TaskError::NotFound { id } => {
                let mut out = String::from_str("Task with id ");
                append_decimal(&mut out, id);
                out.append(" not found.");
                out
            },
        }
    }
}

} // verus!
