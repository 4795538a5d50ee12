//! What a stored file yields as a collection.

use vstd::prelude::*;
use crate::task::Task;

verus! {

/// What was found where the collection is kept.
#[derive(Debug)]
pub enum Stored {
    /// Nothing has been saved yet.
    Missing,
    /// Something is there that does not read as a list of tasks.
    Malformed,
    /// The tasks that were saved, in saved order.
    Tasks(Vec<Task>),
}

/// The collection to work on: the saved tasks as they are, and an empty
/// collection where none were saved or what was saved cannot be read.
pub fn load_tasks(stored: Stored) -> (r: Vec<Task>)
    ensures
        match stored {
            Stored::Tasks(tasks) => r == tasks,
            Stored::Missing | Stored::Malformed => r@ == Seq::<Task>::empty(),
        },
{
    match stored {
        Stored::Tasks(tasks) => tasks,
        Stored::Missing => Vec::new(),
        Stored::Malformed => Vec::new(),
    }
}

} // verus!
