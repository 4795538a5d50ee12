//! Operations on the task collection.

use vstd::prelude::*;
use crate::laws::{
    lemma_add_keeps_ids_unique, lemma_edit_changes_description_only, lemma_remove_drops_id,
    lemma_toggle_flips_one,
};
use crate::task::{Task, TaskError, TaskView, task_views};

verus! {

/// Whether some task of `s` carries `id`.
pub open spec fn has_id(s: Seq<TaskView>, id: nat) -> bool {
    exists|i: int| 0 <= i < s.len() && #[trigger] s[i].id == id
}

/// No two tasks of `s` carry the same id.
pub open spec fn unique_ids(s: Seq<TaskView>) -> bool {
    forall|i: int, j: int| 0 <= i < j < s.len() ==> #[trigger] s[i].id != #[trigger] s[j].id
}

/// Every task of `s` carries an id of at least 1.
pub open spec fn positive_ids(s: Seq<TaskView>) -> bool {
    forall|i: int| 0 <= i < s.len() ==> #[trigger] s[i].id >= 1
}

/// Whether `i` is the position of the first task of `s` that carries `id`.
pub open spec fn is_first_index(s: Seq<TaskView>, id: nat, i: int) -> bool {
    &&& 0 <= i < s.len()
    &&& s[i].id == id
    &&& forall|j: int| 0 <= j < i ==> #[trigger] s[j].id != id
}

/// The position of the first task of `s` that carries `id`, where there is one.
pub open spec fn first_index(s: Seq<TaskView>, id: nat) -> int {
    choose|i: int| is_first_index(s, id, i)
}

/// The first position found is the one that `first_index` names.
pub proof fn lemma_first_index(s: Seq<TaskView>, id: nat, i: int)
    requires
        is_first_index(s, id, i),
    ensures
        has_id(s, id),
        first_index(s, id) == i,
{
    let c = first_index(s, id);
    assert(is_first_index(s, id, c));
    if c < i {
        assert(s[c].id != id);
    }
    if i < c {
        assert(s[i].id != id);
    }
}

/// Looks up the first task that carries `id`.
pub fn find_task(tasks: &Vec<Task>, id: u32) -> (r: Option<usize>)
    ensures
        match r {
            Some(i) => is_first_index(task_views(tasks@), id as nat, i as int),
            None => !has_id(task_views(tasks@), id as nat),
        },
{
    let mut i: usize = 0;
    while i < tasks.len()
        invariant
            i <= tasks.len(),
            forall|j: int| 0 <= j < i ==> #[trigger] task_views(tasks@)[j].id != id as nat,
        decreases tasks.len() - i,
    {
        if tasks[i].id == id {
            return Some(i);
        }
        i += 1;
    }
    None
}


/// The largest id among the tasks of `s`, 0 where there is none.
pub open spec fn max_id_of(s: Seq<TaskView>) -> nat
    decreases s.len(),
{
    if s.len() == 0 {
        0
    } else {
        let rest = max_id_of(s.drop_last());
        if s.last().id > rest {
            s.last().id
        } else {
            rest
        }
    }
}

/// The id that the next added task receives.
pub open spec fn next_id_of(s: Seq<TaskView>) -> nat {
    max_id_of(s) + 1
}

/// The collection after a task with `description` was added.
pub open spec fn added(s: Seq<TaskView>, description: Seq<char>) -> Seq<TaskView> {
    s.push(TaskView { id: next_id_of(s), description, completed: false })
}

/// The collection after the first task with `id` was removed; `s` where none carries it.
pub open spec fn removed(s: Seq<TaskView>, id: nat) -> Seq<TaskView> {
    if has_id(s, id) {
        s.remove(first_index(s, id))
    } else {
        s
    }
}

/// The collection after the first task with `id` had its completion flipped;
/// `s` where none carries it.
pub open spec fn toggled(s: Seq<TaskView>, id: nat) -> Seq<TaskView> {
    if has_id(s, id) {
        let i = first_index(s, id);
        s.update(i, TaskView { completed: !s[i].completed, ..s[i] })
    } else {
        s
    }
}

/// The collection after the first task with `id` received `description`;
/// `s` where none carries it.
pub open spec fn edited(s: Seq<TaskView>, id: nat, description: Seq<char>) -> Seq<TaskView> {
    if has_id(s, id) {
        let i = first_index(s, id);
        s.update(i, TaskView { description, ..s[i] })
    } else {
        s
    }
}

/// The largest id in the collection, 0 for an empty one.
pub fn max_id(tasks: &Vec<Task>) -> (r: u32)
    ensures
        r as nat == max_id_of(task_views(tasks@)),
{
    let ghost s = task_views(tasks@);
    let mut best: u32 = 0;
    let mut i: usize = 0;
    while i < tasks.len()
        invariant
            i <= tasks.len(),
            s == task_views(tasks@),
            best as nat == max_id_of(s.take(i as int)),
        decreases tasks.len() - i,
    {
        proof {
            assert(s.take(i + 1).drop_last() =~= s.take(i as int));
        }
        if tasks[i].id > best {
            best = tasks[i].id;
        }
        i += 1;
    }
    proof {
        assert(s.take(i as int) =~= s);
    }
    best
}

/// Appends a pending task with `description` under the next free id, and returns that id.
pub fn add_task(tasks: &mut Vec<Task>, description: String) -> (id: u32)
    requires
        max_id_of(task_views(old(tasks)@)) < u32::MAX,
    ensures
        task_views(final(tasks)@) == added(task_views(old(tasks)@), description@),
        id as nat == next_id_of(task_views(old(tasks)@)),
        !has_id(task_views(old(tasks)@), id as nat),
        unique_ids(task_views(old(tasks)@)) ==> unique_ids(task_views(final(tasks)@)),
        positive_ids(task_views(old(tasks)@)) ==> positive_ids(task_views(final(tasks)@)),
{
    let id: u32 = max_id(tasks) + 1;
    tasks.push(Task { id, description, completed: false });
    proof {
        assert(task_views(tasks@) =~= added(task_views(old(tasks)@), description@));
        lemma_add_keeps_ids_unique(task_views(old(tasks)@), description@);
    }
    id
}

/// Removes the first task that carries `id` and returns it.
pub fn remove_task(tasks: &mut Vec<Task>, id: u32) -> (r: Result<Task, TaskError>)
    ensures
        r is Ok <==> has_id(task_views(old(tasks)@), id as nat),
        task_views(final(tasks)@) == removed(task_views(old(tasks)@), id as nat),
        unique_ids(task_views(old(tasks)@)) ==> unique_ids(task_views(final(tasks)@)) && !has_id(
            task_views(final(tasks)@),
            id as nat,
        ),
        match r {
            Ok(task) => task@ == task_views(old(tasks)@)[first_index(
                task_views(old(tasks)@),
                id as nat,
            )],
            Err(e) => e == (TaskError::NotFound { id }) && final(tasks)@ == old(tasks)@,
        },
{
    proof {
        if unique_ids(task_views(tasks@)) {
            lemma_remove_drops_id(task_views(tasks@), id as nat);
        }
    }
    match find_task(tasks, id) {
        Some(i) => {
            proof {
                lemma_first_index(task_views(tasks@), id as nat, i as int);
            }
            let task = tasks.remove(i);
            proof {
                assert(task_views(tasks@) =~= task_views(old(tasks)@).remove(i as int));
            }
            Ok(task)
        },
        None => Err(TaskError::NotFound { id }),
    }
}

/// Flips the completion of the first task that carries `id` and returns its position.
pub fn toggle_task_completed(tasks: &mut Vec<Task>, id: u32) -> (r: Result<usize, TaskError>)
    ensures
        r is Ok <==> has_id(task_views(old(tasks)@), id as nat),
        task_views(final(tasks)@) == toggled(task_views(old(tasks)@), id as nat),
        unique_ids(task_views(old(tasks)@)) ==> unique_ids(task_views(final(tasks)@)),
        match r {
            Ok(i) => i as int == first_index(task_views(old(tasks)@), id as nat),
            Err(e) => e == (TaskError::NotFound { id }) && final(tasks)@ == old(tasks)@,
        },
{
    proof {
        lemma_toggle_flips_one(task_views(tasks@), id as nat);
    }
    match find_task(tasks, id) {
        Some(i) => {
            proof {
                lemma_first_index(task_views(tasks@), id as nat, i as int);
            }
            let flipped: bool = !tasks[i].completed;
            tasks[i].completed = flipped;
            proof {
                assert(task_views(tasks@) =~= toggled(task_views(old(tasks)@), id as nat));
            }
            Ok(i)
        },
        None => Err(TaskError::NotFound { id }),
    }
}

/// Replaces the description of the first task that carries `id` and returns its position.
pub fn edit_task(tasks: &mut Vec<Task>, id: u32, new_description: String) -> (r: Result<
    usize,
    TaskError,
>)
    ensures
        r is Ok <==> has_id(task_views(old(tasks)@), id as nat),
        task_views(final(tasks)@) == edited(
            task_views(old(tasks)@),
            id as nat,
            new_description@,
        ),
        unique_ids(task_views(old(tasks)@)) ==> unique_ids(task_views(final(tasks)@)),
        match r {
            Ok(i) => i as int == first_index(task_views(old(tasks)@), id as nat),
            Err(e) => e == (TaskError::NotFound { id }) && final(tasks)@ == old(tasks)@,
        },
{
    proof {
        lemma_edit_changes_description_only(task_views(tasks@), id as nat, new_description@);
    }
    match find_task(tasks, id) {
        Some(i) => {
            proof {
                lemma_first_index(task_views(tasks@), id as nat, i as int);
            }
            let ghost new_text = new_description@;
            tasks[i].description = new_description;
            proof {
                assert(task_views(tasks@) =~= edited(
                    task_views(old(tasks)@),
                    id as nat,
                    new_text,
                ));
            }
            Ok(i)
        },
        None => Err(TaskError::NotFound { id }),
    }
}

} // verus!
