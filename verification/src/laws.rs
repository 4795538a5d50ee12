//! What holds of the operations on the collection, whatever the tasks are.

use vstd::prelude::*;
use crate::task::TaskView;
use crate::ops::{
    added, edited, first_index, has_id, is_first_index, lemma_first_index, max_id_of, next_id_of,
    positive_ids, removed, toggled, unique_ids,
};
use crate::search::{
    chars_agree, matched, occurs_in_order, query_matches, search_result, select, subject_of,
};

verus! {

/// The collection after one task was added for each description of `ds`, in order.
pub open spec fn added_all(s: Seq<TaskView>, ds: Seq<Seq<char>>) -> Seq<TaskView>
    decreases ds.len(),
{
    if ds.len() == 0 {
        s
    } else {
        added(added_all(s, ds.drop_last()), ds.last())
    }
}

/// No id of the collection is above its largest id, and some task of a
/// collection that is not empty carries it.
pub proof fn lemma_max_id_bounds(s: Seq<TaskView>)
    ensures
        forall|i: int| 0 <= i < s.len() ==> #[trigger] s[i].id <= max_id_of(s),
        s.len() == 0 ==> max_id_of(s) == 0,
        s.len() > 0 ==> has_id(s, max_id_of(s)),
    decreases s.len(),
{
    if s.len() > 0 {
        let rest = s.drop_last();
        lemma_max_id_bounds(rest);
        assert forall|i: int| 0 <= i < s.len() implies #[trigger] s[i].id <= max_id_of(s) by {
            if i < s.len() - 1 {
                assert(rest[i] == s[i]);
            }
        }
        if s.last().id >= max_id_of(rest) {
            assert(s[s.len() - 1].id == max_id_of(s));
        } else {
            let k = choose|k: int| 0 <= k < rest.len() && #[trigger] rest[k].id == max_id_of(rest);
            assert(s[k].id == max_id_of(s));
        }
    }
}

/// Where some task carries `id`, `first_index` is the position of the first such task.
pub proof fn lemma_first_index_exists(s: Seq<TaskView>, id: nat)
    requires
        has_id(s, id),
    ensures
        is_first_index(s, id, first_index(s, id)),
{
    let k = choose|k: int| 0 <= k < s.len() && #[trigger] s[k].id == id;
    lemma_first_below(s, id, k);
}

/// A task with `id` at position `k` means that a first one stands at or before `k`.
proof fn lemma_first_below(s: Seq<TaskView>, id: nat, k: int)
    requires
        0 <= k < s.len(),
        s[k].id == id,
    ensures
        is_first_index(s, id, first_index(s, id)),
    decreases k,
{
    if forall|j: int| 0 <= j < k ==> #[trigger] s[j].id != id {
        assert(is_first_index(s, id, k));
    } else {
        let j = choose|j: int| 0 <= j < k && #[trigger] s[j].id == id;
        lemma_first_below(s, id, j);
    }
}

/// Adding one task per description to an empty collection gives the ids 1, 2, 3, ...
/// in the order of addition, each task pending and with its own description.
pub proof fn lemma_add_all_from_empty(ds: Seq<Seq<char>>)
    ensures
        added_all(Seq::empty(), ds).len() == ds.len(),
        max_id_of(added_all(Seq::empty(), ds)) == ds.len(),
        forall|i: int|
            0 <= i < ds.len() ==> #[trigger] added_all(Seq::empty(), ds)[i] == (TaskView {
                id: (i + 1) as nat,
                description: ds[i],
                completed: false,
            }),
    decreases ds.len(),
{
    if ds.len() > 0 {
        let before = added_all(Seq::empty(), ds.drop_last());
        let after = added_all(Seq::empty(), ds);
        lemma_add_all_from_empty(ds.drop_last());
        assert(after == added(before, ds.last()));
        assert(after.drop_last() =~= before);
        assert forall|i: int| 0 <= i < ds.len() implies #[trigger] after[i] == (TaskView {
            id: (i + 1) as nat,
            description: ds[i],
            completed: false,
        }) by {
            if i < ds.len() - 1 {
                assert(after[i] == before[i]);
                assert(ds.drop_last()[i] == ds[i]);
            }
        }
    }
}

/// An added task gets an id that no task carried before, so distinct ids stay
/// distinct and positive ids stay positive; the tasks before it are unchanged.
pub proof fn lemma_add_keeps_ids_unique(s: Seq<TaskView>, description: Seq<char>)
    ensures
        !has_id(s, next_id_of(s)),
        added(s, description).len() == s.len() + 1,
        forall|i: int| 0 <= i < s.len() ==> #[trigger] added(s, description)[i] == s[i],
        unique_ids(s) ==> unique_ids(added(s, description)),
        positive_ids(s) ==> positive_ids(added(s, description)),
{
    lemma_max_id_bounds(s);
}

/// Removing an id that some task carries shortens the collection by one task,
/// the first with that id, and leaves every other task as it was, in order.
pub proof fn lemma_remove_keeps_others(s: Seq<TaskView>, id: nat)
    requires
        has_id(s, id),
    ensures
        removed(s, id).len() == s.len() - 1,
        forall|j: int|
            0 <= j < first_index(s, id) ==> #[trigger] removed(s, id)[j] == s[j],
        forall|j: int|
            first_index(s, id) <= j < s.len() - 1 ==> #[trigger] removed(s, id)[j] == s[j + 1],
{
    lemma_first_index_exists(s, id);
}

/// Where ids are distinct, no task carries a removed id afterwards, and the
/// ids that remain are still distinct.
pub proof fn lemma_remove_drops_id(s: Seq<TaskView>, id: nat)
    requires
        unique_ids(s),
    ensures
        !has_id(removed(s, id), id),
        unique_ids(removed(s, id)),
{
    if has_id(s, id) {
        lemma_first_index_exists(s, id);
        let i = first_index(s, id);
        let r = removed(s, id);
        assert forall|j: int| 0 <= j < r.len() implies #[trigger] r[j].id != id by {
            if j < i {
                assert(r[j] == s[j]);
            } else {
                assert(r[j] == s[j + 1]);
            }
        }
        assert forall|a: int, b: int| 0 <= a < b < r.len() implies #[trigger] r[a].id
            != #[trigger] r[b].id by {
            let a0 = if a < i { a } else { a + 1 };
            let b0 = if b < i { b } else { b + 1 };
            assert(r[a] == s[a0]);
            assert(r[b] == s[b0]);
        }
    }
}

/// Toggling keeps the length, every id and every description, and changes the
/// completion of the first task with `id` only.
pub proof fn lemma_toggle_flips_one(s: Seq<TaskView>, id: nat)
    ensures
        toggled(s, id).len() == s.len(),
        forall|j: int|
            0 <= j < s.len() ==> (#[trigger] toggled(s, id)[j]).id == s[j].id && toggled(
                s,
                id,
            )[j].description == s[j].description,
        forall|j: int|
            0 <= j < s.len() ==> ((#[trigger] toggled(s, id)[j]).completed != s[j].completed <==> (
            has_id(s, id) && j == first_index(s, id))),
        unique_ids(s) ==> unique_ids(toggled(s, id)),
{
    if has_id(s, id) {
        lemma_first_index_exists(s, id);
        let t = toggled(s, id);
        assert forall|a: int, b: int| unique_ids(s) && 0 <= a < b < t.len() implies #[trigger] t[a].id
            != #[trigger] t[b].id by {
            assert(t[a].id == s[a].id);
            assert(t[b].id == s[b].id);
        }
    }
}

/// Toggling the same id twice gives the collection back as it was.
pub proof fn lemma_toggle_twice(s: Seq<TaskView>, id: nat)
    ensures
        toggled(toggled(s, id), id) == s,
{
    if has_id(s, id) {
        lemma_first_index_exists(s, id);
        let i = first_index(s, id);
        let t = toggled(s, id);
        assert(is_first_index(t, id, i)) by {
            assert forall|j: int| 0 <= j < i implies #[trigger] t[j].id != id by {
                assert(t[j] == s[j]);
            }
        }
        lemma_first_index(t, id, i);
        assert(toggled(t, id) =~= s);
    }
}

/// Editing keeps the length, every id and every completion flag, and changes
/// the description of the first task with `id` only, to the new text.
pub proof fn lemma_edit_changes_description_only(
    s: Seq<TaskView>,
    id: nat,
    description: Seq<char>,
)
    ensures
        edited(s, id, description).len() == s.len(),
        forall|j: int|
            0 <= j < s.len() ==> (#[trigger] edited(s, id, description)[j]).id == s[j].id && edited(
                s,
                id,
                description,
            )[j].completed == s[j].completed,
        forall|j: int|
            0 <= j < s.len() && !(has_id(s, id) && j == first_index(s, id)) ==> #[trigger] edited(
                s,
                id,
                description,
            )[j] == s[j],
        has_id(s, id) ==> edited(s, id, description)[first_index(s, id)].description
            == description,
        unique_ids(s) ==> unique_ids(edited(s, id, description)),
{
    if has_id(s, id) {
        lemma_first_index_exists(s, id);
        let t = edited(s, id, description);
        assert forall|a: int, b: int| unique_ids(s) && 0 <= a < b < t.len() implies #[trigger] t[a].id
            != #[trigger] t[b].id by {
            assert(t[a].id == s[a].id);
            assert(t[b].id == s[b].id);
        }
    }
}

/// An id that no task carries leaves the collection as it is under removal,
/// toggling and editing.
pub proof fn lemma_missing_id_changes_nothing(s: Seq<TaskView>, id: nat, description: Seq<char>)
    requires
        !has_id(s, id),
    ensures
        removed(s, id) == s,
        toggled(s, id) == s,
        edited(s, id, description) == s,
{
}


/// A search gives exactly the tasks that the query matches, each as often as
/// it stands in the collection and in collection order.
pub proof fn lemma_search_result_is_filter(s: Seq<TaskView>, query: Seq<char>)
    ensures
        search_result(s, query) == s.filter(|t: TaskView| query_matches(subject_of(t), query)),
    decreases s.len(),
{
    let keep = |t: TaskView| query_matches(subject_of(t), query);
    reveal(Seq::filter);
    if s.len() > 0 {
        lemma_search_result_is_filter(s.drop_last(), query);
        assert(matched(s, query).drop_last() =~= matched(s.drop_last(), query));
        assert(matched(s, query).last() == keep(s.last()));
    }
    assert(select(s, matched(s, query)) =~= s.filter(keep));
}

/// Whether `at` gives each character of `query`, in turn, a position of
/// `subject` that holds it, each position after the one before.
pub open spec fn places_query(
    query: Seq<char>,
    subject: Seq<char>,
    exact: bool,
    at: Seq<int>,
) -> bool {
    &&& at.len() == query.len()
    &&& forall|i: int|
        0 <= i < at.len() ==> 0 <= #[trigger] at[i] < subject.len() && chars_agree(
            subject[at[i]],
            query[i],
            exact,
        )
    &&& forall|i: int, j: int| 0 <= i < j < at.len() ==> #[trigger] at[i] < #[trigger] at[j]
}

/// A query whose characters can be placed in the subject, in order, occurs in it.
pub proof fn lemma_placed_query_occurs(
    query: Seq<char>,
    subject: Seq<char>,
    exact: bool,
    at: Seq<int>,
)
    requires
        places_query(query, subject, exact, at),
    ensures
        occurs_in_order(query, subject, exact),
    decreases subject.len(),
{
    if query.len() > 0 {
        assert(0 <= at[0] < subject.len());
        if chars_agree(subject[0], query[0], exact) {
            let rest = Seq::new((at.len() - 1) as nat, |i: int| at[i + 1] - 1);
            assert forall|i: int| 0 <= i < rest.len() implies 0 <= #[trigger] rest[i]
                < subject.skip(1).len() && chars_agree(
                subject.skip(1)[rest[i]],
                query.skip(1)[i],
                exact,
            ) by {
                assert(at[0] < at[i + 1]);
                assert(0 <= at[i + 1] < subject.len());
            }
            assert forall|i: int, j: int| 0 <= i < j < rest.len() implies #[trigger] rest[i]
                < #[trigger] rest[j] by {
                assert(at[i + 1] < at[j + 1]);
            }
            lemma_placed_query_occurs(query.skip(1), subject.skip(1), exact, rest);
        } else {
            let rest = Seq::new(at.len(), |i: int| at[i] - 1);
            assert forall|i: int| 0 <= i < rest.len() implies 0 <= #[trigger] rest[i]
                < subject.skip(1).len() && chars_agree(
                subject.skip(1)[rest[i]],
                query[i],
                exact,
            ) by {
                if i > 0 {
                    assert(at[0] < at[i]);
                }
                assert(0 <= at[i] < subject.len());
            }
            assert forall|i: int, j: int| 0 <= i < j < rest.len() implies #[trigger] rest[i]
                < #[trigger] rest[j] by {
                assert(at[i] < at[j]);
            }
            lemma_placed_query_occurs(query, subject.skip(1), exact, rest);
        }
    }
}

/// A query that occurs in the subject can be placed in it: the result gives
/// each of its characters a position, in order.
pub proof fn lemma_occurring_query_is_placed(query: Seq<char>, subject: Seq<char>, exact: bool) -> (at:
    Seq<int>)
    requires
        occurs_in_order(query, subject, exact),
    ensures
        places_query(query, subject, exact, at),
    decreases subject.len(),
{
    if query.len() == 0 {
        Seq::empty()
    } else if chars_agree(subject[0], query[0], exact) {
        let rest = lemma_occurring_query_is_placed(query.skip(1), subject.skip(1), exact);
        let at = Seq::new(query.len(), |i: int| if i == 0 { 0 } else { rest[i - 1] + 1 });
        assert forall|i: int| 0 <= i < at.len() implies 0 <= #[trigger] at[i] < subject.len()
            && chars_agree(subject[at[i]], query[i], exact) by {
            if i > 0 {
                assert(0 <= rest[i - 1] < subject.skip(1).len());
                assert(subject.skip(1)[rest[i - 1]] == subject[at[i]]);
                assert(query.skip(1)[i - 1] == query[i]);
            }
        }
        assert forall|i: int, j: int| 0 <= i < j < at.len() implies #[trigger] at[i]
            < #[trigger] at[j] by {
            assert(0 <= rest[j - 1]);
            if i > 0 {
                assert(rest[i - 1] < rest[j - 1]);
            }
        }
        at
    } else {
        let rest = lemma_occurring_query_is_placed(query, subject.skip(1), exact);
        let at = Seq::new(query.len(), |i: int| rest[i] + 1);
        assert forall|i: int| 0 <= i < at.len() implies 0 <= #[trigger] at[i] < subject.len()
            && chars_agree(subject[at[i]], query[i], exact) by {
            assert(0 <= rest[i] < subject.skip(1).len());
            assert(subject.skip(1)[rest[i]] == subject[at[i]]);
        }
        assert forall|i: int, j: int| 0 <= i < j < at.len() implies #[trigger] at[i]
            < #[trigger] at[j] by {
            assert(rest[i] < rest[j]);
        }
        at
    }
}

} // verus!
