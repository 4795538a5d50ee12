//! Fuzzy search over the collection.

use vstd::prelude::*;
use vstd::string::*;
use fuzzy_matcher::skim::SkimMatcherV2;
use fuzzy_matcher::FuzzyMatcher;
use crate::decimal::{append_decimal, decimal};
use crate::report::{status_text, status_word};
use crate::task::{Task, TaskView, task_views};

verus! {

/// The text that a query is matched against: id, a space, the description, a
/// space, the status word.
pub open spec fn subject_of(t: TaskView) -> Seq<char> {
    decimal(t.id) + " "@ + t.description + " "@ + status_word(t.completed)
}

/// An upper-case letter of ASCII.
pub open spec fn is_ascii_upper(c: char) -> bool {
    'A' <= c && c <= 'Z'
}

/// Whether `query` holds an upper-case letter of ASCII, which makes a match
/// case-sensitive.
pub open spec fn has_ascii_upper(query: Seq<char>) -> bool {
    exists|i: int| 0 <= i < query.len() && is_ascii_upper(#[trigger] query[i])
}

/// Whether two characters count as the same: equal, or, where case is
/// ignored, an ASCII letter and its other case.
pub open spec fn chars_agree(a: char, b: char, exact: bool) -> bool {
    a == b || (!exact && ((is_ascii_upper(a) && a as int + 32 == b as int) || (is_ascii_upper(b)
        && b as int + 32 == a as int)))
}

/// Whether the characters of `query` occur in `subject` in order, not
/// necessarily next to each other.
pub open spec fn occurs_in_order(query: Seq<char>, subject: Seq<char>, exact: bool) -> bool
    decreases subject.len(),
{
    if query.len() == 0 {
        true
    } else if subject.len() == 0 {
        false
    } else if chars_agree(subject[0], query[0], exact) {
        occurs_in_order(query.skip(1), subject.skip(1), exact)
    } else {
        occurs_in_order(query, subject.skip(1), exact)
    }
}

/// Whether `query` matches `subject`: its characters occur in order, with
/// case ignored unless the query itself holds an upper-case letter.
pub open spec fn query_matches(subject: Seq<char>, query: Seq<char>) -> bool {
    occurs_in_order(query, subject, has_ascii_upper(query))
}

/// The relevance score that the skim matcher gives `pattern` in `choice`,
/// absent where it finds no match.
pub uninterp spec fn skim_score(choice: Seq<char>, pattern: Seq<char>) -> Option<i64>;

/// Calls `fuzzy_match` of `fuzzy_matcher::skim::SkimMatcherV2` in its default
/// configuration. Trusted: the score is a function of the two texts alone, and
/// one is given exactly where the pattern's characters occur in the choice in
/// order, with smart case.
#[verifier::external_body]
fn skim_fuzzy_match(choice: &str, pattern: &str) -> (r: Option<i64>)
    ensures
        r == skim_score(choice@, pattern@),
        r is Some <==> query_matches(choice@, pattern@),
{
    SkimMatcherV2::default().fuzzy_match(choice, pattern)
}

/// The tasks of `s` at the positions that `keep` marks, in the order of `s`.
pub open spec fn select(s: Seq<TaskView>, keep: Seq<bool>) -> Seq<TaskView>
    decreases s.len(),
{
    if s.len() == 0 || keep.len() != s.len() {
        Seq::empty()
    } else if keep.last() {
        select(s.drop_last(), keep.drop_last()).push(s.last())
    } else {
        select(s.drop_last(), keep.drop_last())
    }
}

/// For each score, whether it is present.
pub open spec fn present(scores: Seq<Option<i64>>) -> Seq<bool> {
    Seq::new(scores.len(), |i: int| scores[i] is Some)
}

/// For each task of `s`, whether `query` matches its subject.
pub open spec fn matched(s: Seq<TaskView>, query: Seq<char>) -> Seq<bool> {
    Seq::new(s.len(), |i: int| query_matches(subject_of(s[i]), query))
}

/// The tasks of `s` that `query` matches, in the order of `s`.
pub open spec fn search_result(s: Seq<TaskView>, query: Seq<char>) -> Seq<TaskView> {
    select(s, matched(s, query))
}

/// The text of `task` that a query is matched against.
pub fn search_subject(task: &Task) -> (r: String)
    ensures
        r@ == subject_of(task@),
{
    let mut out = String::new();
    append_decimal(&mut out, task.id);
    out.append(" ");
    out.append(task.description.as_str());
    out.append(" ");
    out.append(status_text(task.completed));
    assert(out@ =~= subject_of(task@));
    out
}

/// The score of `query` against each task, in collection order.
pub fn match_scores(tasks: &Vec<Task>, query: &str) -> (r: Vec<Option<i64>>)
    ensures
        r@.len() == tasks@.len(),
        forall|i: int|
            0 <= i < r@.len() ==> #[trigger] r@[i] == skim_score(
                subject_of(task_views(tasks@)[i]),
                query@,
            ),
        present(r@) == matched(task_views(tasks@), query@),
{
    let mut scores: Vec<Option<i64>> = Vec::new();
    let mut i: usize = 0;
    while i < tasks.len()
        invariant
            i <= tasks.len(),
            scores@.len() == i,
            forall|j: int|
                0 <= j < i ==> #[trigger] scores@[j] == skim_score(
                    subject_of(task_views(tasks@)[j]),
                    query@,
                ),
            forall|j: int|
                0 <= j < i ==> (#[trigger] scores@[j] is Some <==> query_matches(
                    subject_of(task_views(tasks@)[j]),
                    query@,
                )),
        decreases tasks.len() - i,
    {
        let subject = search_subject(&tasks[i]);
        let score = skim_fuzzy_match(subject.as_str(), query);
        scores.push(score);
        i += 1;
    }
    proof {
        assert(present(scores@) =~= matched(task_views(tasks@), query@));
    }
    scores
}

/// The tasks whose score is present, in collection order.
pub fn select_matches(tasks: &Vec<Task>, scores: &Vec<Option<i64>>) -> (r: Vec<Task>)
    requires
        scores@.len() == tasks@.len(),
    ensures
        task_views(r@) == select(task_views(tasks@), present(scores@)),
{
    let ghost s = task_views(tasks@);
    let ghost keep = present(scores@);
    let mut found: Vec<Task> = Vec::new();
    let mut i: usize = 0;
    proof {
        assert(task_views(found@) =~= select(s.take(0), keep.take(0)));
    }
    while i < tasks.len()
        invariant
            i <= tasks.len(),
            scores@.len() == tasks@.len(),
            s == task_views(tasks@),
            keep == present(scores@),
            task_views(found@) == select(s.take(i as int), keep.take(i as int)),
        decreases tasks.len() - i,
    {
        proof {
            assert(s.take(i + 1).drop_last() =~= s.take(i as int));
            assert(keep.take(i + 1).drop_last() =~= keep.take(i as int));
        }
        if scores[i].is_some() {
            found.push(tasks[i].clone());
            proof {
                assert(task_views(found@) =~= select(s.take(i + 1), keep.take(i + 1)));
            }
        }
        i += 1;
    }
    proof {
        assert(s.take(i as int) =~= s);
        assert(keep.take(i as int) =~= keep);
    }
    found
}

/// The tasks that `query` matches, in collection order.
pub fn fuzzy_search(tasks: &Vec<Task>, query: &str) -> (r: Vec<Task>)
    ensures
        task_views(r@) == search_result(task_views(tasks@), query@),
{
    let scores = match_scores(tasks, query);
    select_matches(tasks, &scores)
}

} // verus!
