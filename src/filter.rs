//! Fuzzy filtering of the task list: which tasks a query keeps, in their
//! task-list order.
use vstd::prelude::*;
use fuzzy_matcher::FuzzyMatcher;
use fuzzy_matcher::skim::SkimMatcherV2;
use crate::parser::{Task, TaskView, task_views};

verus! {

/// The score that skim's fuzzy matcher, with its default settings, gives
/// `choice` against `pattern` (`None` when it does not match).
pub uninterp spec fn skim_score(choice: Seq<char>, pattern: Seq<char>) -> Option<i64>;

/// Relies on `fuzzy_matcher::skim::SkimMatcherV2::fuzzy_match` with the default
/// matcher: the score is a function of the two strings alone.
#[verifier::external_body]
fn fuzzy_score(choice: &str, pattern: &str) -> (r: Option<i64>)
    ensures
        r == skim_score(choice@, pattern@),
{
    SkimMatcherV2::default().fuzzy_match(choice, pattern)
}

pub open spec fn positive(score: Option<i64>) -> bool {
    match score {
        Some(v) => v > 0,
        None => false,
    }
}

/// The indices `i < n`, in increasing order, at which either score is positive.
pub open spec fn positive_indices(
    name_scores: Seq<Option<i64>>,
    desc_scores: Seq<Option<i64>>,
    n: int,
) -> Seq<usize>
    decreases n,
{
    if n <= 0 {
        seq![]
    } else {
        let prev = positive_indices(name_scores, desc_scores, n - 1);
        if positive(name_scores[n - 1]) || positive(desc_scores[n - 1]) {
            prev.push((n - 1) as usize)
        } else {
            prev
        }
    }
}

/// `0, 1, ..., n - 1`.
pub open spec fn all_indices(n: int) -> Seq<usize> {
    Seq::new(n as nat, |i: int| i as usize)
}

/// The indices of the tasks that `query` keeps: all of them for an empty
/// query, else those whose name or description scores above zero.
pub open spec fn fuzzy_filter(tasks: Seq<TaskView>, query: Seq<char>) -> Seq<usize> {
    if query.len() == 0 {
        all_indices(tasks.len() as int)
    } else {
        positive_indices(
            tasks.map_values(|t: TaskView| skim_score(t.name, query)),
            tasks.map_values(|t: TaskView| skim_score(t.description, query)),
            tasks.len() as int,
        )
    }
}

/// Strictly increasing and below `n`: an order-preserving choice of indices.
pub open spec fn is_index_subsequence(s: Seq<usize>, n: int) -> bool {
    &&& forall|i: int| 0 <= i < s.len() ==> s[i] < n
    &&& forall|i: int, j: int| 0 <= i < j < s.len() ==> s[i] < s[j]
}

pub proof fn lemma_positive_indices_ordered(
    name_scores: Seq<Option<i64>>,
    desc_scores: Seq<Option<i64>>,
    n: int,
)
    requires
        n <= usize::MAX,
    ensures
        is_index_subsequence(positive_indices(name_scores, desc_scores, n), n),
    decreases n,
{
    if n > 0 {
        lemma_positive_indices_ordered(name_scores, desc_scores, n - 1);
        let prev = positive_indices(name_scores, desc_scores, n - 1);
        assert(forall|i: int| 0 <= i < prev.len() ==> prev[i] < n - 1);
    }
}

/// The result of a filter is always an order-preserving subsequence of the
/// task indices.
pub proof fn lemma_filter_is_subsequence(tasks: Seq<TaskView>, query: Seq<char>)
    requires
        tasks.len() <= usize::MAX,
    ensures
        is_index_subsequence(fuzzy_filter(tasks, query), tasks.len() as int),
{
    if query.len() > 0 {
        lemma_positive_indices_ordered(
            tasks.map_values(|t: TaskView| skim_score(t.name, query)),
            tasks.map_values(|t: TaskView| skim_score(t.description, query)),
            tasks.len() as int,
        );
    } else {
        let a = all_indices(tasks.len() as int);
        assert(forall|i: int| 0 <= i < a.len() ==> a[i] == i);
    }
}

/// An empty query keeps every task, in order.
pub proof fn empty_query_keeps_all(tasks: Seq<TaskView>)
    requires
        tasks.len() <= usize::MAX,
    ensures
        fuzzy_filter(tasks, seq![]).len() == tasks.len(),
        forall|i: int| 0 <= i < tasks.len() ==> fuzzy_filter(tasks, seq![])[i] == i,
{
}

/// The indices, in order, at which the name score or the description score
/// is positive.
pub fn select_positive(name_scores: &Vec<Option<i64>>, desc_scores: &Vec<Option<i64>>) -> (r: Vec<
    usize,
>)
    requires
        name_scores.len() == desc_scores.len(),
    ensures
        r@ == positive_indices(name_scores@, desc_scores@, name_scores.len() as int),
{
    let mut out: Vec<usize> = Vec::new();
    let mut i: usize = 0;
    while i < name_scores.len()
        invariant
            i <= name_scores.len() == desc_scores.len(),
            out@ == positive_indices(name_scores@, desc_scores@, i as int),
        decreases name_scores.len() - i,
    {
        let keep = match (name_scores[i], desc_scores[i]) {
            (Some(a), _) if a > 0 => true,
            (_, Some(b)) if b > 0 => true,
            _ => false,
        };
        if keep {
            out.push(i);
        }
        i += 1;
    }
    out
}

/// The indices of the tasks that `query` keeps, in task-list order.
pub fn filter_tasks(tasks: &Vec<Task>, query: &String) -> (r: Vec<usize>)
    ensures
        r@ == fuzzy_filter(task_views(tasks@), query@),
        is_index_subsequence(r@, tasks.len() as int),
{
    proof {
        assert(task_views(tasks@).len() == tasks.len());
        lemma_filter_is_subsequence(task_views(tasks@), query@);
    }
    if query.as_str().unicode_len() == 0 {
        let mut out: Vec<usize> = Vec::new();
        let mut i: usize = 0;
        while i < tasks.len()
            invariant
                i <= tasks.len(),
                out@ == all_indices(i as int),
            decreases tasks.len() - i,
        {
            out.push(i);
            assert(out@ =~= all_indices(i + 1));
            i += 1;
        }
        return out;
    }
    let mut name_scores: Vec<Option<i64>> = Vec::new();
    let mut desc_scores: Vec<Option<i64>> = Vec::new();
    let ghost tv = task_views(tasks@);
    let mut i: usize = 0;
    while i < tasks.len()
        invariant
            i <= tasks.len(),
            tv == task_views(tasks@),
            name_scores.len() == i,
            desc_scores.len() == i,
            forall|k: int| 0 <= k < i ==> #[trigger] name_scores@[k] == skim_score(tv[k].name, query@),
            forall|k: int| 0 <= k < i ==> #[trigger] desc_scores@[k] == skim_score(tv[k].description, query@),
        decreases tasks.len() - i,
    {
        let t = &tasks[i];
        name_scores.push(fuzzy_score(t.name.as_str(), query.as_str()));
        desc_scores.push(fuzzy_score(t.description.as_str(), query.as_str()));
        i += 1;
    }
    assert(name_scores@ =~= tv.map_values(|t: TaskView| skim_score(t.name, query@)));
    assert(desc_scores@ =~= tv.map_values(|t: TaskView| skim_score(t.description, query@)));
    select_positive(&name_scores, &desc_scores)
}

} // verus!
