//! The filter engine: derives the visible subset of the task store from the
//! filter criteria. The visible subset is given as store indices in store
//! order; no reordering happens here.

use vstd::prelude::*;

use crate::models::{Task, TaskPriority, TaskStatus};

verus! {

/// Filter criteria. `active` is a master switch: when it is false every task is
/// visible and the other fields are ignored, set or not.
pub struct FilterCriteria {
    pub active: bool,
    pub status_filter: Option<TaskStatus>,
    pub priority_filter: Option<TaskPriority>,
    pub search_query: String,
}

impl FilterCriteria {
    /// Criteria that show every task: the switch is off and no field is set.
    pub fn new() -> (c: Self)
        ensures
            !c.active,
            c.status_filter is None,
            c.priority_filter is None,
            c.search_query@ == Seq::<char>::empty(),
    {
        FilterCriteria {
            active: false,
            status_filter: None,
            priority_filter: None,
            search_query: String::new(),
        }
    }
}

/// The lowercase form of a string, as str::to_lowercase computes it.
pub uninterp spec fn lower_of(s: Seq<char>) -> Seq<char>;

/// Whether `needle` occurs as a contiguous subsequence of `hay`.
pub open spec fn contains_seq(hay: Seq<char>, needle: Seq<char>) -> bool {
    exists|i: int|
        0 <= i && i + needle.len() <= hay.len() && #[trigger] hay.subrange(i, i + needle.len())
            == needle
}

/// Whether a task matches the text query: an empty query matches everything,
/// otherwise the lowercased query must occur in the lowercased title or in
/// the lowercased description.
pub open spec fn search_matches(t: Task, query: Seq<char>) -> bool {
    ||| query.len() == 0
    ||| contains_seq(lower_of(t.title@), lower_of(query))
    ||| contains_seq(lower_of(t.description@), lower_of(query))
}

/// Whether a task is visible under the criteria: with the switch off, always;
/// with it on, every set field must match and the query must be found.
pub open spec fn task_passes(t: Task, c: FilterCriteria) -> bool {
    ||| !c.active
    ||| {
        &&& (c.status_filter is None || t.status == c.status_filter.unwrap())
        &&& (c.priority_filter is None || t.priority == c.priority_filter.unwrap())
        &&& search_matches(t, c.search_query@)
    }
}

/// The store indices below `n` whose tasks pass the filter, in store order.
pub open spec fn visible_of(tasks: Seq<Task>, c: FilterCriteria, n: int) -> Seq<int>
    decreases n,
{
    if n <= 0 {
        Seq::empty()
    } else {
        visible_of(tasks, c, n - 1) + if task_passes(tasks[n - 1], c) {
            seq![n - 1]
        } else {
            Seq::empty()
        }
    }
}

/// The visible subset of the store: passing store indices, in store order.
pub open spec fn spec_visible(tasks: Seq<Task>, c: FilterCriteria) -> Seq<int> {
    visible_of(tasks, c, tasks.len() as int)
}

/// Every entry of the visible subset is a store index below `n`, the entries
/// are strictly increasing, and an index is listed exactly when its task
/// passes the filter.
pub proof fn lemma_visible_of_props(tasks: Seq<Task>, c: FilterCriteria, n: int)
    requires
        n <= tasks.len(),
    ensures
        forall|k: int|
            0 <= k < visible_of(tasks, c, n).len() ==> 0 <= #[trigger] visible_of(tasks, c, n)[k]
                < n,
        forall|k1: int, k2: int|
            0 <= k1 < k2 < visible_of(tasks, c, n).len() ==> visible_of(tasks, c, n)[k1] < visible_of(
                tasks,
                c,
                n,
            )[k2],
        forall|k: int|
            0 <= k < visible_of(tasks, c, n).len() ==> task_passes(
                tasks[visible_of(tasks, c, n)[k]],
                c,
            ),
        forall|i: int| 0 <= i < n && task_passes(tasks[i], c) ==> visible_of(tasks, c, n).contains(i),
    decreases n,
{
    if n > 0 {
        lemma_visible_of_props(tasks, c, n - 1);
        let prev = visible_of(tasks, c, n - 1);
        let cur = visible_of(tasks, c, n);
        assert forall|i: int| 0 <= i < n && task_passes(tasks[i], c) implies cur.contains(i) by {
            if i < n - 1 {
                assert(prev.contains(i));
                let k = choose|k: int| 0 <= k < prev.len() && prev[k] == i;
                assert(prev[k] == i);
                assert(cur[k] == i);
            } else {
                assert(cur[cur.len() - 1] == i);
            }
        }
    }
}

/// With the filter switch off, the visible subset is the whole store in store
/// order, whatever the other criteria fields hold.
pub proof fn lemma_inactive_shows_all(tasks: Seq<Task>, c: FilterCriteria)
    requires
        !c.active,
    ensures
        spec_visible(tasks, c) =~= Seq::new(tasks.len() as nat, |i: int| i),
{
    lemma_inactive_prefix(tasks, c, tasks.len() as int);
}

proof fn lemma_inactive_prefix(tasks: Seq<Task>, c: FilterCriteria, n: int)
    requires
        !c.active,
        n <= tasks.len(),
    ensures
        visible_of(tasks, c, n) =~= Seq::new(if n <= 0 {
            0
        } else {
            n as nat
        }, |i: int| i),
    decreases n,
{
    if n > 0 {
        lemma_inactive_prefix(tasks, c, n - 1);
    }
}

/// Relies on str::to_lowercase: the result depends on the characters alone,
/// and an empty string lowercases to an empty string.
#[verifier::external_body]
fn to_lowercase(s: &str) -> (r: String)
    ensures
        r@ == lower_of(s@),
        s@.len() == 0 ==> r@.len() == 0,
{
    s.to_lowercase()
}

/// Relies on str::contains with a &str pattern: true exactly when the needle
/// occurs as a contiguous substring of the haystack.
#[verifier::external_body]
fn contains_str(hay: &str, needle: &str) -> (r: bool)
    ensures
        r == contains_seq(hay@, needle@),
{
    hay.contains(needle)
}

/// Whether one task passes the criteria.
pub fn passes(t: &Task, c: &FilterCriteria) -> (r: bool)
    ensures
        r == task_passes(*t, *c),
{
    if !c.active {
        return true;
    }
    let status_ok = match c.status_filter {
        None => true,
        Some(sf) => t.status == sf,
    };
    let priority_ok = match c.priority_filter {
        None => true,
        Some(pf) => t.priority == pf,
    };
    let search_ok = if c.search_query.as_str().is_empty() {
        true
    } else {
        let q = to_lowercase(c.search_query.as_str());
        let lowered_title = to_lowercase(t.title.as_str());
        if contains_str(lowered_title.as_str(), q.as_str()) {
            true
        } else {
            let lowered_description = to_lowercase(t.description.as_str());
            contains_str(lowered_description.as_str(), q.as_str())
        }
    };
    status_ok && priority_ok && search_ok
}

/// The indices of the tasks that pass the criteria, in store order.
pub fn visible_indices(tasks: &Vec<Task>, c: &FilterCriteria) -> (r: Vec<usize>)
    ensures
        r@.map_values(|u: usize| u as int) == spec_visible(tasks@, *c),
        r@.len() == spec_visible(tasks@, *c).len(),
        forall|k: int|
            0 <= k < r@.len() ==> r@[k] as int == spec_visible(tasks@, *c)[k] && r@[k] < tasks@.len(),
{
    let mut r: Vec<usize> = Vec::new();
    let mut i: usize = 0;
    while i < tasks.len()
        invariant
            i <= tasks.len(),
            r@.map_values(|u: usize| u as int) =~= visible_of(tasks@, *c, i as int),
            forall|k: int| 0 <= k < r@.len() ==> r@[k] < i,
        decreases tasks.len() - i,
    {
        if passes(&tasks[i], c) {
            r.push(i);
        }
        i += 1;
        assert(r@.map_values(|u: usize| u as int) =~= visible_of(tasks@, *c, i as int));
    }
    r
}

} // verus!
