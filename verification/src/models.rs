//! The task data model: statuses, priorities, and the task record itself.

use vstd::prelude::*;

verus! {

/// The three kanban columns a task can sit in.
#[derive(Clone, Copy, Debug, PartialEq, Eq, Structural)]
pub enum TaskStatus {
    Todo,
    InProgress,
    Done,
}

/// Task urgency, totally ordered: Low < Medium < High < Critical.
#[derive(Clone, Copy, Debug, PartialEq, Eq, Structural)]
pub enum TaskPriority {
    Low,
    Medium,
    High,
    Critical,
}

/// The successor of a status in the fixed cycle Todo -> InProgress -> Done -> Todo.
pub open spec fn spec_next_status(s: TaskStatus) -> TaskStatus {
    match s {
        TaskStatus::Todo => TaskStatus::InProgress,
        TaskStatus::InProgress => TaskStatus::Done,
        TaskStatus::Done => TaskStatus::Todo,
    }
}

/// The predecessor of a status in the fixed cycle.
pub open spec fn spec_previous_status(s: TaskStatus) -> TaskStatus {
    match s {
        TaskStatus::Todo => TaskStatus::Done,
        TaskStatus::InProgress => TaskStatus::Todo,
        TaskStatus::Done => TaskStatus::InProgress,
    }
}

/// Advances a status one step along the cycle Todo -> InProgress -> Done -> Todo.
pub fn next_status(s: TaskStatus) -> (r: TaskStatus)
    ensures
        r == spec_next_status(s),
{
    match s {
        TaskStatus::Todo => TaskStatus::InProgress,
        TaskStatus::InProgress => TaskStatus::Done,
        TaskStatus::Done => TaskStatus::Todo,
    }
}

/// Steps a status one step backwards along the cycle.
pub fn previous_status(s: TaskStatus) -> (r: TaskStatus)
    ensures
        r == spec_previous_status(s),
{
    match s {
        TaskStatus::Todo => TaskStatus::Done,
        TaskStatus::InProgress => TaskStatus::Todo,
        TaskStatus::Done => TaskStatus::InProgress,
    }
}

/// The status cycle closes after exactly three steps: advancing a status
/// three times returns it to where it started.
pub proof fn lemma_status_cycle_closes(s: TaskStatus)
    ensures
        spec_next_status(spec_next_status(spec_next_status(s))) == s,
{
}

/// Stepping backwards undoes stepping forwards, and vice versa.
pub proof fn lemma_status_cycle_inverse(s: TaskStatus)
    ensures
        spec_previous_status(spec_next_status(s)) == s,
        spec_next_status(spec_previous_status(s)) == s,
{
}

/// The rank of a priority in the total order Low < Medium < High < Critical.
pub open spec fn spec_rank(p: TaskPriority) -> int {
    match p {
        TaskPriority::Low => 1,
        TaskPriority::Medium => 2,
        TaskPriority::High => 3,
        TaskPriority::Critical => 4,
    }
}

/// The numeric rank of a priority; higher means more urgent.
pub fn priority_rank(p: TaskPriority) -> (r: u8)
    ensures
        r as int == spec_rank(p),
{
    match p {
        TaskPriority::Low => 1,
        TaskPriority::Medium => 2,
        TaskPriority::High => 3,
        TaskPriority::Critical => 4,
    }
}

/// A task record. The `id` is assigned once at creation and is the only key
/// used to find the task again after the visible view has been filtered or
/// reordered. Timestamps are non-leap seconds since the Unix epoch.
pub struct Task {
    pub id: String,
    pub title: String,
    pub description: String,
    pub status: TaskStatus,
    pub priority: TaskPriority,
    pub created_at: i64,
    pub due_date: Option<i64>,
    pub tags: Vec<String>,
}

/// Relies on uuid::Uuid::new_v4 and uuid's Display impl: a fresh random
/// identifier rendered in the 36-character hyphenated form. The value is
/// random, so nothing beyond its length is promised.
#[verifier::external_body]
fn fresh_task_id() -> (r: String)
    ensures
        r@.len() == 36,
{
    uuid::Uuid::new_v4().to_string()
}

/// Relies on chrono::Utc::now and DateTime::timestamp: the system clock as
/// non-leap seconds since the Unix epoch. The value depends on when the call
/// is made, so nothing is promised of it.
#[verifier::external_body]
fn current_timestamp() -> i64 {
    chrono::Utc::now().timestamp()
}

/// Whether a task is past its due date at the given time. A task with no
/// due date, or one already done, is never overdue.
pub open spec fn spec_overdue_at(t: Task, now: i64) -> bool {
    match t.due_date {
        Some(d) => d < now && t.status != TaskStatus::Done,
        None => false,
    }
}

impl Task {
    /// Creates a task with a fresh identifier, the current time as its
    /// creation time, no due date and no tags.
    pub fn new(title: &str, description: &str, status: TaskStatus, priority: TaskPriority) -> (t:
        Task)
        ensures
            t.title@ == title@,
            t.description@ == description@,
            t.status == status,
            t.priority == priority,
            t.due_date is None,
            t.tags@ == Seq::<String>::empty(),
            t.id@.len() == 36,
    {
        Task {
            id: fresh_task_id(),
            title: title.to_owned(),
            description: description.to_owned(),
            status,
            priority,
            created_at: current_timestamp(),
            due_date: None,
            tags: Vec::new(),
        }
    }

    /// Whether the task is past `now`, a timestamp in seconds.
    pub fn is_overdue_at(&self, now: i64) -> (r: bool)
        ensures
            r == spec_overdue_at(*self, now),
    {
        match self.due_date {
            Some(d) => d < now && self.status != TaskStatus::Done,
            None => false,
        }
    }

    /// Whether the task is past due right now. Whatever the clock returns,
    /// a task with no due date, or one already done, is never overdue.
    pub fn is_overdue(&self) -> (r: bool)
        ensures
            r ==> self.due_date is Some && self.status != TaskStatus::Done,
    {
        let now = current_timestamp();
        self.is_overdue_at(now)
    }

    /// The hex color associated with the task's priority.
    pub fn priority_color(&self) -> (r: &'static str)
        ensures
            r@ == spec_priority_color(self.priority)@,
    {
        match self.priority {
            TaskPriority::Low => "#72B7F0",
            TaskPriority::Medium => "#70C666",
            TaskPriority::High => "#FF9E3B",
            TaskPriority::Critical => "#FF6369",
        }
    }

    /// The hex color associated with the task's status.
    pub fn status_color(&self) -> (r: &'static str)
        ensures
            r@ == spec_status_color(self.status)@,
    {
        match self.status {
            TaskStatus::Todo => "#72B7F0",
            TaskStatus::InProgress => "#70C666",
            TaskStatus::Done => "#6E7781",
        }
    }
}

/// The display color for each priority.
pub open spec fn spec_priority_color(p: TaskPriority) -> &'static str {
    match p {
        TaskPriority::Low => "#72B7F0",
        TaskPriority::Medium => "#70C666",
        TaskPriority::High => "#FF9E3B",
        TaskPriority::Critical => "#FF6369",
    }
}

/// The display color for each status.
pub open spec fn spec_status_color(s: TaskStatus) -> &'static str {
    match s {
        TaskStatus::Todo => "#72B7F0",
        TaskStatus::InProgress => "#70C666",
        TaskStatus::Done => "#6E7781",
    }
}

} // verus!
