//! A schedulable, persisted unit of work: a target url, the pipeline to
//! run (held in memory only), and status and retry bookkeeping.

use vstd::prelude::*;
use crate::graph::Graph;
use crate::nodes::Node;
use crate::strutil::str_eq;

verus! {

/// The lifecycle states of a task.
#[derive(Debug, Clone, Copy, PartialEq, Eq, Structural)]
pub enum TaskStatus {
    Pending,
    Running,
    Success,
    Failed,
}

/// The text form a status is persisted under.
pub open spec fn status_text(s: TaskStatus) -> Seq<char> {
    match s {
        TaskStatus::Pending => "Pending"@,
        TaskStatus::Running => "Running"@,
        TaskStatus::Success => "Success"@,
        TaskStatus::Failed => "Failed"@,
    }
}

/// The status a text form denotes; anything unknown reads as `Pending`.
pub open spec fn status_of_text(t: Seq<char>) -> TaskStatus {
    if t == "Running"@ {
        TaskStatus::Running
    } else if t == "Success"@ {
        TaskStatus::Success
    } else if t == "Failed"@ {
        TaskStatus::Failed
    } else {
        TaskStatus::Pending
    }
}

impl TaskStatus {
    /// The text form this status is persisted under.
    pub fn as_text(&self) -> (r: &'static str)
        ensures
            r@ == status_text(*self),
    {
        match self {
            TaskStatus::Pending => "Pending",
            TaskStatus::Running => "Running",
            TaskStatus::Success => "Success",
            TaskStatus::Failed => "Failed",
        }
    }

    /// Reads a persisted text form back; unknown text reads as
    /// `Pending`.
    pub fn parse_text(t: &str) -> (r: TaskStatus)
        ensures
            r == status_of_text(t@),
    {
        if str_eq(t, "Running") {
            TaskStatus::Running
        } else if str_eq(t, "Success") {
            TaskStatus::Success
        } else if str_eq(t, "Failed") {
            TaskStatus::Failed
        } else {
            TaskStatus::Pending
        }
    }
}

/// Relies on `uuid::Uuid::new_v4` and its hyphenated display form: a
/// fresh random identifier, 36 characters long as documented.  Nothing
/// else can be promised of a random value.
#[verifier::external_body]
fn fresh_task_id() -> (r: String)
    ensures
        r@.len() == 36,
{
    uuid::Uuid::new_v4().to_string()
}

/// Relies on `chrono::Utc::now` and `DateTime::to_rfc3339`: the current
/// time in RFC 3339 text.  The value depends on the clock, so nothing
/// is promised of it.
#[verifier::external_body]
pub(crate) fn now_rfc3339() -> (r: String)
{
    chrono::Utc::now().to_rfc3339()
}

/// A schedulable unit referencing a target url and, in memory only, the
/// pipeline to run.
#[derive(Debug)]
pub struct Task {
    pub id: String,
    pub url: String,
    pub status: TaskStatus,
    pub retry_count: u32,
    pub max_retries: u32,
    pub result: Option<String>,
    pub error: Option<String>,
    pub created_at: String,
    pub updated_at: String,
    /// Never persisted; lost when the process ends.
    pub graph: Option<Graph>,
}

/// The spec-level shape of a [`Task`].
#[verifier::ext_equal]
pub struct TaskView {
    pub id: Seq<char>,
    pub url: Seq<char>,
    pub status: TaskStatus,
    pub retry_count: u32,
    pub max_retries: u32,
    pub result: Option<Seq<char>>,
    pub error: Option<Seq<char>>,
    pub created_at: Seq<char>,
    pub updated_at: Seq<char>,
    pub graph: Option<Seq<Node>>,
}

impl View for Task {
    type V = TaskView;

    open spec fn view(&self) -> TaskView {
        TaskView {
            id: self.id@,
            url: self.url@,
            status: self.status,
            retry_count: self.retry_count,
            max_retries: self.max_retries,
            result: self.result.deep_view(),
            error: self.error.deep_view(),
            created_at: self.created_at@,
            updated_at: self.updated_at@,
            graph: match &self.graph {
                Some(g) => Some(g@),
                None => None,
            },
        }
    }
}

impl Task {
    /// A fresh task for the url and pipeline: pending, with an empty
    /// retry count, a budget of three retries, no result or error, a
    /// fresh random id, and both timestamps set to the same moment.
    pub fn new(url: String, graph: Graph) -> (r: Self)
        ensures
            r@.url == url@,
            r@.status == TaskStatus::Pending,
            r@.retry_count == 0,
            r@.max_retries == 3,
            r@.result is None,
            r@.error is None,
            r@.created_at == r@.updated_at,
            r@.graph == Some(graph@),
            r@.id.len() == 36,
    {
        let now = now_rfc3339();
        let now2 = now.clone();
        Task {
            id: fresh_task_id(),
            url,
            status: TaskStatus::Pending,
            retry_count: 0,
            max_retries: 3,
            result: None,
            error: None,
            created_at: now,
            updated_at: now2,
            graph: Some(graph),
        }
    }

    /// The task with another retry budget.
    pub fn with_max_retries(self, max_retries: u32) -> (r: Self)
        ensures
            r@ == (TaskView { max_retries, ..self@ }),
    {
        Task { max_retries, ..self }
    }

    /// Whether another run is due: the task failed and its budget is
    /// not exhausted.
    pub fn should_retry(&self) -> (r: bool)
        ensures
            r == (self@.status == TaskStatus::Failed && self@.retry_count < self@.max_retries),
    {
        self.status == TaskStatus::Failed && self.retry_count < self.max_retries
    }
}

} // verus!
