//! The orchestrator: submits tasks, runs their pipelines, persists
//! every status transition, and retries failures until the budget is
//! exhausted.
//!
//! The executor owns the store and a process-local registry mapping
//! task id to pipeline; the registry is never persisted, so a task
//! submitted before a restart can no longer be executed afterwards and
//! fails cleanly.

use vstd::prelude::*;
use vstd::string::StringExecFns;
use crate::error::{LuminaError, ErrorView, message_view};
use crate::effects::EffectDriver;
use crate::graph::{Graph, run_spec, all_pure, some_run};
use crate::json::render_extracted;
use crate::nodes::Node;
use crate::store::{
    TaskStore, row_lookup, row_upsert, merge_row, proj_row, rows_with_status, sort_desc,
    lemma_row_upsert_same, lemma_row_upsert_other, lemma_row_lookup_id,
};
use crate::strmap::{lookup, lemma_lookup_skip};
use crate::strutil::str_eq;
use crate::task::{Task, TaskView, TaskStatus};

verus! {

/// The larger of two retry counters.
pub open spec fn counter_max(a: u32, b: u32) -> u32 {
    if a >= b {
        a
    } else {
        b
    }
}

/// The spec-level shape of a [`TaskExecutor`]: the stored rows and the
/// id-to-pipeline registry in insertion order.
#[verifier::ext_equal]
pub struct ExecutorView {
    pub store: Seq<TaskView>,
    pub graphs: Seq<(Seq<char>, Seq<Node>)>,
}

/// Orchestrates task submission, execution, persistence and retry.
#[derive(Debug)]
pub struct TaskExecutor {
    store: TaskStore,
    graphs: Vec<(String, Graph)>,
}

impl View for TaskExecutor {
    type V = ExecutorView;

    closed spec fn view(&self) -> ExecutorView {
        ExecutorView {
            store: self.store@,
            graphs: Seq::new(self.graphs@.len(), |i: int| (self.graphs@[i].0@, self.graphs@[i].1@)),
        }
    }
}

impl TaskExecutor {
    /// An executor over an empty store and an empty registry.
    pub fn new() -> (r: Self)
        ensures
            r@.store == Seq::<TaskView>::empty(),
            r@.graphs == Seq::<(Seq<char>, Seq<Node>)>::empty(),
    {
        let r = TaskExecutor { store: TaskStore::new(), graphs: Vec::new() };
        proof {
            assert(r@.graphs =~= Seq::<(Seq<char>, Seq<Node>)>::empty());
        }
        r
    }

    /// Accepts a task: its pipeline moves into the registry under the
    /// task's id, its status becomes pending, its projection is
    /// persisted, and its id is returned.
    pub fn submit(&mut self, task: Task) -> (r: Result<String, LuminaError>)
        ensures
            r matches Ok(id) && id@ == task@.id,
            final(self)@.store == row_upsert(
                old(self)@.store,
                TaskView { status: TaskStatus::Pending, ..task@ },
            ),
            final(self)@.graphs == (match task@.graph {
                Some(g) => old(self)@.graphs.push((task@.id, g)),
                None => old(self)@.graphs,
            }),
    {
        let Task {
            id,
            url,
            status: _,
            retry_count,
            max_retries,
            result,
            error,
            created_at,
            updated_at,
            graph,
        } = task;
        match graph {
            Some(g) => {
                self.graphs.push((id.clone(), g));
                proof {
                    assert(self@.graphs =~= old(self)@.graphs.push(
                        (task@.id, task@.graph->Some_0),
                    ));
                }
            },
            None => {
                proof {
                    assert(self@.graphs =~= old(self)@.graphs);
                }
            },
        }
        let row = Task {
            id: id.clone(),
            url,
            status: TaskStatus::Pending,
            retry_count,
            max_retries,
            result,
            error,
            created_at,
            updated_at,
            graph: None,
        };
        let saved = self.store.save(&row);
        match saved {
            Ok(_) => {},
            Err(e) => {
                return Err(e);
            },
        }
        proof {
            assert(row@ =~= (TaskView { status: TaskStatus::Pending, graph: None, ..task@ }));
            assert(row_upsert(old(self)@.store, row@) == row_upsert(
                old(self)@.store,
                TaskView { status: TaskStatus::Pending, ..task@ },
            )) by {
                lemma_row_upsert_graph_blind(
                    old(self)@.store,
                    row@,
                    TaskView { status: TaskStatus::Pending, ..task@ },
                );
            }
        }
        Ok(id)
    }

    /// Read-only lookup of a task's stored projection.
    pub fn get_task(&self, task_id: &str) -> (r: Result<Option<Task>, LuminaError>)
        ensures
            r is Ok,
            match row_lookup(self@.store, task_id@) {
                Some(row) => r matches Ok(o) && o matches Some(t) && t@ == proj_row(row),
                None => r == Ok::<Option<Task>, LuminaError>(None),
            },
    {
        self.store.get(task_id)
    }

    /// Read-only listing of the stored projections holding a status,
    /// newest first.
    pub fn list_tasks(&self, status: TaskStatus) -> (r: Result<Vec<Task>, LuminaError>)
        ensures
            r matches Ok(out) && Seq::new(out@.len(), |i: int| out@[i]@) == sort_desc(
                rows_with_status(self@.store, status),
            ),
    {
        self.store.list_by_status(status)
    }

    /// Runs the task's pipeline and persists every transition.  An
    /// unknown id or a pipeline lost to a restart fails cleanly and
    /// changes nothing.  Otherwise the task goes through running to
    /// success or failure; a failure within budget is retried at once,
    /// and the retry counter never passes the budget.  Rows of other
    /// ids are untouched.  For a pipeline of pure stages the final row
    /// is pinned exactly by the spec-level run.
    pub fn execute<D: EffectDriver>(&mut self, task_id: &str, driver: &mut D) -> (r: Result<
        (),
        LuminaError,
    >)
        ensures
            final(self)@.graphs == old(self)@.graphs,
            forall|id2: Seq<char>|
                id2 != task_id@ ==> row_lookup(final(self)@.store, id2) == row_lookup(
                    old(self)@.store,
                    id2,
                ),
            match row_lookup(old(self)@.store, task_id@) {
                None => r matches Err(e) && e@ == ErrorView::Node("Task not found"@)
                    && final(self)@ == old(self)@,
                Some(row0) => match lookup(old(self)@.graphs, task_id@) {
                    None => r matches Err(e) && e@ == ErrorView::Node("Task graph not found"@)
                        && final(self)@ == old(self)@,
                    Some(gnodes) => {
                        &&& r is Ok
                        &&& row_lookup(final(self)@.store, task_id@) matches Some(row) && {
                            &&& row.id == row0.id
                            &&& row.url == row0.url
                            &&& row.created_at == row0.created_at
                            &&& row.max_retries == row0.max_retries
                            &&& (row.status == TaskStatus::Success || row.status
                                == TaskStatus::Failed)
                            &&& (row.status == TaskStatus::Success ==> row.error is None
                                && row.result is Some)
                            &&& (row.status == TaskStatus::Failed ==> row.error is Some
                                && row.retry_count == counter_max(
                                row0.retry_count,
                                row0.max_retries,
                            ))
                            &&& row0.retry_count <= row.retry_count <= counter_max(
                                row0.retry_count,
                                row0.max_retries,
                            )
                            &&& (all_pure(gnodes) ==> match run_spec(
                                gnodes,
                                row0.url,
                                Seq::empty(),
                            ) {
                                Ok(rec) => row.status == TaskStatus::Success && row.retry_count
                                    == row0.retry_count && row.result == Some(
                                    crate::json::render_object(rec.extracted),
                                ) && row.error is None,
                                Err(e) => row.status == TaskStatus::Failed && row.error == Some(
                                    message_view(e),
                                ),
                            })
                        }
                    },
                },
            },
    {
        let loaded = match self.store.get(task_id) {
            Ok(Some(t)) => t,
            Ok(None) => {
                return Err(LuminaError::NodeError(String::from_str("Task not found")));
            },
            Err(e) => {
                return Err(e);
            },
        };
        let ghost row0 = row_lookup(old(self)@.store, task_id@)->Some_0;
        let gi = match self.find_graph(task_id) {
            Some(i) => i,
            None => {
                return Err(LuminaError::NodeError(String::from_str("Task graph not found")));
            },
        };
        let ghost gnodes = lookup(old(self)@.graphs, task_id@)->Some_0;
        let ghost pure = all_pure(gnodes);
        let ghost prun = run_spec(gnodes, row0.url, Seq::<crate::effects::StageEvent>::empty());
        let mut current = loaded;
        proof {
            assert(current@ =~= proj_row(row0));
            lemma_row_lookup_id(old(self)@.store, task_id@);
            assert(row0.id == task_id@);
        }
        proof {
            assert(self@.graphs[gi as int].1 == gnodes);
        }
        loop
            invariant_except_break
                self@.graphs == old(self)@.graphs,
                gi < self.graphs@.len(),
                self@.graphs[gi as int] == (task_id@, gnodes),
                gnodes == lookup(old(self)@.graphs, task_id@)->Some_0,
                row0 == row_lookup(old(self)@.store, task_id@)->Some_0,
                row_lookup(old(self)@.store, task_id@) is Some,
                pure == all_pure(gnodes),
                prun == run_spec(gnodes, row0.url, Seq::<crate::effects::StageEvent>::empty()),
                current@.id == task_id@,
                current@.url == row0.url,
                current@.created_at == row0.created_at,
                current@.max_retries == row0.max_retries,
                row0.retry_count <= current@.retry_count,
                current@.retry_count <= counter_max(row0.retry_count, row0.max_retries),
                pure && prun is Ok ==> current@.retry_count == row0.retry_count,
                forall|id2: Seq<char>|
                    id2 != task_id@ ==> row_lookup(self@.store, id2) == row_lookup(
                        old(self)@.store,
                        id2,
                    ),
                row_lookup(self@.store, task_id@) matches Some(row) && row.id == row0.id
                    && row.url == row0.url && row.created_at == row0.created_at
                    && row.max_retries == row0.max_retries,
            ensures
                self@.graphs == old(self)@.graphs,
                forall|id2: Seq<char>|
                    id2 != task_id@ ==> row_lookup(self@.store, id2) == row_lookup(
                        old(self)@.store,
                        id2,
                    ),
                current@.status == TaskStatus::Success || current@.status == TaskStatus::Failed,
                current@.status == TaskStatus::Success ==> current@.error is None
                    && current@.result is Some,
                current@.status == TaskStatus::Failed ==> current@.error is Some
                    && current@.retry_count == counter_max(row0.retry_count, row0.max_retries),
                row0.retry_count <= current@.retry_count <= counter_max(
                    row0.retry_count,
                    row0.max_retries,
                ),
                pure ==> match prun {
                    Ok(rec) => current@.status == TaskStatus::Success && current@.retry_count
                        == row0.retry_count && current@.result == Some(
                        crate::json::render_object(rec.extracted),
                    ) && current@.error is None,
                    Err(e) => current@.status == TaskStatus::Failed && current@.error == Some(
                        message_view(e),
                    ),
                },
                row_lookup(self@.store, task_id@) matches Some(row) && row.id == row0.id
                    && row.url == row0.url && row.created_at == row0.created_at
                    && row.max_retries == row0.max_retries && row.status == current@.status
                    && row.retry_count == current@.retry_count && row.result == current@.result
                    && row.error == current@.error,
            decreases current.max_retries as int - current.retry_count as int + 1,
        {
            current.status = TaskStatus::Running;
            current.updated_at = crate::task::now_rfc3339();
            let ghost spre = self@.store;
            let saved = self.store.save(&current);
            proof {
                lemma_row_upsert_same(spre, current@);
                assert forall|id2: Seq<char>| id2 != task_id@ implies row_lookup(
                    self@.store,
                    id2,
                ) == row_lookup(old(self)@.store, id2) by {
                    lemma_row_upsert_other(spre, current@, id2);
                }
            }
            let outcome = self.graphs[gi].1.execute(current.url.clone(), driver);
            proof {
                if pure {
                    assert(crate::nodes::step_view(outcome) == prun);
                }
            }
            match outcome {
                Ok(rec) => {
                    current.status = TaskStatus::Success;
                    current.result = Some(render_extracted(&rec.extracted));
                    current.error = None;
                },
                Err(e) => {
                    current.status = TaskStatus::Failed;
                    current.error = Some(e.message());
                    if current.retry_count < current.max_retries {
                        current.retry_count = current.retry_count + 1;
                    }
                },
            }
            current.updated_at = crate::task::now_rfc3339();
            let ghost spre2 = self@.store;
            let saved2 = self.store.save(&current);
            proof {
                lemma_row_upsert_same(spre2, current@);
                assert forall|id2: Seq<char>| id2 != task_id@ implies row_lookup(
                    self@.store,
                    id2,
                ) == row_lookup(old(self)@.store, id2) by {
                    lemma_row_upsert_other(spre2, current@, id2);
                }
            }
            if !current.should_retry() {
                break ;
            }
        }
        Ok(())
    }

    /// The registry position of a task's pipeline, if it is known.
    fn find_graph(&self, task_id: &str) -> (r: Option<usize>)
        ensures
            match r {
                Some(i) => i < self@.graphs.len() && self@.graphs[i as int].0 == task_id@
                    && lookup(self@.graphs, task_id@) == Some(self@.graphs[i as int].1),
                None => lookup(self@.graphs, task_id@) is None,
            },
    {
        let n = self.graphs.len();
        let mut i: usize = 0;
        while i < n
            invariant
                i <= n,
                n == self.graphs@.len(),
                forall|j: int| 0 <= j < i ==> self@.graphs[j].0 != task_id@,
            decreases n - i,
        {
            if str_eq(self.graphs[i].0.as_str(), task_id) {
                proof {
                    lemma_lookup_skip(self@.graphs, task_id@, i as int);
                    assert(self@.graphs.skip(i as int)[0] == self@.graphs[i as int]);
                }
                return Some(i);
            }
            i += 1;
        }
        proof {
            lemma_lookup_skip(self@.graphs, task_id@, n as int);
        }
        None
    }
}

/// The submission law: a submit followed immediately by a lookup of the
/// returned id shows the task pending with its retry count unchanged.
pub proof fn lemma_submit_then_get(rows: Seq<TaskView>, t: TaskView)
    ensures
        row_lookup(
            row_upsert(rows, TaskView { status: TaskStatus::Pending, ..t }),
            t.id,
        ) matches Some(row) && row.status == TaskStatus::Pending && row.retry_count
            == t.retry_count,
{
    lemma_row_upsert_same(rows, TaskView { status: TaskStatus::Pending, ..t });
}

/// An upsert does not read the incoming task's pipeline field.
proof fn lemma_row_upsert_graph_blind(rows: Seq<TaskView>, a: TaskView, b: TaskView)
    requires
        a == (TaskView { graph: a.graph, ..b }),
    ensures
        row_upsert(rows, a) == row_upsert(rows, b),
    decreases rows.len(),
{
    if rows.len() == 0 {
        assert(proj_row(a) =~= proj_row(b));
        assert(row_upsert(rows, a) =~= row_upsert(rows, b));
    } else if rows[0].id == a.id {
        assert(merge_row(rows[0], a) =~= merge_row(rows[0], b));
        assert(row_upsert(rows, a) =~= row_upsert(rows, b));
    } else {
        lemma_row_upsert_graph_blind(rows.skip(1), a, b);
        assert(row_upsert(rows, a) =~= row_upsert(rows, b));
    }
}

} // verus!
