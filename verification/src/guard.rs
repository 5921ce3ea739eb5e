//! Per-task mutual exclusion.
//!
//! The host's cooperative scheduling lets a new top-level trigger start
//! while an earlier invocation of the same task is parked at an outbound
//! call. Each long-running task therefore takes a guard on its tag before
//! touching the cursor or the log maps, and releases it on every exit path.
use vstd::prelude::*;
use crate::state::State;

verus! {

/// Tag of a long-running task; at most one holder per tag.
#[derive(Debug, Clone, Copy, PartialEq, Eq, Hash, Structural)]
pub enum TaskType {
    ProcessLogs,
    ScrapeLogs,
    ExecuteJobs,
}

/// The set of task tags currently in flight.
#[derive(Debug, Clone, Copy, PartialEq, Eq, Structural)]
pub struct TaskSet {
    pub scrape_logs: bool,
    pub process_logs: bool,
    pub execute_jobs: bool,
}

impl TaskSet {
    /// Membership of a tag in the set.
    pub open spec fn spec_contains(&self, task: TaskType) -> bool {
        match task {
            TaskType::ScrapeLogs => self.scrape_logs,
            TaskType::ProcessLogs => self.process_logs,
            TaskType::ExecuteJobs => self.execute_jobs,
        }
    }

    /// The set with `task` present or absent as `held` says, all other
    /// tags unchanged.
    pub open spec fn spec_with(&self, task: TaskType, held: bool) -> TaskSet {
        match task {
            TaskType::ScrapeLogs => TaskSet { scrape_logs: held, ..*self },
            TaskType::ProcessLogs => TaskSet { process_logs: held, ..*self },
            TaskType::ExecuteJobs => TaskSet { execute_jobs: held, ..*self },
        }
    }

    /// The empty set: no task in flight.
    pub fn new() -> (r: TaskSet)
        ensures
            forall|t: TaskType| !r.spec_contains(t),
    {
        TaskSet { scrape_logs: false, process_logs: false, execute_jobs: false }
    }

    /// Decides whether `task` is in flight.
    pub fn contains(&self, task: TaskType) -> (r: bool)
        ensures
            r == self.spec_contains(task),
    {
        match task {
            TaskType::ScrapeLogs => self.scrape_logs,
            TaskType::ProcessLogs => self.process_logs,
            TaskType::ExecuteJobs => self.execute_jobs,
        }
    }

    /// Marks `task` as in flight.
    pub fn insert(&mut self, task: TaskType)
        ensures
            *final(self) == old(self).spec_with(task, true),
    {
        match task {
            TaskType::ScrapeLogs => self.scrape_logs = true,
            TaskType::ProcessLogs => self.process_logs = true,
            TaskType::ExecuteJobs => self.execute_jobs = true,
        }
    }

    /// Marks `task` as no longer in flight.
    pub fn remove(&mut self, task: TaskType)
        ensures
            *final(self) == old(self).spec_with(task, false),
    {
        match task {
            TaskType::ScrapeLogs => self.scrape_logs = false,
            TaskType::ProcessLogs => self.process_logs = false,
            TaskType::ExecuteJobs => self.execute_jobs = false,
        }
    }
}

/// Acquisition failed: the tag is already held.
#[derive(Debug, Clone, Copy, PartialEq, Eq, Structural)]
pub enum TimerGuardError {
    AlreadyProcessing,
}

/// Witness that one task tag is held. Obtained from `TimerGuard::new` and
/// handed back through `release`; the holder must call `release` on every
/// exit path, normal or not.
#[derive(Debug, PartialEq, Eq, Structural)]
pub struct TimerGuard {
    pub task: TaskType,
}

impl TimerGuard {
    /// Acquires the guard for `task`: fails with `AlreadyProcessing`
    /// exactly when `task` is already held, and otherwise marks it held,
    /// leaving every other part of the state unchanged.
    pub fn new(s: &mut State, task: TaskType) -> (r: Result<TimerGuard, TimerGuardError>)
        ensures
            r is Err <==> old(s).active_tasks.spec_contains(task),
            r is Err ==> *final(s) == *old(s) && r->Err_0 == TimerGuardError::AlreadyProcessing,
            r is Ok ==> r->Ok_0.task == task && *final(s) == (State {
                active_tasks: old(s).active_tasks.spec_with(task, true),
                ..*old(s)
            }),
    {
        if s.active_tasks.contains(task) {
            Err(TimerGuardError::AlreadyProcessing)
        } else {
            s.active_tasks.insert(task);
            Ok(TimerGuard { task })
        }
    }

    /// Releases the guard: its tag is no longer held, every other part of
    /// the state is unchanged.
    pub fn release(self, s: &mut State)
        ensures
            *final(s) == (State {
                active_tasks: old(s).active_tasks.spec_with(self.task, false),
                ..*old(s)
            }),
    {
        s.active_tasks.remove(self.task);
    }
}

/// A tag can be acquired exactly when it is not held: acquisition fails
/// while a holder exists, and succeeds immediately after any release of
/// the tag — including a release done on a holder's failure path — while
/// guards on different tags never exclude one another.
pub proof fn lemma_guard_exclusion(s: TaskSet, t1: TaskType, t2: TaskType)
    ensures
        s.spec_with(t1, true).spec_contains(t1),
        !s.spec_with(t1, false).spec_contains(t1),
        t1 != t2 ==> s.spec_with(t1, true).spec_contains(t2) == s.spec_contains(t2),
        t1 != t2 ==> s.spec_with(t1, false).spec_contains(t2) == s.spec_contains(t2),
{
}

} // verus!
