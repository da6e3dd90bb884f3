//! The pool: a fixed number of workers that are started and stopped together.
use vstd::prelude::*;

use crate::backoff::BackoffPolicy;
use crate::job::{Job, JobModel};
use crate::store::{job_model, QueueStore, StoreModel};
use crate::worker::{Worker, WorkerAction, WorkerEvent, WorkerModel, WorkerState};

verus! {

/// The number of workers of a pool made by [`Pool::with_defaults`].
pub const DEFAULT_WORKERS: usize = 2;

/// How a long-running task stands: the pool, or the surface that takes
/// requests.
#[derive(Clone, Copy, Debug, PartialEq, Eq, Structural)]
pub enum TaskStatus {
    /// Still at work.
    Running,
    /// Ended in good order.
    Stopped,
    /// Ended on a fatal error.
    Failed,
}

impl TaskStatus {
    /// Two tasks taken as one: failed as soon as either has failed, stopped
    /// once both have stopped, running otherwise.
    pub open spec fn joined(self, other: TaskStatus) -> TaskStatus {
        if self is Failed || other is Failed {
            TaskStatus::Failed
        } else if self is Stopped && other is Stopped {
            TaskStatus::Stopped
        } else {
            TaskStatus::Running
        }
    }

    /// The status of a process made of the two tasks `self` and `other`,
    /// which lives only as long as neither has failed.
    pub fn join(self, other: TaskStatus) -> (both: TaskStatus)
        ensures
            both == self.joined(other),
    {
        match (self, other) {
            (TaskStatus::Failed, _) | (_, TaskStatus::Failed) => TaskStatus::Failed,
            (TaskStatus::Stopped, TaskStatus::Stopped) => TaskStatus::Stopped,
            _ => TaskStatus::Running,
        }
    }
}

/// Every worker after it was told to stop.
pub open spec fn all_told_to_stop(workers: Seq<WorkerModel>) -> Seq<WorkerModel> {
    Seq::new(workers.len(), |i: int| workers[i].step(WorkerEvent::StopRequested).0)
}

/// Every worker has left its loop.
pub open spec fn all_exited(workers: Seq<WorkerModel>) -> bool {
    forall|i: int| 0 <= i < workers.len() ==> (#[trigger] workers[i]).state.has_exited()
}

/// Some worker has lost the store.
pub open spec fn any_failed(workers: Seq<WorkerModel>) -> bool {
    exists|i: int| 0 <= i < workers.len() && (#[trigger] workers[i]).state is Failed
}

/// The status of a pool of these workers: running until the last worker has
/// left, then failed if any of them lost the store.
pub open spec fn pool_status(workers: Seq<WorkerModel>) -> TaskStatus {
    if !all_exited(workers) {
        TaskStatus::Running
    } else if any_failed(workers) {
        TaskStatus::Failed
    } else {
        TaskStatus::Stopped
    }
}

/// The workers after worker `index` took note of `event`, and what that worker
/// asks for. When it aborts, all the others are told to stop.
pub open spec fn pool_step(workers: Seq<WorkerModel>, index: int, event: WorkerEvent) -> (
    Seq<WorkerModel>,
    WorkerAction,
) {
    let (worker, action) = workers[index].step(event);
    let stepped = workers.update(index, worker);
    if action is Abort {
        (all_told_to_stop(stepped), action)
    } else {
        (stepped, action)
    }
}

/// The workers and the store after the store has done, at `now`, what worker
/// `index` was waiting for, with what that worker asks for next and the job
/// it is to run, if any. When the worker aborts, all the others are told to
/// stop.
pub open spec fn pool_served(workers: Seq<WorkerModel>, index: int, store: StoreModel, now: nat) -> (
    Seq<WorkerModel>,
    StoreModel,
    WorkerAction,
    Option<JobModel>,
) {
    let (worker, after, action, job) = workers[index].served(store, now);
    let stepped = workers.update(index, worker);
    if action is Abort {
        (all_told_to_stop(stepped), after, action, job)
    } else {
        (stepped, after, action, job)
    }
}

/// A stop request reaches every worker: each has noted it or has left, and
/// the idle ones have stopped.
pub proof fn lemma_stop_reaches_every_worker(workers: Seq<WorkerModel>)
    ensures
        all_told_to_stop(workers).len() == workers.len(),
        forall|i: int|
            0 <= i < workers.len() ==> {
                let told = #[trigger] all_told_to_stop(workers)[i];
                &&& told.stopping || told.state.has_exited()
                &&& workers[i].state is Idle ==> told.state is Stopped
            },
{
}

/// The pool is over exactly when its last worker has left, and it has failed
/// exactly when, by then, a worker has lost the store.
pub proof fn lemma_pool_ends_with_last_worker(workers: Seq<WorkerModel>)
    ensures
        pool_status(workers) is Running <==> !all_exited(workers),
        pool_status(workers) is Failed <==> all_exited(workers) && any_failed(workers),
{
}

/// The loss of the store is not passed over: when a worker aborts, it has
/// failed for good, and every other worker has left or been told to stop.
pub proof fn lemma_store_loss_stops_pool(workers: Seq<WorkerModel>, index: int, event: WorkerEvent)
    requires
        0 <= index < workers.len(),
        pool_step(workers, index, event).1 is Abort,
    ensures
        pool_step(workers, index, event).0.len() == workers.len(),
        pool_step(workers, index, event).0[index].state is Failed,
        forall|i: int|
            0 <= i < workers.len() ==> {
                let after = #[trigger] pool_step(workers, index, event).0[i];
                after.stopping || after.state.has_exited()
            },
{
}

/// A fixed set of workers for one kind of job.
pub struct Pool {
    workers: Vec<Worker>,
}

impl View for Pool {
    type V = Seq<WorkerModel>;

    closed spec fn view(&self) -> Seq<WorkerModel> {
        Seq::new(self.workers@.len(), |i: int| self.workers@[i]@)
    }
}

impl Pool {
    /// A pool of `count` idle workers, all alike.
    pub fn new(
        count: usize,
        kind: &String,
        lease_duration: u64,
        poll_interval: u64,
        backoff: BackoffPolicy,
    ) -> (pool: Self)
        ensures
            pool@.len() == count,
            forall|i: int|
                0 <= i < count ==> #[trigger] pool@[i] == (WorkerModel {
                    kind: kind@,
                    lease_duration,
                    poll_interval,
                    backoff,
                    state: WorkerState::Idle,
                    stopping: false,
                }),
    {
        let mut workers: Vec<Worker> = Vec::new();
        let mut made: usize = 0;
        while made < count
            invariant
                made <= count,
                workers@.len() == made,
                forall|i: int|
                    0 <= i < made ==> (#[trigger] workers@[i])@ == (WorkerModel {
                        kind: kind@,
                        lease_duration,
                        poll_interval,
                        backoff,
                        state: WorkerState::Idle,
                        stopping: false,
                    }),
            decreases count - made,
        {
            workers.push(Worker::new(kind.clone(), lease_duration, poll_interval, backoff));
            made = made + 1;
        }
        Pool { workers }
    }

    /// A pool of [`DEFAULT_WORKERS`] idle workers.
    pub fn with_defaults(
        kind: &String,
        lease_duration: u64,
        poll_interval: u64,
        backoff: BackoffPolicy,
    ) -> (pool: Self)
        ensures
            pool@.len() == DEFAULT_WORKERS,
            forall|i: int|
                0 <= i < DEFAULT_WORKERS ==> #[trigger] pool@[i] == (WorkerModel {
                    kind: kind@,
                    lease_duration,
                    poll_interval,
                    backoff,
                    state: WorkerState::Idle,
                    stopping: false,
                }),
    {
        Self::new(DEFAULT_WORKERS, kind, lease_duration, poll_interval, backoff)
    }

    /// The number of workers.
    pub fn size(&self) -> (count: usize)
        ensures
            count == self@.len(),
    {
        self.workers.len()
    }

    /// Tells every worker to stop. Idle workers leave at once; the others
    /// bring their job to an end first and reserve nothing more.
    pub fn request_stop(&mut self)
        ensures
            final(self)@ == all_told_to_stop(old(self)@),
    {
        let count = self.workers.len();
        let mut told: usize = 0;
        while told < count
            invariant
                told <= count,
                count == self.workers@.len(),
                count == old(self).workers@.len(),
                forall|i: int|
                    0 <= i < told ==> (#[trigger] self.workers@[i])@ == old(self).workers@[i]@.step(
                        WorkerEvent::StopRequested,
                    ).0,
                forall|i: int|
                    told <= i < count ==> #[trigger] self.workers@[i] == old(self).workers@[i],
            decreases count - told,
        {
            let _ = self.workers[told].step(WorkerEvent::StopRequested);
            told = told + 1;
        }
        assert(self@ =~= all_told_to_stop(old(self)@));
    }

    /// Passes `event` to worker `index` and returns what it asks for, or
    /// `None` when there is no such worker. When the worker aborts because
    /// the store is lost, every other worker is told to stop.
    pub fn step(&mut self, index: usize, event: WorkerEvent) -> (action: Option<WorkerAction>)
        ensures
            match action {
                None => index >= old(self)@.len() && final(self)@ == old(self)@,
                Some(a) => index < old(self)@.len() && (final(self)@, a) == pool_step(
                    old(self)@,
                    index as int,
                    event,
                ),
            },
    {
        if index >= self.workers.len() {
            return None;
        }
        let action = self.workers[index].step(event);
        assert(self@ =~= old(self)@.update(index as int, old(self)@[index as int].step(event).0));
        if let WorkerAction::Abort = action {
            self.request_stop();
        }
        Some(action)
    }

    /// Has `store` do, at `now`, what worker `index` is waiting for, and
    /// returns what [`Worker::serve`] returns, or `None` when there is no
    /// such worker. When the worker aborts because the store is lost, every
    /// other worker is told to stop.
    pub fn serve(&mut self, index: usize, store: &mut QueueStore, now: u64) -> (r: Option<
        (WorkerAction, Option<Job>),
    >)
        requires
            old(store).wf(),
            index < old(self)@.len() ==> {
                &&& now + old(self)@[index as int].lease_duration <= u64::MAX
                &&& now + old(self)@[index as int].pending_delay() <= u64::MAX
            },
        ensures
            final(store).wf(),
            old(store)@.may_become(final(store)@),
            match r {
                None => {
                    &&& index >= old(self)@.len()
                    &&& final(self)@ == old(self)@
                    &&& final(store)@ == old(store)@
                },
                Some((action, job)) => {
                    &&& index < old(self)@.len()
                    &&& (final(self)@, final(store)@, action, job_model(job)) == pool_served(
                        old(self)@,
                        index as int,
                        old(store)@,
                        now as nat,
                    )
                },
            },
    {
        if index >= self.workers.len() {
            proof {
                crate::guarantees::lemma_store_persists_as_itself(store@);
            }
            return None;
        }
        assert(self@[index as int] == self.workers@[index as int]@);
        let (action, job) = self.workers[index].serve(store, now);
        assert(self@ =~= old(self)@.update(
            index as int,
            old(self)@[index as int].served(old(store)@, now as nat).0,
        ));
        if let WorkerAction::Abort = action {
            self.request_stop();
        }
        Some((action, job))
    }

    /// Where worker `index` stands, or `None` when there is no such worker.
    pub fn worker_state(&self, index: usize) -> (state: Option<WorkerState>)
        ensures
            match state {
                None => index >= self@.len(),
                Some(s) => index < self@.len() && s == self@[index as int].state,
            },
    {
        if index >= self.workers.len() {
            return None;
        }
        Some(self.workers[index].state())
    }

    /// Whether the pool is still at work, has stopped, or has failed.
    pub fn status(&self) -> (status: TaskStatus)
        ensures
            status == pool_status(self@),
    {
        let count = self.workers.len();
        let mut failed = false;
        let mut seen: usize = 0;
        while seen < count
            invariant
                seen <= count,
                count == self.workers@.len(),
                forall|i: int| 0 <= i < seen ==> (#[trigger] self@[i]).state.has_exited(),
                failed <==> exists|i: int| 0 <= i < seen && (#[trigger] self@[i]).state is Failed,
            decreases count - seen,
        {
            match self.workers[seen].state() {
                WorkerState::Failed => {
                    failed = true;
                },
                WorkerState::Stopped => {},
                _ => {
                    assert(!self@[seen as int].state.has_exited());
                    return TaskStatus::Running;
                },
            }
            seen = seen + 1;
        }
        if failed {
            TaskStatus::Failed
        } else {
            TaskStatus::Stopped
        }
    }
}

} // verus!
