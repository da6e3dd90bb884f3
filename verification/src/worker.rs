//! The worker: what it decides after a handler has run, and the state
//! machine that a driver steps through while it reserves, runs and settles
//! jobs.
//!
//! The machine performs nothing itself. A driver tells it what happened and
//! does what it answers: it asks the store, runs the handler, sleeps. So the
//! handler may block or suspend as it likes, and the same decisions serve any
//! backend.
use vstd::prelude::*;

use crate::backoff::BackoffPolicy;
use crate::error::QueueError;
use crate::job::{status_after_failure, Job, JobModel, JobStatus};
use crate::store::{job_model, QueueStore, StoreModel};

verus! {

/// How a handler's run on one job ended.
#[derive(Debug, PartialEq, Eq)]
pub enum HandlerOutcome {
    /// The work is done.
    Success,
    /// The handler reports that it could not do the work, and why.
    Failure(String),
    /// The handler broke off unexpectedly.
    Fault,
}

/// What is done with a reservation once its handler has returned.
#[derive(Clone, Copy, Debug, PartialEq, Eq, Structural)]
pub enum Verdict {
    /// Mark the job done.
    Acknowledge,
    /// Give the job back, to wait `delay` ticks.
    Requeue { delay: u64 },
}

/// What becomes of a job once one of its attempts has been settled.
#[derive(Clone, Copy, Debug, PartialEq, Eq, Structural)]
pub enum Settlement {
    /// The job is done.
    Done,
    /// The job is pending again and waits `delay` ticks.
    Retry { delay: u64 },
    /// The job is dead-lettered: its attempts are used up.
    DeadLettered,
}

impl HandlerOutcome {
    /// The verdict on attempt number `attempt` that ended in `self`: success
    /// is acknowledged, anything else is requeued after the policy's delay.
    pub open spec fn verdict(self, attempt: nat, policy: BackoffPolicy) -> Verdict {
        match self {
            HandlerOutcome::Success => Verdict::Acknowledge,
            _ => Verdict::Requeue { delay: policy.delay_of(attempt) as u64 },
        }
    }

    /// What becomes of a job with a budget of `max_attempts` when its attempt
    /// number `attempt` has ended in `self` and is settled.
    pub open spec fn settlement(self, attempt: nat, max_attempts: nat, policy: BackoffPolicy) -> Settlement {
        match self.verdict(attempt, policy) {
            Verdict::Acknowledge => Settlement::Done,
            Verdict::Requeue { delay } => match JobModel::status_after_failure(
                attempt,
                max_attempts,
            ) {
                JobStatus::DeadLettered => Settlement::DeadLettered,
                _ => Settlement::Retry { delay },
            },
        }
    }
}

/// Says what becomes of a job with a budget of `max_attempts` when its attempt
/// number `attempt` has ended in `outcome`. This is for a backend that wants
/// to be told, where the store of this library decides by itself when a
/// requeue reaches it.
pub fn settlement(
    outcome: &HandlerOutcome,
    attempt: u32,
    max_attempts: u32,
    policy: &BackoffPolicy,
) -> (fate: Settlement)
    ensures
        fate == outcome.settlement(attempt as nat, max_attempts as nat, *policy),
{
    match decide(outcome, attempt, policy) {
        Verdict::Acknowledge => Settlement::Done,
        Verdict::Requeue { delay } => match status_after_failure(attempt, max_attempts) {
            JobStatus::DeadLettered => Settlement::DeadLettered,
            _ => Settlement::Retry { delay },
        },
    }
}

/// The store settles a reservation as `settlement` says: the job is done
/// after a success, dead-lettered after the failure of its last attempt, and
/// otherwise pending and visible again once the delay has passed.
pub proof fn lemma_store_settles_as_told(
    store: StoreModel,
    id: nat,
    attempt: nat,
    outcome: HandlerOutcome,
    policy: BackoffPolicy,
    now: nat,
)
    requires
        store.wf(),
        store.settle_refusal(id, attempt) is None,
    ensures
        ({
            let settled = match outcome.verdict(attempt, policy) {
                Verdict::Acknowledge => store.acknowledged(id),
                Verdict::Requeue { delay } => store.requeued(id, delay as nat, now),
            };
            let job = settled.jobs[id as int];
            match outcome.settlement(attempt, store.max_attempts, policy) {
                Settlement::Done => job.status is Done,
                Settlement::Retry { delay } => job.status is Pending && job.visible_at == now
                    + delay,
                Settlement::DeadLettered => job.status is DeadLettered,
            }
        }),
{
    assert(store.jobs[id as int].wf(store.max_attempts));
}

/// Decides what to do with a reservation whose handler has returned.
pub fn decide(outcome: &HandlerOutcome, attempt: u32, policy: &BackoffPolicy) -> (verdict: Verdict)
    ensures
        verdict == outcome.verdict(attempt as nat, *policy),
{
    match outcome {
        HandlerOutcome::Success => Verdict::Acknowledge,
        _ => Verdict::Requeue { delay: policy.delay(attempt) },
    }
}

/// Settles attempt number `attempt` of job `id` in `store` at `now`,
/// according to how its handler ended, and says what has become of the job.
///
/// After a success the job is done. After a failure or a fault it waits for
/// the policy's delay, or is dead-lettered when its attempts are used up.
/// The store's refusals are passed on, and then nothing has changed.
pub fn settle(
    store: &mut QueueStore,
    id: u64,
    attempt: u32,
    outcome: &HandlerOutcome,
    policy: &BackoffPolicy,
    now: u64,
) -> (r: Result<Settlement, QueueError>)
    requires
        old(store).wf(),
        now + policy.cap <= u64::MAX,
    ensures
        final(store).wf(),
        old(store)@.may_become(final(store)@),
        match old(store)@.settle_refusal(id as nat, attempt as nat) {
            Some(e) => r == Err::<Settlement, QueueError>(e) && final(store)@ == old(store)@,
            None => {
                &&& r == Ok::<Settlement, QueueError>(
                    outcome.settlement(attempt as nat, old(store)@.max_attempts, *policy),
                )
                &&& final(store)@ == match outcome.verdict(attempt as nat, *policy) {
                    Verdict::Acknowledge => old(store)@.acknowledged(id as nat),
                    Verdict::Requeue { delay } => old(store)@.requeued(
                        id as nat,
                        delay as nat,
                        now as nat,
                    ),
                }
            },
        },
{
    match decide(outcome, attempt, policy) {
        Verdict::Acknowledge => match store.acknowledge(id, attempt) {
            Ok(()) => Ok(Settlement::Done),
            Err(e) => Err(e),
        },
        Verdict::Requeue { delay } => match store.requeue(id, attempt, delay, now) {
            Ok(JobStatus::DeadLettered) => Ok(Settlement::DeadLettered),
            Ok(_) => Ok(Settlement::Retry { delay }),
            Err(e) => Err(e),
        },
    }
}

/// Where a worker stands in its loop.
#[derive(Clone, Copy, Debug, PartialEq, Eq, Structural)]
pub enum WorkerState {
    /// Between polls: started, or asleep after an empty poll.
    Idle,
    /// Waiting for the store's answer to a reserve.
    Polling,
    /// The handler is running on attempt `attempt` of job `id`.
    Executing { id: u64, attempt: u32 },
    /// Waiting for the store's answer to the acknowledge or the requeue that
    /// `verdict` asks for attempt `attempt` of job `id`.
    Settling { id: u64, attempt: u32, verdict: Verdict },
    /// Left the loop after a stop request.
    Stopped,
    /// Left the loop because the store was lost.
    Failed,
}

impl WorkerState {
    /// The worker has left its loop for good.
    pub open spec fn has_exited(self) -> bool {
        self is Stopped || self is Failed
    }
}

/// What a driver reports to a worker.
#[derive(Debug, PartialEq, Eq)]
pub enum WorkerEvent {
    /// The worker was started, or its sleep is over.
    Wake,
    /// The store handed out attempt `attempt` of job `id`.
    Reserved { id: u64, attempt: u32 },
    /// The store has nothing eligible.
    Empty,
    /// The handler returned.
    Finished(HandlerOutcome),
    /// The store accepted the acknowledge or the requeue.
    Settled,
    /// The store no longer knows the reservation: another worker has the job.
    Lost,
    /// The store cannot be reached, and its client has given up.
    StoreDown,
    /// The pool wants its workers to stop.
    StopRequested,
}

/// What a worker asks its driver to do next.
#[derive(Clone, Copy, Debug, PartialEq, Eq, Structural)]
pub enum WorkerAction {
    /// Ask the store for a job of the worker's kind, then report `Reserved`,
    /// `Empty` or `StoreDown`.
    Reserve,
    /// Wait this long, then report `Wake`.
    Sleep { ticks: u64 },
    /// Run the handler on the job just reserved, then report `Finished`.
    Execute,
    /// Acknowledge the reservation, then report `Settled`, `Lost` or `StoreDown`.
    Acknowledge { id: u64, attempt: u32 },
    /// Requeue the reservation, then report `Settled`, `Lost` or `StoreDown`.
    Requeue { id: u64, attempt: u32, delay: u64 },
    /// Leave the loop: the worker has stopped.
    Exit,
    /// Leave the loop and report the loss of the store as fatal.
    Abort,
    /// Nothing new: go on waiting for what was asked before.
    Wait,
}

/// The mathematical content of a [`Worker`].
pub struct WorkerModel {
    pub kind: Seq<char>,
    pub lease_duration: u64,
    pub poll_interval: u64,
    pub backoff: BackoffPolicy,
    pub state: WorkerState,
    pub stopping: bool,
}

impl WorkerModel {
    /// The worker in another state.
    pub open spec fn at(self, state: WorkerState) -> WorkerModel {
        WorkerModel { state, ..self }
    }

    /// What carrying out `verdict` on attempt `attempt` of job `id` asks of
    /// the driver.
    pub open spec fn settling_action(id: u64, attempt: u32, verdict: Verdict) -> WorkerAction {
        match verdict {
            Verdict::Acknowledge => WorkerAction::Acknowledge { id, attempt },
            Verdict::Requeue { delay } => WorkerAction::Requeue { id, attempt, delay },
        }
    }

    /// The delay of the requeue that the worker waits to have carried out,
    /// zero where it waits for none.
    pub open spec fn pending_delay(self) -> nat {
        match self.state {
            WorkerState::Settling { verdict: Verdict::Requeue { delay }, .. } => delay as nat,
            _ => 0,
        }
    }

    /// Back at the top of the loop: poll again, unless a stop was requested.
    pub open spec fn resume(self) -> (WorkerModel, WorkerAction) {
        if self.stopping {
            (self.at(WorkerState::Stopped), WorkerAction::Exit)
        } else {
            (self.at(WorkerState::Polling), WorkerAction::Reserve)
        }
    }

    /// The worker after `event`, and what it asks for.
    ///
    /// An event that the state does not wait for changes nothing. A stop
    /// request is noted at once, but only an idle worker leaves on it: a busy
    /// one first brings its job to an end. A worker that has left answers
    /// every event as it answered the last one.
    pub open spec fn step(self, event: WorkerEvent) -> (WorkerModel, WorkerAction) {
        match (self.state, event) {
            (WorkerState::Stopped, _) => (self, WorkerAction::Exit),
            (WorkerState::Failed, _) => (self, WorkerAction::Abort),
            (WorkerState::Idle, WorkerEvent::StopRequested) => (
                WorkerModel { state: WorkerState::Stopped, stopping: true, ..self },
                WorkerAction::Exit,
            ),
            (_, WorkerEvent::StopRequested) => (
                WorkerModel { stopping: true, ..self },
                WorkerAction::Wait,
            ),
            (WorkerState::Idle, WorkerEvent::Wake) => self.resume(),
            (WorkerState::Polling, WorkerEvent::Reserved { id, attempt }) => (
                self.at(WorkerState::Executing { id, attempt }),
                WorkerAction::Execute,
            ),
            (WorkerState::Polling, WorkerEvent::Empty) => if self.stopping {
                (self.at(WorkerState::Stopped), WorkerAction::Exit)
            } else {
                (self.at(WorkerState::Idle), WorkerAction::Sleep { ticks: self.poll_interval })
            },
            (WorkerState::Executing { id, attempt }, WorkerEvent::Finished(outcome)) => {
                let verdict = outcome.verdict(attempt as nat, self.backoff);
                (
                    self.at(WorkerState::Settling { id, attempt, verdict }),
                    Self::settling_action(id, attempt, verdict),
                )
            },
            (WorkerState::Settling { .. }, WorkerEvent::Settled) | (
                WorkerState::Settling { .. },
                WorkerEvent::Lost,
            ) => self.resume(),
            (WorkerState::Polling, WorkerEvent::StoreDown) | (
                WorkerState::Settling { .. },
                WorkerEvent::StoreDown,
            ) => (self.at(WorkerState::Failed), WorkerAction::Abort),
            _ => (self, WorkerAction::Wait),
        }
    }

    /// The event that tells a worker how the store answered a settlement.
    pub open spec fn settlement_event(refusal: Option<QueueError>) -> WorkerEvent {
        match refusal {
            None => WorkerEvent::Settled,
            Some(QueueError::StoreUnavailable) => WorkerEvent::StoreDown,
            Some(_) => WorkerEvent::Lost,
        }
    }

    /// The worker and the store after the store has done, at `now`, what the
    /// worker was waiting for, with what the worker asks for next and the job
    /// that it is to run, if it has just been handed one.
    ///
    /// A polling worker has its reserve made, a settling worker its
    /// acknowledge or requeue, and each is told the answer. A worker in any
    /// other state waits for nothing from the store, and nothing happens.
    pub open spec fn served(self, store: StoreModel, now: nat) -> (
        WorkerModel,
        StoreModel,
        WorkerAction,
        Option<JobModel>,
    ) {
        match self.state {
            WorkerState::Polling => if !store.online {
                let (worker, action) = self.step(WorkerEvent::StoreDown);
                (worker, store, action, None)
            } else {
                let (after, handed) = store.reserve(self.kind, self.lease_duration as nat, now);
                match handed {
                    Some(job) => {
                        let (worker, action) = self.step(
                            WorkerEvent::Reserved { id: job.id as u64, attempt: job.attempt as u32 },
                        );
                        (worker, after, action, handed)
                    },
                    None => {
                        let (worker, action) = self.step(WorkerEvent::Empty);
                        (worker, after, action, None)
                    },
                }
            },
            WorkerState::Settling { id, attempt, verdict } => {
                let refusal = store.settle_refusal(id as nat, attempt as nat);
                let (worker, action) = self.step(Self::settlement_event(refusal));
                let after = if refusal is Some {
                    store
                } else {
                    match verdict {
                        Verdict::Acknowledge => store.acknowledged(id as nat),
                        Verdict::Requeue { delay } => store.requeued(id as nat, delay as nat, now),
                    }
                };
                (worker, after, action, None)
            },
            _ => (self, store, WorkerAction::Wait, None),
        }
    }
}

/// A worker that was told to stop reserves nothing more: it neither asks the
/// store for a job nor goes to sleep to ask later, and the request stays
/// noted.
pub proof fn lemma_stopping_worker_reserves_nothing(worker: WorkerModel, event: WorkerEvent)
    requires
        worker.stopping,
    ensures
        worker.step(event).0.stopping,
        !(worker.step(event).1 is Reserve),
        !(worker.step(event).1 is Sleep),
{
}

/// A stop request is never lost: afterwards the worker has left its loop or
/// has the request noted. An idle worker leaves at once.
pub proof fn lemma_stop_request_is_noted(worker: WorkerModel)
    ensures
        ({
            let told = worker.step(WorkerEvent::StopRequested).0;
            &&& told.stopping || told.state.has_exited()
            &&& worker.state is Idle ==> told.state is Stopped
            &&& !(worker.state is Idle) ==> told.state == worker.state
        }),
{
}

/// A running handler is not cut short. Whatever happens, a worker stays with
/// the job it executes until the handler has returned, and then settles that
/// very reservation: it acknowledges a success and requeues anything else
/// after the delay of its backoff policy.
pub proof fn lemma_execution_runs_to_completion(worker: WorkerModel, event: WorkerEvent)
    requires
        worker.state is Executing,
    ensures
        ({
            let (next, action) = worker.step(event);
            let id = worker.state->Executing_id;
            let attempt = worker.state->Executing_attempt;
            match event {
                WorkerEvent::Finished(HandlerOutcome::Success) => {
                    &&& next.state == WorkerState::Settling {
                        id,
                        attempt,
                        verdict: Verdict::Acknowledge,
                    }
                    &&& action == WorkerAction::Acknowledge { id, attempt }
                },
                WorkerEvent::Finished(_) => {
                    let delay = worker.backoff.delay_of(attempt as nat) as u64;
                    &&& next.state == WorkerState::Settling {
                        id,
                        attempt,
                        verdict: Verdict::Requeue { delay },
                    }
                    &&& action == WorkerAction::Requeue { id, attempt, delay }
                },
                _ => next.state == worker.state && action is Wait,
            }
        }),
{
}

/// A worker that has left its loop does not come back.
pub proof fn lemma_exit_is_final(worker: WorkerModel, event: WorkerEvent)
    requires
        worker.state.has_exited(),
    ensures
        worker.step(event).0 == worker,
        worker.state is Stopped ==> worker.step(event).1 is Exit,
        worker.state is Failed ==> worker.step(event).1 is Abort,
{
}

/// One worker of a pool.
pub struct Worker {
    kind: String,
    lease_duration: u64,
    poll_interval: u64,
    backoff: BackoffPolicy,
    state: WorkerState,
    stopping: bool,
}

impl View for Worker {
    type V = WorkerModel;

    closed spec fn view(&self) -> WorkerModel {
        WorkerModel {
            kind: self.kind@,
            lease_duration: self.lease_duration,
            poll_interval: self.poll_interval,
            backoff: self.backoff,
            state: self.state,
            stopping: self.stopping,
        }
    }
}

impl Worker {
    /// An idle worker for jobs of `kind`, which leases a job for
    /// `lease_duration` ticks and sleeps `poll_interval` ticks after an empty
    /// poll.
    pub fn new(kind: String, lease_duration: u64, poll_interval: u64, backoff: BackoffPolicy) -> (worker:
        Self)
        ensures
            worker@ == (WorkerModel {
                kind: kind@,
                lease_duration,
                poll_interval,
                backoff,
                state: WorkerState::Idle,
                stopping: false,
            }),
    {
        Worker {
            kind,
            lease_duration,
            poll_interval,
            backoff,
            state: WorkerState::Idle,
            stopping: false,
        }
    }

    /// Where the worker stands.
    pub fn state(&self) -> (state: WorkerState)
        ensures
            state == self@.state,
    {
        self.state
    }

    /// The kind of job that the worker reserves.
    pub fn kind(&self) -> (kind: &String)
        ensures
            kind@ == self@.kind,
    {
        &self.kind
    }

    /// For how many ticks the worker leases a job.
    pub fn lease_duration(&self) -> (ticks: u64)
        ensures
            ticks == self@.lease_duration,
    {
        self.lease_duration
    }

    /// For how many ticks the worker sleeps after an empty poll.
    pub fn poll_interval(&self) -> (ticks: u64)
        ensures
            ticks == self@.poll_interval,
    {
        self.poll_interval
    }

    /// The policy by which the worker delays a failed job.
    pub fn backoff(&self) -> (policy: BackoffPolicy)
        ensures
            policy == self@.backoff,
    {
        self.backoff
    }

    /// Whether the worker was told to stop.
    pub fn stop_requested(&self) -> (stopping: bool)
        ensures
            stopping == self@.stopping,
    {
        self.stopping
    }

    /// Has `store` do, at `now`, what the worker is waiting for, tells the
    /// worker the answer, and returns what it asks for next, with the job to
    /// run where one was handed out.
    ///
    /// For a polling worker that is a reserve of its kind and lease, for a
    /// settling worker the acknowledge or requeue of its reservation. The
    /// store's refusals are reported to the worker as events: an unreachable
    /// store as `StoreDown`, an unknown reservation as `Lost`. A worker in any
    /// other state waits for nothing from the store: the call changes nothing
    /// and returns `Wait`.
    pub fn serve(&mut self, store: &mut QueueStore, now: u64) -> (r: (WorkerAction, Option<Job>))
        requires
            old(store).wf(),
            now + old(self)@.lease_duration <= u64::MAX,
            now + old(self)@.pending_delay() <= u64::MAX,
        ensures
            final(store).wf(),
            old(store)@.may_become(final(store)@),
            (final(self)@, final(store)@, r.0, job_model(r.1)) == old(self)@.served(
                old(store)@,
                now as nat,
            ),
    {
        match self.state {
            WorkerState::Polling => match store.reserve(&self.kind, self.lease_duration, now) {
                Ok(Some(job)) => {
                    proof {
                        crate::guarantees::lemma_reserve_hands_out(
                            old(store)@,
                            self.kind@,
                            self.lease_duration as nat,
                            now as nat,
                        );
                    }
                    let action = self.step(WorkerEvent::Reserved { id: job.id, attempt: job.attempt });
                    (action, Some(job))
                },
                Ok(None) => (self.step(WorkerEvent::Empty), None),
                Err(_) => (self.step(WorkerEvent::StoreDown), None),
            },
            WorkerState::Settling { id, attempt, verdict } => {
                let answer = match verdict {
                    Verdict::Acknowledge => store.acknowledge(id, attempt),
                    Verdict::Requeue { delay } => match store.requeue(id, attempt, delay, now) {
                        Ok(_) => Ok(()),
                        Err(e) => Err(e),
                    },
                };
                let event = match answer {
                    Ok(()) => WorkerEvent::Settled,
                    Err(QueueError::StoreUnavailable) => WorkerEvent::StoreDown,
                    Err(_) => WorkerEvent::Lost,
                };
                (self.step(event), None)
            },
            _ => {
                proof {
                    crate::guarantees::lemma_store_persists_as_itself(store@);
                }
                (WorkerAction::Wait, None)
            },
        }
    }

    /// Takes note of `event` and says what the driver is to do next.
    pub fn step(&mut self, event: WorkerEvent) -> (action: WorkerAction)
        ensures
            (final(self)@, action) == old(self)@.step(event),
    {
        match self.state {
            WorkerState::Stopped => WorkerAction::Exit,
            WorkerState::Failed => WorkerAction::Abort,
            WorkerState::Idle => match event {
                WorkerEvent::StopRequested => {
                    self.stopping = true;
                    self.state = WorkerState::Stopped;
                    WorkerAction::Exit
                },
                WorkerEvent::Wake => self.resume(),
                _ => WorkerAction::Wait,
            },
            WorkerState::Polling => match event {
                WorkerEvent::StopRequested => {
                    self.stopping = true;
                    WorkerAction::Wait
                },
                WorkerEvent::Reserved { id, attempt } => {
                    self.state = WorkerState::Executing { id, attempt };
                    WorkerAction::Execute
                },
                WorkerEvent::Empty => {
                    if self.stopping {
                        self.state = WorkerState::Stopped;
                        WorkerAction::Exit
                    } else {
                        self.state = WorkerState::Idle;
                        WorkerAction::Sleep { ticks: self.poll_interval }
                    }
                },
                WorkerEvent::StoreDown => {
                    self.state = WorkerState::Failed;
                    WorkerAction::Abort
                },
                _ => WorkerAction::Wait,
            },
            WorkerState::Executing { id, attempt } => match event {
                WorkerEvent::StopRequested => {
                    self.stopping = true;
                    WorkerAction::Wait
                },
                WorkerEvent::Finished(outcome) => {
                    let verdict = decide(&outcome, attempt, &self.backoff);
                    self.state = WorkerState::Settling { id, attempt, verdict };
                    match verdict {
                        Verdict::Acknowledge => WorkerAction::Acknowledge { id, attempt },
                        Verdict::Requeue { delay } => WorkerAction::Requeue { id, attempt, delay },
                    }
                },
                _ => WorkerAction::Wait,
            },
            WorkerState::Settling { .. } => match event {
                WorkerEvent::StopRequested => {
                    self.stopping = true;
                    WorkerAction::Wait
                },
                WorkerEvent::Settled | WorkerEvent::Lost => self.resume(),
                WorkerEvent::StoreDown => {
                    self.state = WorkerState::Failed;
                    WorkerAction::Abort
                },
                _ => WorkerAction::Wait,
            },
        }
    }

    /// Goes back to the top of the loop.
    fn resume(&mut self) -> (action: WorkerAction)
        ensures
            (final(self)@, action) == old(self)@.resume(),
    {
        if self.stopping {
            self.state = WorkerState::Stopped;
            WorkerAction::Exit
        } else {
            self.state = WorkerState::Polling;
            WorkerAction::Reserve
        }
    }
}

} // verus!
