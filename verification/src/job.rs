//! The job record and the transitions a single record can make.
use vstd::prelude::*;

verus! {

/// Where a job stands in its life.
#[derive(Clone, Copy, Debug, PartialEq, Eq, Structural)]
pub enum JobStatus {
    /// Waiting to be reserved, once `visible_at` has come.
    Pending,
    /// Leased to a worker until `visible_at`.
    Reserved,
    /// Acknowledged after a successful run.
    Done,
    /// Out of attempts; kept for inspection and never retried.
    DeadLettered,
}

impl JobStatus {
    /// `Done` and `DeadLettered` are final.
    pub open spec fn is_terminal(self) -> bool {
        self is Done || self is DeadLettered
    }

    /// Whether a record may go from `self` to `next` in one store operation.
    pub open spec fn may_become(self, next: JobStatus) -> bool {
        ||| next == self
        ||| self is Pending && next is Reserved
        ||| self is Reserved && !(next is Reserved)
    }

    /// Whether no transition leaves this status.
    #[verifier::when_used_as_spec(is_terminal)]
    pub fn terminal(self) -> (r: bool)
        ensures
            r == self.is_terminal(),
    {
        match self {
            JobStatus::Done | JobStatus::DeadLettered => true,
            _ => false,
        }
    }
}

/// One unit of work as the store keeps it.
#[derive(Debug, PartialEq, Eq)]
pub struct Job {
    /// Assigned when the job is pushed; never changes.
    pub id: u64,
    /// Names the handler that processes the job.
    pub kind: String,
    /// The serialised job, opaque to the store.
    pub payload: String,
    /// How often the job has been reserved.
    pub attempt: u32,
    pub status: JobStatus,
    /// A pending job may be reserved from this instant on; a reserved job's
    /// lease runs out at it.
    pub visible_at: u64,
}

/// The mathematical content of a [`Job`].
pub struct JobModel {
    pub id: nat,
    pub kind: Seq<char>,
    pub payload: Seq<char>,
    pub attempt: nat,
    pub status: JobStatus,
    pub visible_at: nat,
}

impl View for Job {
    type V = JobModel;

    open spec fn view(&self) -> JobModel {
        JobModel {
            id: self.id as nat,
            kind: self.kind@,
            payload: self.payload@,
            attempt: self.attempt as nat,
            status: self.status,
            visible_at: self.visible_at as nat,
        }
    }
}

impl Clone for Job {
    fn clone(&self) -> (copy: Self)
        ensures
            copy == *self,
    {
        Job {
            id: self.id,
            kind: self.kind.clone(),
            payload: self.payload.clone(),
            attempt: self.attempt,
            status: self.status,
            visible_at: self.visible_at,
        }
    }
}

/// The status a job takes when attempt number `attempt` of a budget of
/// `max_attempts` ends without success: dead-lettered when that was the
/// last one, pending otherwise.
pub fn status_after_failure(attempt: u32, max_attempts: u32) -> (status: JobStatus)
    ensures
        status == JobModel::status_after_failure(attempt as nat, max_attempts as nat),
{
    if attempt >= max_attempts {
        JobStatus::DeadLettered
    } else {
        JobStatus::Pending
    }
}

impl JobModel {
    /// The record that a push creates: pending, never attempted, visible at once.
    pub open spec fn fresh(id: nat, kind: Seq<char>, payload: Seq<char>, now: nat) -> JobModel {
        JobModel { id, kind, payload, attempt: 0, status: JobStatus::Pending, visible_at: now }
    }

    /// What the job-record invariant asks of a record under an attempt budget.
    pub open spec fn wf(self, max_attempts: nat) -> bool {
        &&& self.attempt <= max_attempts
        &&& self.status is Pending ==> self.attempt < max_attempts
        &&& self.status is Reserved ==> self.attempt >= 1
        &&& self.status is Done ==> self.attempt >= 1
        &&& self.status is DeadLettered ==> self.attempt == max_attempts
    }

    /// A pending job of this kind that may be handed out at `now`.
    pub open spec fn eligible(self, kind: Seq<char>, now: nat) -> bool {
        &&& self.status is Pending
        &&& self.kind == kind
        &&& self.visible_at <= now
    }

    /// A reservation whose lease has run out by `now`.
    pub open spec fn lease_expired(self, now: nat) -> bool {
        self.status is Reserved && self.visible_at <= now
    }

    /// The reservation made by attempt number `attempt` is still the current one.
    pub open spec fn leased_to(self, attempt: nat) -> bool {
        self.status is Reserved && self.attempt == attempt
    }

    /// The status a job takes when a reservation ends without success.
    pub open spec fn status_after_failure(attempt: nat, max_attempts: nat) -> JobStatus {
        if attempt >= max_attempts {
            JobStatus::DeadLettered
        } else {
            JobStatus::Pending
        }
    }

    /// An expired lease is taken back: the job is pending again, visible at
    /// once, or dead-lettered when its attempts are used up.
    pub open spec fn swept(self, now: nat, max_attempts: nat) -> JobModel {
        if self.lease_expired(now) {
            JobModel { status: Self::status_after_failure(self.attempt, max_attempts), ..self }
        } else {
            self
        }
    }

    /// The job handed to a worker at `now` for `lease` ticks.
    pub open spec fn reserved(self, lease: nat, now: nat) -> JobModel {
        JobModel {
            status: JobStatus::Reserved,
            attempt: self.attempt + 1,
            visible_at: now + lease,
            ..self
        }
    }

    /// The job after its worker reported success.
    pub open spec fn acknowledged(self) -> JobModel {
        JobModel { status: JobStatus::Done, ..self }
    }

    /// The job after its worker gave it back at `now`, to wait `delay` ticks.
    pub open spec fn requeued(self, delay: nat, now: nat, max_attempts: nat) -> JobModel {
        if self.attempt >= max_attempts {
            JobModel { status: JobStatus::DeadLettered, ..self }
        } else {
            JobModel { status: JobStatus::Pending, visible_at: now + delay, ..self }
        }
    }

    /// `later` is this record at a later time: identity and content stay, the
    /// attempt count does not fall, and a record in a final status is kept
    /// as it is.
    pub open spec fn persists_as(self, later: JobModel) -> bool {
        &&& later.id == self.id
        &&& later.kind == self.kind
        &&& later.payload == self.payload
        &&& later.attempt >= self.attempt
        &&& self.status.is_terminal() ==> later == self
    }

    /// One store operation may turn `self` into `next`.
    pub open spec fn may_become(self, next: JobModel) -> bool {
        self.persists_as(next) && self.status.may_become(next.status)
    }
}

} // verus!
