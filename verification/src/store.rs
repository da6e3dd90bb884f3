//! The queue store: every job record, in the order in which it was pushed.
//!
//! A job's id is its position in that order, so ids are never reused and a
//! record is found in constant time. Records are kept after they reach a final
//! status, for inspection. Time is a tick count that the caller supplies.
use vstd::prelude::*;

use crate::error::QueueError;
use crate::job::{status_after_failure, Job, JobModel, JobStatus};

verus! {

/// The attempt budget of a store made by [`QueueStore::with_defaults`].
pub const DEFAULT_MAX_ATTEMPTS: u32 = 25;

/// The mathematical content of a [`QueueStore`].
pub struct StoreModel {
    /// Every record ever pushed, oldest first.
    pub jobs: Seq<JobModel>,
    /// How many reservations a job may use up before it is dead-lettered.
    pub max_attempts: nat,
    /// Whether the backing store can be reached.
    pub online: bool,
}

impl StoreModel {
    /// A store without records.
    pub open spec fn empty(max_attempts: nat) -> StoreModel {
        StoreModel { jobs: Seq::empty(), max_attempts, online: true }
    }

    /// Ids are positions, and every record respects the attempt budget.
    pub open spec fn wf(self) -> bool {
        &&& self.max_attempts >= 1
        &&& forall|i: int|
            0 <= i < self.jobs.len() ==> (#[trigger] self.jobs[i]).id == i && self.jobs[i].wf(
                self.max_attempts,
            )
    }

    /// Whether a record with this id exists.
    pub open spec fn contains(self, id: nat) -> bool {
        id < self.jobs.len()
    }

    /// The store with the record at `i` replaced.
    pub open spec fn with_job(self, i: int, job: JobModel) -> StoreModel {
        StoreModel { jobs: self.jobs.update(i, job), ..self }
    }

    /// A kind and a payload that can be stored: neither is empty.
    pub open spec fn encodable(kind: Seq<char>, payload: Seq<char>) -> bool {
        kind.len() > 0 && payload.len() > 0
    }

    /// Why a push is refused, if it is.
    pub open spec fn push_refusal(self, kind: Seq<char>, payload: Seq<char>) -> Option<
        QueueError,
    > {
        if !Self::encodable(kind, payload) {
            Some(QueueError::SerializationError)
        } else if !self.online {
            Some(QueueError::StoreUnavailable)
        } else {
            None
        }
    }

    /// The store after a push was accepted at `now`.
    pub open spec fn pushed(self, kind: Seq<char>, payload: Seq<char>, now: nat) -> StoreModel {
        StoreModel {
            jobs: self.jobs.push(JobModel::fresh(self.jobs.len(), kind, payload, now)),
            ..self
        }
    }

    /// The store after every lease that has run out by `now` was taken back.
    pub open spec fn swept(self, now: nat) -> StoreModel {
        StoreModel {
            jobs: Seq::new(self.jobs.len(), |i: int| self.jobs[i].swept(now, self.max_attempts)),
            ..self
        }
    }

    /// No job of this kind may be handed out at `now`.
    pub open spec fn none_eligible(self, kind: Seq<char>, now: nat) -> bool {
        forall|i: int| 0 <= i < self.jobs.len() ==> !(#[trigger] self.jobs[i]).eligible(kind, now)
    }

    /// The record at `i` is the oldest one of this kind that may be handed out at `now`.
    pub open spec fn first_eligible(self, kind: Seq<char>, now: nat, i: int) -> bool {
        &&& 0 <= i < self.jobs.len()
        &&& self.jobs[i].eligible(kind, now)
        &&& forall|j: int| 0 <= j < i ==> !(#[trigger] self.jobs[j]).eligible(kind, now)
    }

    /// The position of the oldest job of this kind that may be handed out at
    /// `now`, where there is one.
    pub open spec fn next_eligible(self, kind: Seq<char>, now: nat) -> int {
        choose|i: int| self.first_eligible(kind, now, i)
    }

    /// The store after a reserve at `now`, and the job it hands out.
    ///
    /// Leases that have run out are taken back first. Then the oldest
    /// eligible job of the kind, if there is one, is leased for `lease` ticks.
    pub open spec fn reserve(self, kind: Seq<char>, lease: nat, now: nat) -> (
        StoreModel,
        Option<JobModel>,
    ) {
        let swept = self.swept(now);
        if swept.none_eligible(kind, now) {
            (swept, None)
        } else {
            let i = swept.next_eligible(kind, now);
            let job = swept.jobs[i].reserved(lease, now);
            (swept.with_job(i, job), Some(job))
        }
    }

    /// The reservation that attempt number `attempt` made of job `id` is still
    /// the current one.
    pub open spec fn holds_lease(self, id: nat, attempt: nat) -> bool {
        self.contains(id) && self.jobs[id as int].leased_to(attempt)
    }

    /// Why an acknowledge or a requeue is refused, if it is.
    pub open spec fn settle_refusal(self, id: nat, attempt: nat) -> Option<QueueError> {
        if !self.online {
            Some(QueueError::StoreUnavailable)
        } else if !self.holds_lease(id, attempt) {
            Some(QueueError::UnknownJob)
        } else {
            None
        }
    }

    /// The store after the current reservation of `id` was acknowledged.
    pub open spec fn acknowledged(self, id: nat) -> StoreModel {
        self.with_job(id as int, self.jobs[id as int].acknowledged())
    }

    /// The store after the current reservation of `id` was given back at `now`.
    pub open spec fn requeued(self, id: nat, delay: nat, now: nat) -> StoreModel {
        self.with_job(id as int, self.jobs[id as int].requeued(delay, now, self.max_attempts))
    }

    /// `later` is this store at a later time: the attempt budget is the same,
    /// no record is lost or renumbered, and each persists.
    pub open spec fn persists_as(self, later: StoreModel) -> bool {
        &&& later.max_attempts == self.max_attempts
        &&& later.jobs.len() >= self.jobs.len()
        &&& forall|i: int|
            0 <= i < self.jobs.len() ==> (#[trigger] self.jobs[i]).persists_as(later.jobs[i])
    }

    /// One store operation may turn `self` into `next`: no record is lost or
    /// renumbered, and each changes only as a record may.
    pub open spec fn may_become(self, next: StoreModel) -> bool {
        &&& next.max_attempts == self.max_attempts
        &&& next.jobs.len() >= self.jobs.len()
        &&& forall|i: int|
            0 <= i < self.jobs.len() ==> (#[trigger] self.jobs[i]).may_become(next.jobs[i])
    }
}

/// The content of the job that a reserve handed out, if any.
pub open spec fn job_model(found: Option<Job>) -> Option<JobModel> {
    match found {
        Some(job) => Some(job@),
        None => None,
    }
}

/// At most one record is the oldest eligible one.
pub proof fn lemma_first_eligible_is_next(m: StoreModel, kind: Seq<char>, now: nat, i: int)
    requires
        m.first_eligible(kind, now, i),
    ensures
        !m.none_eligible(kind, now),
        m.next_eligible(kind, now) == i,
{
    let chosen = m.next_eligible(kind, now);
    assert(m.first_eligible(kind, now, chosen));
    if chosen < i {
        assert(!m.jobs[chosen].eligible(kind, now));
    } else if i < chosen {
        assert(!m.jobs[i].eligible(kind, now));
    }
}

/// Where some record is eligible, one of them is the oldest.
pub proof fn lemma_some_eligible_has_first(m: StoreModel, kind: Seq<char>, now: nat, i: int)
    requires
        0 <= i < m.jobs.len(),
        m.jobs[i].eligible(kind, now),
    ensures
        m.first_eligible(kind, now, m.next_eligible(kind, now)),
        m.next_eligible(kind, now) <= i,
    decreases i,
{
    if forall|j: int| 0 <= j < i ==> !(#[trigger] m.jobs[j]).eligible(kind, now) {
        assert(m.first_eligible(kind, now, i));
        lemma_first_eligible_is_next(m, kind, now, i);
    } else {
        let j = choose|j: int| 0 <= j < i && (#[trigger] m.jobs[j]).eligible(kind, now);
        lemma_some_eligible_has_first(m, kind, now, j);
    }
}

/// An in-memory queue store.
pub struct QueueStore {
    jobs: Vec<Job>,
    max_attempts: u32,
    online: bool,
}

impl View for QueueStore {
    type V = StoreModel;

    closed spec fn view(&self) -> StoreModel {
        StoreModel {
            jobs: Seq::new(self.jobs@.len(), |i: int| self.jobs@[i]@),
            max_attempts: self.max_attempts as nat,
            online: self.online,
        }
    }
}

impl QueueStore {
    /// The invariant that every constructor establishes and every method keeps.
    pub open spec fn wf(&self) -> bool {
        self@.wf()
    }

    /// An empty, reachable store whose jobs may be attempted `max_attempts`
    /// times. A budget of zero is raised to one: a job is always delivered once.
    pub fn new(max_attempts: u32) -> (store: Self)
        ensures
            store.wf(),
            store@ == StoreModel::empty(if max_attempts == 0 { 1nat } else { max_attempts as nat }),
    {
        let budget: u32 = if max_attempts == 0 { 1 } else { max_attempts };
        let store = QueueStore { jobs: Vec::new(), max_attempts: budget, online: true };
        assert(store@.jobs =~= Seq::empty());
        store
    }

    /// An empty, reachable store with the default attempt budget.
    pub fn with_defaults() -> (store: Self)
        ensures
            store.wf(),
            store@ == StoreModel::empty(DEFAULT_MAX_ATTEMPTS as nat),
    {
        Self::new(DEFAULT_MAX_ATTEMPTS)
    }

    /// Persists a new pending job, visible at once, and returns its id.
    ///
    /// Refused with `SerializationError` when kind or payload is empty, and
    /// otherwise with `StoreUnavailable` when the store cannot be reached. A
    /// refused push leaves the store as it was.
    pub fn push(&mut self, kind: String, payload: String, now: u64) -> (r: Result<u64, QueueError>)
        requires
            old(self).wf(),
        ensures
            final(self).wf(),
            old(self)@.may_become(final(self)@),
            match old(self)@.push_refusal(kind@, payload@) {
                Some(e) => r == Err::<u64, QueueError>(e) && final(self)@ == old(self)@,
                None => r == Ok::<u64, QueueError>(old(self)@.jobs.len() as u64) && final(self)@
                    == old(self)@.pushed(kind@, payload@, now as nat),
            },
    {
        if kind.as_str().is_empty() || payload.as_str().is_empty() {
            return Err(QueueError::SerializationError);
        }
        if !self.online {
            return Err(QueueError::StoreUnavailable);
        }
        let id = self.jobs.len() as u64;
        let job = Job { id, kind, payload, attempt: 0, status: JobStatus::Pending, visible_at: now };
        self.jobs.push(job);
        assert(self@.jobs =~= old(self)@.pushed(kind@, payload@, now as nat).jobs);
        Ok(id)
    }

    /// Takes back every lease that has run out by `now`.
    fn sweep(&mut self, now: u64)
        requires
            old(self).wf(),
        ensures
            final(self).wf(),
            final(self)@ == old(self)@.swept(now as nat),
    {
        let n = self.jobs.len();
        let mut i: usize = 0;
        while i < n
            invariant
                i <= n,
                n == self.jobs.len(),
                n == old(self).jobs.len(),
                self.max_attempts == old(self).max_attempts,
                self.online == old(self).online,
                old(self).wf(),
                forall|j: int|
                    0 <= j < i ==> (#[trigger] self.jobs[j])@ == old(self).jobs[j]@.swept(
                        now as nat,
                        self.max_attempts as nat,
                    ),
                forall|j: int| i <= j < n ==> (#[trigger] self.jobs[j]) == old(self).jobs[j],
            decreases n - i,
        {
            assert(old(self)@.jobs[i as int] == old(self).jobs[i as int]@);
            if self.jobs[i].status == JobStatus::Reserved && self.jobs[i].visible_at <= now {
                self.jobs[i].status = status_after_failure(self.jobs[i].attempt, self.max_attempts);
            }
            i += 1;
        }
        proof {
            let target = old(self)@.swept(now as nat);
            assert(self@.jobs =~= target.jobs);
            assert forall|j: int| 0 <= j < target.jobs.len() implies (#[trigger] target.jobs[j]).id
                == j && target.jobs[j].wf(target.max_attempts) by {
                assert(old(self)@.jobs[j].wf(old(self)@.max_attempts));
            }
        }
    }

    /// Hands out the oldest job of `kind` that may run at `now`, for
    /// `lease_duration` ticks.
    ///
    /// Leases that have run out by `now` are taken back first, so a job whose
    /// worker vanished is delivered again, or dead-lettered when its attempts
    /// are used up. The job handed out is marked reserved, its attempt count
    /// goes up by one, and its lease ends at `now + lease_duration`. `Ok(None)`
    /// says that nothing is eligible. An unreachable store answers
    /// `StoreUnavailable` and changes nothing.
    pub fn reserve(&mut self, kind: &String, lease_duration: u64, now: u64) -> (r: Result<
        Option<Job>,
        QueueError,
    >)
        requires
            old(self).wf(),
            now + lease_duration <= u64::MAX,
        ensures
            final(self).wf(),
            old(self)@.may_become(final(self)@),
            match r {
                Err(e) => {
                    &&& e == QueueError::StoreUnavailable
                    &&& !old(self)@.online
                    &&& final(self)@ == old(self)@
                },
                Ok(found) => {
                    &&& old(self)@.online
                    &&& (final(self)@, job_model(found)) == old(self)@.reserve(
                        kind@,
                        lease_duration as nat,
                        now as nat,
                    )
                },
            },
    {
        if !self.online {
            proof {
                Self::lemma_may_become_self(self@);
            }
            return Err(QueueError::StoreUnavailable);
        }
        self.sweep(now);
        let ghost swept = self@;
        let n = self.jobs.len();
        let mut i: usize = 0;
        while i < n
            invariant
                i <= n,
                n == self.jobs.len(),
                self@ == swept,
                swept == old(self)@.swept(now as nat),
                old(self).wf(),
                old(self)@.online,
                self.wf(),
                now + lease_duration <= u64::MAX,
                forall|j: int| 0 <= j < i ==> !(#[trigger] swept.jobs[j]).eligible(kind@, now as nat),
            decreases n - i,
        {
            assert(swept.jobs[i as int] == self.jobs[i as int]@);
            if self.jobs[i].status == JobStatus::Pending && self.jobs[i].visible_at <= now
                && self.jobs[i].kind == *kind {
                assert(swept.jobs[i as int].wf(swept.max_attempts));
                self.jobs[i].status = JobStatus::Reserved;
                self.jobs[i].attempt = self.jobs[i].attempt + 1;
                self.jobs[i].visible_at = now + lease_duration;
                let job = self.jobs[i].clone();
                proof {
                    let taken = swept.jobs[i as int].reserved(lease_duration as nat, now as nat);
                    assert(job@ == taken);
                    assert(self@.jobs =~= swept.with_job(i as int, taken).jobs);
                    Self::lemma_with_job_may_become(swept, i as int, taken);
                    Self::lemma_reserve_may_become(
                        old(self)@,
                        now as nat,
                        i as int,
                        lease_duration as nat,
                    );
                    lemma_first_eligible_is_next(swept, kind@, now as nat, i as int);
                }
                return Ok(Some(job));
            }
            i += 1;
        }
        proof {
            Self::lemma_sweep_may_become(old(self)@, now as nat);
        }
        Ok(None)
    }

    /// Marks the job done whose current reservation is attempt number
    /// `attempt` of job `id`.
    ///
    /// An unreachable store answers `StoreUnavailable`. Otherwise the answer is
    /// `UnknownJob` unless the job exists, is reserved, and was last reserved
    /// as attempt `attempt`: a lease that was taken back, or lost to a later
    /// reservation, can no longer be acknowledged. A refusal changes nothing.
    pub fn acknowledge(&mut self, id: u64, attempt: u32) -> (r: Result<(), QueueError>)
        requires
            old(self).wf(),
        ensures
            final(self).wf(),
            old(self)@.may_become(final(self)@),
            match old(self)@.settle_refusal(id as nat, attempt as nat) {
                Some(e) => r == Err::<(), QueueError>(e) && final(self)@ == old(self)@,
                None => r == Ok::<(), QueueError>(()) && final(self)@ == old(self)@.acknowledged(
                    id as nat,
                ),
            },
    {
        proof {
            Self::lemma_may_become_self(self@);
        }
        if !self.online {
            return Err(QueueError::StoreUnavailable);
        }
        if id >= self.jobs.len() as u64 {
            return Err(QueueError::UnknownJob);
        }
        let i = id as usize;
        assert(self@.jobs[i as int] == self.jobs[i as int]@);
        if self.jobs[i].status != JobStatus::Reserved || self.jobs[i].attempt != attempt {
            return Err(QueueError::UnknownJob);
        }
        self.jobs[i].status = JobStatus::Done;
        proof {
            let done = old(self)@.jobs[i as int].acknowledged();
            assert(self@.jobs =~= old(self)@.acknowledged(id as nat).jobs);
            assert(old(self)@.jobs[i as int].wf(old(self)@.max_attempts));
            Self::lemma_with_job_may_become(old(self)@, i as int, done);
        }
        Ok(())
    }

    /// Gives back the job whose current reservation is attempt number
    /// `attempt` of job `id`, and returns the status it now has.
    ///
    /// The job becomes pending again, visible from `now + delay`, unless its
    /// attempts are used up: then it is dead-lettered. Refusals are those of
    /// [`QueueStore::acknowledge`].
    pub fn requeue(&mut self, id: u64, attempt: u32, delay: u64, now: u64) -> (r: Result<
        JobStatus,
        QueueError,
    >)
        requires
            old(self).wf(),
            now + delay <= u64::MAX,
        ensures
            final(self).wf(),
            old(self)@.may_become(final(self)@),
            match old(self)@.settle_refusal(id as nat, attempt as nat) {
                Some(e) => r == Err::<JobStatus, QueueError>(e) && final(self)@ == old(self)@,
                None => {
                    &&& r == Ok::<JobStatus, QueueError>(
                        JobModel::status_after_failure(attempt as nat, old(self)@.max_attempts),
                    )
                    &&& final(self)@ == old(self)@.requeued(id as nat, delay as nat, now as nat)
                },
            },
    {
        proof {
            Self::lemma_may_become_self(self@);
        }
        if !self.online {
            return Err(QueueError::StoreUnavailable);
        }
        if id >= self.jobs.len() as u64 {
            return Err(QueueError::UnknownJob);
        }
        let i = id as usize;
        assert(self@.jobs[i as int] == self.jobs[i as int]@);
        if self.jobs[i].status != JobStatus::Reserved || self.jobs[i].attempt != attempt {
            return Err(QueueError::UnknownJob);
        }
        let status = status_after_failure(attempt, self.max_attempts);
        if status == JobStatus::Pending {
            self.jobs[i].visible_at = now + delay;
        }
        self.jobs[i].status = status;
        proof {
            let back = old(self)@.jobs[i as int].requeued(
                delay as nat,
                now as nat,
                old(self)@.max_attempts,
            );
            assert(self@.jobs =~= old(self)@.requeued(id as nat, delay as nat, now as nat).jobs);
            assert(old(self)@.jobs[i as int].wf(old(self)@.max_attempts));
            Self::lemma_with_job_may_become(old(self)@, i as int, back);
        }
        Ok(status)
    }

    proof fn lemma_may_become_self(m: StoreModel)
        ensures
            m.may_become(m),
    {
    }

    proof fn lemma_sweep_may_become(m: StoreModel, now: nat)
        requires
            m.wf(),
        ensures
            m.may_become(m.swept(now)),
    {
    }

    /// Taking back expired leases and then reserving a pending job is a step
    /// that a store may take.
    proof fn lemma_reserve_may_become(m: StoreModel, now: nat, i: int, lease: nat)
        requires
            m.wf(),
            0 <= i < m.jobs.len(),
            m.swept(now).jobs[i].status is Pending,
        ensures
            m.may_become(m.swept(now).with_job(i, m.swept(now).jobs[i].reserved(lease, now))),
    {
        let next = m.swept(now).with_job(i, m.swept(now).jobs[i].reserved(lease, now));
        assert forall|j: int| 0 <= j < m.jobs.len() implies (#[trigger] m.jobs[j]).may_become(
            next.jobs[j],
        ) by {
            assert(m.jobs[j].wf(m.max_attempts));
        }
    }

    /// Replacing one record by a well-formed successor keeps the store
    /// well-formed and is a step that a store may take.
    proof fn lemma_with_job_may_become(m: StoreModel, i: int, job: JobModel)
        requires
            m.wf(),
            0 <= i < m.jobs.len(),
            m.jobs[i].may_become(job),
            job.wf(m.max_attempts),
        ensures
            m.with_job(i, job).wf(),
            m.may_become(m.with_job(i, job)),
    {
    }

    /// The number of records, whatever their status.
    pub fn len(&self) -> (count: usize)
        ensures
            count == self@.jobs.len(),
    {
        self.jobs.len()
    }

    /// The attempt budget of every job.
    pub fn max_attempts(&self) -> (budget: u32)
        ensures
            budget == self@.max_attempts,
    {
        self.max_attempts
    }

    /// Whether the store can be reached.
    pub fn is_online(&self) -> (online: bool)
        ensures
            online == self@.online,
    {
        self.online
    }

    /// Records whether the backing store can be reached. No record changes.
    pub fn set_online(&mut self, online: bool)
        ensures
            final(self)@ == (StoreModel { online, ..old(self)@ }),
    {
        self.online = online;
        assert(self@.jobs =~= old(self)@.jobs);
    }

    /// A copy of the record with this id, if there is one.
    pub fn get(&self, id: u64) -> (found: Option<Job>)
        ensures
            match found {
                Some(job) => self@.contains(id as nat) && job@ == self@.jobs[id as int],
                None => !self@.contains(id as nat),
            },
    {
        if id >= self.jobs.len() as u64 {
            return None;
        }
        let i = id as usize;
        Some(self.jobs[i].clone())
    }
}

} // verus!
