//! What the queue guarantees, stated over the models of the store and of its
//! records and proved from the definitions of the operations.
use vstd::prelude::*;

use crate::backoff::{lemma_delay_monotone, BackoffPolicy};
use crate::error::QueueError;
use crate::job::JobModel;
use crate::store::{lemma_first_eligible_is_next, lemma_some_eligible_has_first, StoreModel};

verus! {

/// A store persists as itself, and leaving it alone is a step it may take.
pub proof fn lemma_store_persists_as_itself(m: StoreModel)
    ensures
        m.persists_as(m),
        m.may_become(m),
{
}

/// What persists through one stretch of time and then another persists
/// through both.
pub proof fn lemma_persists_transitive(a: StoreModel, b: StoreModel, c: StoreModel)
    requires
        a.persists_as(b),
        b.persists_as(c),
    ensures
        a.persists_as(c),
{
    assert forall|i: int| 0 <= i < a.jobs.len() implies (#[trigger] a.jobs[i]).persists_as(
        c.jobs[i],
    ) by {
        assert(a.jobs[i].persists_as(b.jobs[i]));
        assert(b.jobs[i].persists_as(c.jobs[i]));
    }
}

/// Every single operation lets the store persist.
pub proof fn lemma_step_persists(m: StoreModel, next: StoreModel)
    requires
        m.may_become(next),
    ensures
        m.persists_as(next),
{
    assert forall|i: int| 0 <= i < m.jobs.len() implies (#[trigger] m.jobs[i]).persists_as(
        next.jobs[i],
    ) by {
        assert(m.jobs[i].may_become(next.jobs[i]));
    }
}

/// An accepted push keeps the invariant and adds a pending record, never
/// attempted, under the next free id.
pub proof fn lemma_push_adds_record(m: StoreModel, kind: Seq<char>, payload: Seq<char>, now: nat)
    requires
        m.wf(),
    ensures
        m.pushed(kind, payload, now).wf(),
        m.may_become(m.pushed(kind, payload, now)),
        !m.contains(m.jobs.len()),
        m.pushed(kind, payload, now).contains(m.jobs.len()),
        m.pushed(kind, payload, now).jobs[m.jobs.len() as int] == JobModel::fresh(
            m.jobs.len(),
            kind,
            payload,
            now,
        ),
{
}

/// Two pushes never return the same id, whatever they carry and whatever
/// happens to the store between them: nothing is deduplicated.
pub proof fn lemma_pushes_get_distinct_ids(
    m: StoreModel,
    kind: Seq<char>,
    payload: Seq<char>,
    now: nat,
    later: StoreModel,
)
    requires
        m.wf(),
        m.pushed(kind, payload, now).persists_as(later),
    ensures
        m.jobs.len() != later.jobs.len(),
        later.contains(m.jobs.len()),
        later.jobs[m.jobs.len() as int].id == m.jobs.len(),
{
    lemma_push_adds_record(m, kind, payload, now);
    let first = m.pushed(kind, payload, now);
    assert(first.jobs[m.jobs.len() as int].persists_as(later.jobs[m.jobs.len() as int]));
}

/// A reserve keeps the invariant. The job it hands out is of the kind asked
/// for, was pending and visible, is now reserved until `now + lease`, and has
/// one attempt more than before, within the budget.
pub proof fn lemma_reserve_hands_out(m: StoreModel, kind: Seq<char>, lease: nat, now: nat)
    requires
        m.wf(),
    ensures
        m.reserve(kind, lease, now).0.wf(),
        m.may_become(m.reserve(kind, lease, now).0),
        match m.reserve(kind, lease, now).1 {
            None => m.swept(now).none_eligible(kind, now) && m.reserve(kind, lease, now).0
                == m.swept(now),
            Some(job) => {
                let before = m.swept(now).jobs[job.id as int];
                &&& m.contains(job.id)
                &&& m.swept(now).first_eligible(kind, now, job.id as int)
                &&& job == before.reserved(lease, now)
                &&& job.kind == kind
                &&& job.status is Reserved
                &&& job.visible_at == now + lease
                &&& job.attempt == m.jobs[job.id as int].attempt + 1
                &&& job.attempt <= m.max_attempts
                &&& m.reserve(kind, lease, now).0 == m.swept(now).with_job(job.id as int, job)
            },
        },
{
    let swept = m.swept(now);
    assert(swept.wf()) by {
        assert forall|j: int| 0 <= j < swept.jobs.len() implies (#[trigger] swept.jobs[j]).id == j
            && swept.jobs[j].wf(swept.max_attempts) by {
            assert(m.jobs[j].wf(m.max_attempts));
        }
    }
    assert(m.may_become(swept)) by {
        assert forall|j: int| 0 <= j < m.jobs.len() implies (#[trigger] m.jobs[j]).may_become(
            swept.jobs[j],
        ) by {
            assert(m.jobs[j].wf(m.max_attempts));
        }
    }
    if !swept.none_eligible(kind, now) {
        let w = choose|w: int| 0 <= w < swept.jobs.len() && (#[trigger] swept.jobs[w]).eligible(kind, now);
        lemma_some_eligible_has_first(swept, kind, now, w);
        let i = swept.next_eligible(kind, now);
        let job = swept.jobs[i].reserved(lease, now);
        assert(swept.jobs[i].wf(swept.max_attempts));
        assert(m.jobs[i].wf(m.max_attempts));
        let after = swept.with_job(i, job);
        assert forall|j: int| 0 <= j < m.jobs.len() implies (#[trigger] m.jobs[j]).may_become(
            after.jobs[j],
        ) by {
            assert(m.jobs[j].may_become(swept.jobs[j]));
        }
    }
}

/// At any instant at most one reservation of a job can be settled: the one
/// made by the job's latest attempt, while the job is reserved.
pub proof fn lemma_one_lease_per_job(m: StoreModel, id: nat, attempt: nat, other: nat)
    requires
        m.holds_lease(id, attempt),
        m.holds_lease(id, other),
    ensures
        attempt == other,
        m.jobs[id as int].status is Reserved,
{
}

/// The attempt count of a job counts its deliveries: a reserve adds one to
/// the count of the job it hands out and leaves every other count as it is,
/// and neither an acknowledge nor a requeue changes any count. So no job is
/// delivered more often than the budget allows.
pub proof fn lemma_attempts_count_deliveries(
    m: StoreModel,
    kind: Seq<char>,
    lease: nat,
    now: nat,
    id: nat,
    delay: nat,
)
    requires
        m.wf(),
        m.contains(id),
    ensures
        forall|i: int|
            0 <= i < m.jobs.len() ==> (#[trigger] m.reserve(kind, lease, now).0.jobs[i]).attempt
                == m.jobs[i].attempt + (if m.reserve(kind, lease, now).1 == Some(
                m.reserve(kind, lease, now).0.jobs[i],
            ) {
                1nat
            } else {
                0nat
            }),
        forall|i: int|
            0 <= i < m.jobs.len() ==> (#[trigger] m.acknowledged(id).jobs[i]).attempt
                == m.jobs[i].attempt,
        forall|i: int|
            0 <= i < m.jobs.len() ==> (#[trigger] m.requeued(id, delay, now).jobs[i]).attempt
                == m.jobs[i].attempt,
        forall|i: int| 0 <= i < m.jobs.len() ==> (#[trigger] m.jobs[i]).attempt <= m.max_attempts,
{
    lemma_reserve_hands_out(m, kind, lease, now);
    let (after, handed) = m.reserve(kind, lease, now);
    assert forall|i: int| 0 <= i < m.jobs.len() implies (#[trigger] after.jobs[i]).attempt
        == m.jobs[i].attempt + (if handed == Some(after.jobs[i]) {
        1nat
    } else {
        0nat
    }) by {
        assert(after.jobs[i].id == i);
        assert(m.jobs[i].wf(m.max_attempts));
    }
    assert forall|i: int| 0 <= i < m.jobs.len() implies (#[trigger] m.jobs[i]).attempt
        <= m.max_attempts by {
        assert(m.jobs[i].wf(m.max_attempts));
    }
}

/// A job whose lease has not run out is handed to nobody else, and its
/// record stays as it is.
pub proof fn lemma_leased_job_is_exclusive(
    m: StoreModel,
    id: nat,
    kind: Seq<char>,
    lease: nat,
    now: nat,
)
    requires
        m.wf(),
        m.contains(id),
        m.jobs[id as int].status is Reserved,
        now < m.jobs[id as int].visible_at,
    ensures
        m.reserve(kind, lease, now).1 matches Some(job) ==> job.id != id,
        m.reserve(kind, lease, now).0.jobs[id as int] == m.jobs[id as int],
{
    lemma_reserve_hands_out(m, kind, lease, now);
}

/// Two reserves do not hand out the same job while the first lease runs.
pub proof fn lemma_reserves_do_not_overlap(
    m: StoreModel,
    kind: Seq<char>,
    lease: nat,
    now: nat,
    other_kind: Seq<char>,
    other_lease: nat,
    then: nat,
)
    requires
        m.wf(),
        then < now + lease,
    ensures
        ({
            let (after, first) = m.reserve(kind, lease, now);
            let (_, second) = after.reserve(other_kind, other_lease, then);
            first is Some && second is Some ==> first->0.id != second->0.id
        }),
{
    lemma_reserve_hands_out(m, kind, lease, now);
    let (after, handed) = m.reserve(kind, lease, now);
    if let Some(first) = handed {
        lemma_leased_job_is_exclusive(after, first.id, other_kind, other_lease, then);
    }
}

/// A pending job that is due is delivered: a reserve for its kind hands out
/// that job, with one attempt more, unless an older job of the kind is
/// eligible and goes first.
pub proof fn lemma_due_job_is_delivered(m: StoreModel, id: nat, lease: nat, now: nat)
    requires
        m.wf(),
        m.contains(id),
        m.jobs[id as int].status is Pending,
        m.jobs[id as int].visible_at <= now,
    ensures
        ({
            let job = m.jobs[id as int];
            let (after, handed) = m.reserve(job.kind, lease, now);
            &&& handed matches Some(first)
            &&& first.id <= id
            &&& first.id == id ==> first == job.reserved(lease, now)
            &&& (forall|i: int|
                0 <= i < id ==> !(#[trigger] m.swept(now).jobs[i]).eligible(job.kind, now))
                ==> first.id == id
        }),
{
    let job = m.jobs[id as int];
    let swept = m.swept(now);
    lemma_reserve_hands_out(m, job.kind, lease, now);
    assert(swept.jobs[id as int].eligible(job.kind, now));
    lemma_some_eligible_has_first(swept, job.kind, now, id as int);
    if forall|i: int| 0 <= i < id ==> !(#[trigger] swept.jobs[i]).eligible(job.kind, now) {
        assert(swept.first_eligible(job.kind, now, id as int));
        lemma_first_eligible_is_next(swept, job.kind, now, id as int);
    }
}

/// A reservation that was never settled comes to an end with its lease.
///
/// From the instant the lease runs out, a reserve for the job's kind hands
/// out that job again, with one attempt more, unless an older job of the kind
/// is eligible and goes first. A job whose attempts are used up is
/// dead-lettered by that reserve instead.
pub proof fn lemma_expired_lease_is_recovered(m: StoreModel, id: nat, lease: nat, now: nat)
    requires
        m.wf(),
        m.contains(id),
        m.jobs[id as int].status is Reserved,
        m.jobs[id as int].visible_at <= now,
    ensures
        ({
            let job = m.jobs[id as int];
            let (after, handed) = m.reserve(job.kind, lease, now);
            if job.attempt < m.max_attempts {
                &&& m.swept(now).jobs[id as int].eligible(job.kind, now)
                &&& handed matches Some(again)
                &&& again.id <= id
                &&& again.id == id ==> {
                    &&& again.attempt == job.attempt + 1
                    &&& again.payload == job.payload
                    &&& again.visible_at == now + lease
                }
                &&& (forall|i: int| 0 <= i < id ==> !(#[trigger] m.swept(now).jobs[i]).eligible(job.kind, now))
                    ==> again.id == id
            } else {
                &&& after.jobs[id as int].status is DeadLettered
                &&& handed matches Some(other) ==> other.id != id
            }
        }),
{
    let job = m.jobs[id as int];
    let swept = m.swept(now);
    lemma_reserve_hands_out(m, job.kind, lease, now);
    assert(job.wf(m.max_attempts));
    if job.attempt < m.max_attempts {
        assert(swept.jobs[id as int].eligible(job.kind, now));
        lemma_some_eligible_has_first(swept, job.kind, now, id as int);
        if forall|i: int| 0 <= i < id ==> !(#[trigger] swept.jobs[i]).eligible(job.kind, now) {
            assert(swept.first_eligible(job.kind, now, id as int));
            lemma_first_eligible_is_next(swept, job.kind, now, id as int);
        }
    }
}

/// A job that is done or dead-lettered stays so for good: its record never
/// changes again, no reservation of it can be settled any more, and no
/// reserve hands it out.
pub proof fn lemma_final_status_is_kept(m: StoreModel, id: nat, later: StoreModel)
    requires
        m.wf(),
        m.contains(id),
        m.jobs[id as int].status.is_terminal(),
        m.persists_as(later),
        later.wf(),
    ensures
        later.contains(id),
        later.jobs[id as int] == m.jobs[id as int],
        forall|attempt: nat| later.online ==> #[trigger] later.settle_refusal(id, attempt) == Some(QueueError::UnknownJob),
        forall|kind: Seq<char>, lease: nat, now: nat|
            (#[trigger] later.reserve(kind, lease, now)).1 matches Some(job) ==> job.id != id,
        forall|kind: Seq<char>, lease: nat, now: nat|
            (#[trigger] later.reserve(kind, lease, now)).0.jobs[id as int] == m.jobs[id as int],
{
    assert(m.jobs[id as int].persists_as(later.jobs[id as int]));
    assert forall|kind: Seq<char>, lease: nat, now: nat|
        ((#[trigger] later.reserve(kind, lease, now)).1 matches Some(job) ==> job.id != id)
        && later.reserve(kind, lease, now).0.jobs[id as int] == m.jobs[id as int] by {
        lemma_reserve_hands_out(later, kind, lease, now);
    }
}

/// A reservation is acknowledged at most once: after the acknowledge, every
/// further acknowledge or requeue of the job is refused as unknown.
pub proof fn lemma_acknowledged_once(m: StoreModel, id: nat, attempt: nat, later: StoreModel)
    requires
        m.wf(),
        m.settle_refusal(id, attempt) is None,
        m.acknowledged(id).persists_as(later),
        later.wf(),
        later.online,
    ensures
        m.acknowledged(id).wf(),
        m.may_become(m.acknowledged(id)),
        later.jobs[id as int].status is Done,
        forall|again: nat| #[trigger] later.settle_refusal(id, again) == Some(QueueError::UnknownJob),
{
    let done = m.acknowledged(id);
    assert(m.jobs[id as int].wf(m.max_attempts));
    lemma_final_status_is_kept(done, id, later);
}

/// Giving a job back keeps the invariant. The job is dead-lettered exactly
/// when the attempt given back was the last of the budget; otherwise it is
/// pending and becomes visible `delay` ticks after `now`.
pub proof fn lemma_requeue_outcome(m: StoreModel, id: nat, attempt: nat, delay: nat, now: nat)
    requires
        m.wf(),
        m.settle_refusal(id, attempt) is None,
    ensures
        m.requeued(id, delay, now).wf(),
        m.may_become(m.requeued(id, delay, now)),
        ({
            let job = m.requeued(id, delay, now).jobs[id as int];
            &&& job.attempt == attempt
            &&& attempt == m.max_attempts ==> job.status is DeadLettered
            &&& attempt < m.max_attempts ==> job.status is Pending && job.visible_at == now + delay
        }),
{
    assert(m.jobs[id as int].wf(m.max_attempts));
}

/// How many more deliveries the budget allows this record.
pub open spec fn deliveries_left(job: JobModel, max_attempts: nat) -> nat {
    if job.status.is_terminal() || job.attempt >= max_attempts {
        0
    } else {
        (max_attempts - job.attempt) as nat
    }
}

/// How many more deliveries the budget allows these records together.
pub open spec fn total_deliveries_left(jobs: Seq<JobModel>, max_attempts: nat) -> nat
    decreases jobs.len(),
{
    if jobs.len() == 0 {
        0
    } else {
        total_deliveries_left(jobs.drop_last(), max_attempts) + deliveries_left(
            jobs.last(),
            max_attempts,
        )
    }
}

/// Replacing one record changes the total by what that record's own
/// allowance changes.
pub proof fn lemma_total_after_update(jobs: Seq<JobModel>, max_attempts: nat, i: int, job: JobModel)
    requires
        0 <= i < jobs.len(),
    ensures
        total_deliveries_left(jobs.update(i, job), max_attempts) + deliveries_left(
            jobs[i],
            max_attempts,
        ) == total_deliveries_left(jobs, max_attempts) + deliveries_left(job, max_attempts),
    decreases jobs.len(),
{
    let updated = jobs.update(i, job);
    if i == jobs.len() - 1 {
        assert(updated.drop_last() =~= jobs.drop_last());
    } else {
        assert(updated.drop_last() =~= jobs.drop_last().update(i, job));
        lemma_total_after_update(jobs.drop_last(), max_attempts, i, job);
    }
}

/// Records with the same allowances, one by one, have the same total.
pub proof fn lemma_total_of_like_records(a: Seq<JobModel>, b: Seq<JobModel>, max_attempts: nat)
    requires
        a.len() == b.len(),
        forall|i: int|
            0 <= i < a.len() ==> deliveries_left(#[trigger] a[i], max_attempts) == deliveries_left(
                b[i],
                max_attempts,
            ),
    ensures
        total_deliveries_left(a, max_attempts) == total_deliveries_left(b, max_attempts),
    decreases a.len(),
{
    if a.len() > 0 {
        assert forall|i: int| 0 <= i < a.drop_last().len() implies deliveries_left(
            #[trigger] a.drop_last()[i],
            max_attempts,
        ) == deliveries_left(b.drop_last()[i], max_attempts) by {
            assert(a.drop_last()[i] == a[i]);
            assert(b.drop_last()[i] == b[i]);
        }
        lemma_total_of_like_records(a.drop_last(), b.drop_last(), max_attempts);
        assert(a.last() == a[a.len() - 1]);
    }
}

/// Deliveries cannot go on for ever. Every reserve that hands out a job uses
/// up one of the deliveries that the store's records are still allowed, and
/// nothing but a push adds to them: an empty reserve leaves their number as it
/// is, an acknowledge and a requeue never raise it, and a push adds the
/// budget of one job.
pub proof fn lemma_deliveries_are_bounded(
    m: StoreModel,
    kind: Seq<char>,
    payload: Seq<char>,
    lease: nat,
    now: nat,
    id: nat,
    attempt: nat,
    delay: nat,
)
    requires
        m.wf(),
    ensures
        ({
            let left = total_deliveries_left(m.jobs, m.max_attempts);
            let (after, handed) = m.reserve(kind, lease, now);
            &&& handed is Some ==> total_deliveries_left(after.jobs, m.max_attempts) + 1 == left
            &&& handed is None ==> total_deliveries_left(after.jobs, m.max_attempts) == left
            &&& total_deliveries_left(m.pushed(kind, payload, now).jobs, m.max_attempts) == left
                + m.max_attempts
            &&& m.holds_lease(id, attempt) ==> {
                &&& total_deliveries_left(m.acknowledged(id).jobs, m.max_attempts) <= left
                &&& total_deliveries_left(m.requeued(id, delay, now).jobs, m.max_attempts)
                    == left
            }
        }),
{
    let max = m.max_attempts;
    let swept = m.swept(now);
    assert forall|i: int| 0 <= i < m.jobs.len() implies deliveries_left(
        #[trigger] m.jobs[i],
        max,
    ) == deliveries_left(swept.jobs[i], max) by {
        assert(m.jobs[i].wf(max));
    }
    lemma_total_of_like_records(m.jobs, swept.jobs, max);
    lemma_reserve_hands_out(m, kind, lease, now);
    let (after, handed) = m.reserve(kind, lease, now);
    if let Some(job) = handed {
        let i = job.id as int;
        assert(swept.jobs[i].wf(max)) by {
            assert(m.jobs[i].wf(max));
        }
        lemma_total_after_update(swept.jobs, max, i, job);
    }
    let pushed = m.pushed(kind, payload, now);
    assert(pushed.jobs.drop_last() =~= m.jobs);
    if m.holds_lease(id, attempt) {
        assert(m.jobs[id as int].wf(max));
        lemma_total_after_update(m.jobs, max, id as int, m.jobs[id as int].acknowledged());
        lemma_total_after_update(
            m.jobs,
            max,
            id as int,
            m.jobs[id as int].requeued(delay, now, max),
        );
    }
}

/// How a delivery came to an end.
pub enum DeliveryEnd {
    /// The handler succeeded and the reservation was acknowledged.
    Acknowledged,
    /// The handler failed and the job was given back at `failed_at`, to wait
    /// `delay` ticks.
    GivenBack { delay: nat, failed_at: nat },
    /// The worker vanished; the lease ran out and was taken back `overdue`
    /// ticks after its end.
    Abandoned { overdue: nat },
}

/// One delivery of a job: the reserve that handed it out, and how the
/// delivery ended.
pub struct Delivery {
    pub reserved_at: nat,
    pub lease: nat,
    pub end: DeliveryEnd,
}

/// The record of a pending job after one delivery.
pub open spec fn after_delivery(job: JobModel, max_attempts: nat, delivery: Delivery) -> JobModel {
    let leased = job.reserved(delivery.lease, delivery.reserved_at);
    match delivery.end {
        DeliveryEnd::Acknowledged => leased.acknowledged(),
        DeliveryEnd::GivenBack { delay, failed_at } => leased.requeued(
            delay,
            failed_at,
            max_attempts,
        ),
        DeliveryEnd::Abandoned { overdue } => leased.swept(
            leased.visible_at + overdue,
            max_attempts,
        ),
    }
}

/// The record of a job after the deliveries in `history`, one after the
/// other. A job that is no longer pending is not delivered: what `history`
/// holds beyond that point does not take place.
pub open spec fn after_deliveries(job: JobModel, max_attempts: nat, history: Seq<Delivery>) -> JobModel
    decreases history.len(),
{
    if history.len() == 0 {
        job
    } else {
        let before = after_deliveries(job, max_attempts, history.drop_last());
        if before.status is Pending {
            after_delivery(before, max_attempts, history.last())
        } else {
            before
        }
    }
}

/// How many deliveries of `history` took place and ended in an acknowledge.
pub open spec fn acknowledgements(job: JobModel, max_attempts: nat, history: Seq<Delivery>) -> nat
    decreases history.len(),
{
    if history.len() == 0 {
        0
    } else {
        let earlier = acknowledgements(job, max_attempts, history.drop_last());
        let before = after_deliveries(job, max_attempts, history.drop_last());
        if before.status is Pending && history.last().end is Acknowledged {
            earlier + 1
        } else {
            earlier
        }
    }
}

/// Every job comes to an end, and to exactly one. However its deliveries
/// end, a pending job is acknowledged at most once; it is done exactly when
/// it was acknowledged; it is dead-lettered only with its attempts used up;
/// and it is done or dead-lettered at the latest when as many deliveries have
/// been tried as it had attempts left.
pub proof fn lemma_every_job_comes_to_an_end(
    job: JobModel,
    max_attempts: nat,
    history: Seq<Delivery>,
)
    requires
        job.wf(max_attempts),
        job.status is Pending,
    ensures
        ({
            let end = after_deliveries(job, max_attempts, history);
            let acknowledged = acknowledgements(job, max_attempts, history);
            &&& end.wf(max_attempts)
            &&& job.persists_as(end)
            &&& end.status is Pending || end.status.is_terminal()
            &&& acknowledged <= 1
            &&& end.status is Done <==> acknowledged == 1
            &&& end.status is DeadLettered ==> end.attempt == max_attempts
            &&& end.status is Pending ==> end.attempt == job.attempt + history.len()
            &&& end.attempt <= job.attempt + history.len()
            &&& job.attempt + history.len() >= max_attempts ==> end.status.is_terminal()
        }),
    decreases history.len(),
{
    if history.len() > 0 {
        lemma_every_job_comes_to_an_end(job, max_attempts, history.drop_last());
    }
}

/// Every delivery of `history` ended with the job given back.
pub open spec fn all_given_back(history: Seq<Delivery>) -> bool {
    forall|i: int| 0 <= i < history.len() ==> (#[trigger] history[i]).end is GivenBack
}

/// A job whose handler always fails is delivered until its attempts are used
/// up, and no further: each failed delivery adds one attempt, the job stays
/// pending while attempts are left, and the failure of the last attempt
/// dead-letters it.
pub proof fn lemma_failing_job_is_dead_lettered(
    job: JobModel,
    max_attempts: nat,
    history: Seq<Delivery>,
)
    requires
        job.wf(max_attempts),
        job.status is Pending,
        all_given_back(history),
    ensures
        ({
            let end = after_deliveries(job, max_attempts, history);
            &&& job.attempt + history.len() < max_attempts ==> {
                &&& end.status is Pending
                &&& end.attempt == job.attempt + history.len()
            }
            &&& job.attempt + history.len() >= max_attempts ==> {
                &&& end.status is DeadLettered
                &&& end.attempt == max_attempts
            }
        }),
    decreases history.len(),
{
    if history.len() > 0 {
        let earlier = history.drop_last();
        assert forall|i: int| 0 <= i < earlier.len() implies (#[trigger] earlier[i]).end
            is GivenBack by {
            assert(earlier[i] == history[i]);
        }
        lemma_failing_job_is_dead_lettered(job, max_attempts, earlier);
        assert(history.last() == history[history.len() - 1]);
    }
}

/// Backoff never shortens: a job given back after a later attempt becomes
/// visible no earlier than the delay of any earlier attempt would have
/// allowed, and no later than the cap allows.
pub proof fn lemma_backoff_never_shortens(
    policy: BackoffPolicy,
    job: JobModel,
    max_attempts: nat,
    now: nat,
    earlier: nat,
)
    requires
        earlier <= job.attempt < max_attempts,
    ensures
        ({
            let back = job.requeued(policy.delay_of(job.attempt), now, max_attempts);
            now + policy.delay_of(earlier) <= back.visible_at <= now + policy.cap
        }),
{
    lemma_delay_monotone(policy.base as nat, policy.cap as nat, earlier, job.attempt);
}

} // verus!
