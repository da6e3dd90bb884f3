use job_queue::error::QueueError;
use job_queue::job::{status_after_failure, Job, JobStatus};
use job_queue::store::{QueueStore, DEFAULT_MAX_ATTEMPTS};

fn kind() -> String {
    String::from("ForgottenEmail")
}

fn payload(n: u32) -> String {
    format!("{{\"email\":\"user{}@example.com\"}}", n)
}

#[test]
fn new_store_is_empty_and_online() {
    let store = QueueStore::new(5);
    assert_eq!(store.len(), 0);
    assert_eq!(store.max_attempts(), 5);
    assert!(store.is_online());
    assert_eq!(store.get(0), None);
}

#[test]
fn default_store_uses_default_budget() {
    let store = QueueStore::with_defaults();
    assert_eq!(store.max_attempts(), DEFAULT_MAX_ATTEMPTS);
    assert_eq!(store.max_attempts(), 25);
    assert_eq!(store.len(), 0);
}

#[test]
fn zero_budget_is_raised_to_one() {
    let mut store = QueueStore::new(0);
    assert_eq!(store.max_attempts(), 1);
    let id = store.push(kind(), payload(1), 0).unwrap();
    let job = store.reserve(&kind(), 10, 0).unwrap().unwrap();
    assert_eq!(job.attempt, 1);
    assert_eq!(store.requeue(id, 1, 5, 1), Ok(JobStatus::DeadLettered));
}

#[test]
fn push_creates_pending_record() {
    let mut store = QueueStore::new(3);
    let id = store.push(kind(), payload(1), 42).unwrap();
    assert_eq!(id, 0);
    assert_eq!(store.len(), 1);
    assert_eq!(
        store.get(id),
        Some(Job {
            id: 0,
            kind: kind(),
            payload: payload(1),
            attempt: 0,
            status: JobStatus::Pending,
            visible_at: 42,
        })
    );
}

#[test]
fn push_assigns_ids_in_order() {
    let mut store = QueueStore::new(3);
    assert_eq!(store.push(kind(), payload(1), 0), Ok(0));
    assert_eq!(store.push(kind(), payload(2), 0), Ok(1));
    assert_eq!(store.push(String::from("Other"), payload(3), 0), Ok(2));
    assert_eq!(store.len(), 3);
}

#[test]
fn identical_pushes_get_distinct_ids() {
    let mut store = QueueStore::new(3);
    let first = store.push(kind(), payload(7), 10).unwrap();
    let second = store.push(kind(), payload(7), 10).unwrap();
    assert_ne!(first, second);
    assert_eq!(store.len(), 2);
    assert_eq!(store.get(first).unwrap().payload, store.get(second).unwrap().payload);
}

#[test]
fn push_refuses_empty_payload() {
    let mut store = QueueStore::new(3);
    assert_eq!(store.push(kind(), String::new(), 0), Err(QueueError::SerializationError));
    assert_eq!(store.len(), 0);
}

#[test]
fn push_refuses_empty_kind() {
    let mut store = QueueStore::new(3);
    assert_eq!(store.push(String::new(), payload(1), 0), Err(QueueError::SerializationError));
    assert_eq!(store.len(), 0);
}

#[test]
fn push_fails_when_store_is_down() {
    let mut store = QueueStore::new(3);
    store.set_online(false);
    assert!(!store.is_online());
    assert_eq!(store.push(kind(), payload(1), 0), Err(QueueError::StoreUnavailable));
    assert_eq!(store.len(), 0);
    store.set_online(true);
    assert_eq!(store.push(kind(), payload(1), 0), Ok(0));
}

#[test]
fn malformed_push_is_a_serialization_error_even_when_store_is_down() {
    let mut store = QueueStore::new(3);
    store.set_online(false);
    assert_eq!(store.push(kind(), String::new(), 0), Err(QueueError::SerializationError));
}

#[test]
fn reserve_on_empty_store_returns_none() {
    let mut store = QueueStore::new(3);
    assert_eq!(store.reserve(&kind(), 30, 0), Ok(None));
}

#[test]
fn reserve_hands_out_job_and_starts_lease() {
    let mut store = QueueStore::new(3);
    let id = store.push(kind(), payload(1), 100).unwrap();
    let job = store.reserve(&kind(), 30, 100).unwrap().unwrap();
    assert_eq!(
        job,
        Job {
            id,
            kind: kind(),
            payload: payload(1),
            attempt: 1,
            status: JobStatus::Reserved,
            visible_at: 130,
        }
    );
    assert_eq!(store.get(id), Some(job));
}

#[test]
fn reserve_skips_jobs_not_yet_visible() {
    let mut store = QueueStore::new(3);
    store.push(kind(), payload(1), 100).unwrap();
    assert_eq!(store.reserve(&kind(), 30, 99), Ok(None));
    assert!(store.reserve(&kind(), 30, 100).unwrap().is_some());
}

#[test]
fn reserve_filters_by_kind() {
    let mut store = QueueStore::new(3);
    let other = store.push(String::from("Other"), payload(1), 0).unwrap();
    let mine = store.push(kind(), payload(2), 0).unwrap();
    let job = store.reserve(&kind(), 30, 0).unwrap().unwrap();
    assert_eq!(job.id, mine);
    assert_eq!(store.get(other).unwrap().status, JobStatus::Pending);
    assert_eq!(store.reserve(&kind(), 30, 0), Ok(None));
}

#[test]
fn reserve_takes_oldest_eligible_first() {
    let mut store = QueueStore::new(3);
    let a = store.push(kind(), payload(1), 0).unwrap();
    let b = store.push(kind(), payload(2), 0).unwrap();
    let c = store.push(kind(), payload(3), 0).unwrap();
    assert_eq!(store.reserve(&kind(), 30, 0).unwrap().unwrap().id, a);
    assert_eq!(store.reserve(&kind(), 30, 0).unwrap().unwrap().id, b);
    assert_eq!(store.reserve(&kind(), 30, 0).unwrap().unwrap().id, c);
    assert_eq!(store.reserve(&kind(), 30, 0), Ok(None));
}

#[test]
fn requeued_job_can_be_overtaken_by_newer_job() {
    let mut store = QueueStore::new(3);
    let old = store.push(kind(), payload(1), 0).unwrap();
    let job = store.reserve(&kind(), 30, 0).unwrap().unwrap();
    assert_eq!(store.requeue(old, job.attempt, 50, 10), Ok(JobStatus::Pending));
    let new = store.push(kind(), payload(2), 20).unwrap();
    assert_eq!(store.reserve(&kind(), 100, 20).unwrap().unwrap().id, new);
    assert_eq!(store.reserve(&kind(), 30, 59), Ok(None));
    assert_eq!(store.reserve(&kind(), 30, 60).unwrap().unwrap().id, old);
}

#[test]
fn reserve_fails_when_store_is_down() {
    let mut store = QueueStore::new(3);
    let id = store.push(kind(), payload(1), 0).unwrap();
    store.set_online(false);
    assert_eq!(store.reserve(&kind(), 30, 0), Err(QueueError::StoreUnavailable));
    assert_eq!(store.get(id).unwrap().status, JobStatus::Pending);
    assert_eq!(store.get(id).unwrap().attempt, 0);
}

#[test]
fn no_double_reservation_while_lease_runs() {
    let mut store = QueueStore::new(3);
    let id = store.push(kind(), payload(1), 0).unwrap();
    let first = store.reserve(&kind(), 30, 0).unwrap().unwrap();
    assert_eq!(first.id, id);
    assert_eq!(store.reserve(&kind(), 30, 0), Ok(None));
    assert_eq!(store.reserve(&kind(), 30, 29), Ok(None));
    assert_eq!(store.get(id), Some(first));
}

#[test]
fn expired_lease_is_delivered_again() {
    let mut store = QueueStore::new(3);
    let id = store.push(kind(), payload(1), 0).unwrap();
    let first = store.reserve(&kind(), 30, 0).unwrap().unwrap();
    assert_eq!(first.attempt, 1);
    let second = store.reserve(&kind(), 45, 30).unwrap().unwrap();
    assert_eq!(second.id, id);
    assert_eq!(second.attempt, 2);
    assert_eq!(second.status, JobStatus::Reserved);
    assert_eq!(second.visible_at, 75);
    assert_eq!(second.payload, payload(1));
}

#[test]
fn stale_worker_cannot_settle_after_redelivery() {
    let mut store = QueueStore::new(3);
    let id = store.push(kind(), payload(1), 0).unwrap();
    let first = store.reserve(&kind(), 30, 0).unwrap().unwrap();
    let second = store.reserve(&kind(), 30, 100).unwrap().unwrap();
    assert_eq!(store.acknowledge(id, first.attempt), Err(QueueError::UnknownJob));
    assert_eq!(store.requeue(id, first.attempt, 5, 100), Err(QueueError::UnknownJob));
    assert_eq!(store.get(id).unwrap().status, JobStatus::Reserved);
    assert_eq!(store.acknowledge(id, second.attempt), Ok(()));
    assert_eq!(store.get(id).unwrap().status, JobStatus::Done);
}

#[test]
fn expired_but_unreclaimed_lease_can_still_be_acknowledged() {
    let mut store = QueueStore::new(3);
    let id = store.push(kind(), payload(1), 0).unwrap();
    let job = store.reserve(&kind(), 30, 0).unwrap().unwrap();
    assert_eq!(store.acknowledge(id, job.attempt), Ok(()));
    assert_eq!(store.get(id).unwrap().status, JobStatus::Done);
}

#[test]
fn expired_lease_with_spent_budget_is_dead_lettered() {
    let mut store = QueueStore::new(1);
    let id = store.push(kind(), payload(1), 0).unwrap();
    let job = store.reserve(&kind(), 30, 0).unwrap().unwrap();
    assert_eq!(job.attempt, 1);
    assert_eq!(store.reserve(&kind(), 30, 30), Ok(None));
    let record = store.get(id).unwrap();
    assert_eq!(record.status, JobStatus::DeadLettered);
    assert_eq!(record.attempt, 1);
    assert_eq!(store.acknowledge(id, 1), Err(QueueError::UnknownJob));
}

#[test]
fn sweep_reaches_jobs_of_every_kind() {
    let mut store = QueueStore::new(2);
    let other = store.push(String::from("Other"), payload(1), 0).unwrap();
    store.reserve(&String::from("Other"), 10, 0).unwrap().unwrap();
    assert_eq!(store.reserve(&kind(), 10, 10), Ok(None));
    assert_eq!(store.get(other).unwrap().status, JobStatus::Pending);
    assert_eq!(store.get(other).unwrap().attempt, 1);
}

#[test]
fn acknowledge_marks_job_done() {
    let mut store = QueueStore::new(3);
    let id = store.push(kind(), payload(1), 0).unwrap();
    let job = store.reserve(&kind(), 30, 0).unwrap().unwrap();
    assert_eq!(store.acknowledge(id, job.attempt), Ok(()));
    let record = store.get(id).unwrap();
    assert_eq!(record.status, JobStatus::Done);
    assert_eq!(record.attempt, 1);
    assert_eq!(record.visible_at, 30);
    assert_eq!(store.len(), 1);
}

#[test]
fn acknowledge_twice_is_refused() {
    let mut store = QueueStore::new(3);
    let id = store.push(kind(), payload(1), 0).unwrap();
    let job = store.reserve(&kind(), 30, 0).unwrap().unwrap();
    assert_eq!(store.acknowledge(id, job.attempt), Ok(()));
    assert_eq!(store.acknowledge(id, job.attempt), Err(QueueError::UnknownJob));
    assert_eq!(store.requeue(id, job.attempt, 0, 0), Err(QueueError::UnknownJob));
}

#[test]
fn acknowledge_unknown_id_is_refused() {
    let mut store = QueueStore::new(3);
    assert_eq!(store.acknowledge(0, 1), Err(QueueError::UnknownJob));
    store.push(kind(), payload(1), 0).unwrap();
    assert_eq!(store.acknowledge(1, 1), Err(QueueError::UnknownJob));
    assert_eq!(store.acknowledge(u64::MAX, 1), Err(QueueError::UnknownJob));
}

#[test]
fn acknowledge_of_pending_job_is_refused() {
    let mut store = QueueStore::new(3);
    let id = store.push(kind(), payload(1), 0).unwrap();
    assert_eq!(store.acknowledge(id, 0), Err(QueueError::UnknownJob));
    assert_eq!(store.get(id).unwrap().status, JobStatus::Pending);
}

#[test]
fn acknowledge_with_wrong_attempt_is_refused() {
    let mut store = QueueStore::new(3);
    let id = store.push(kind(), payload(1), 0).unwrap();
    store.reserve(&kind(), 30, 0).unwrap().unwrap();
    assert_eq!(store.acknowledge(id, 2), Err(QueueError::UnknownJob));
    assert_eq!(store.get(id).unwrap().status, JobStatus::Reserved);
}

#[test]
fn acknowledge_fails_when_store_is_down() {
    let mut store = QueueStore::new(3);
    let id = store.push(kind(), payload(1), 0).unwrap();
    let job = store.reserve(&kind(), 30, 0).unwrap().unwrap();
    store.set_online(false);
    assert_eq!(store.acknowledge(id, job.attempt), Err(QueueError::StoreUnavailable));
    assert_eq!(store.acknowledge(99, 1), Err(QueueError::StoreUnavailable));
    assert_eq!(store.get(id).unwrap().status, JobStatus::Reserved);
}

#[test]
fn requeue_makes_job_pending_after_delay() {
    let mut store = QueueStore::new(3);
    let id = store.push(kind(), payload(1), 0).unwrap();
    let job = store.reserve(&kind(), 30, 0).unwrap().unwrap();
    assert_eq!(store.requeue(id, job.attempt, 40, 7), Ok(JobStatus::Pending));
    let record = store.get(id).unwrap();
    assert_eq!(record.status, JobStatus::Pending);
    assert_eq!(record.visible_at, 47);
    assert_eq!(record.attempt, 1);
    assert_eq!(store.reserve(&kind(), 30, 46), Ok(None));
    assert_eq!(store.reserve(&kind(), 30, 47).unwrap().unwrap().attempt, 2);
}

#[test]
fn requeue_dead_letters_when_budget_is_spent() {
    let mut store = QueueStore::new(2);
    let id = store.push(kind(), payload(1), 0).unwrap();
    store.reserve(&kind(), 30, 0).unwrap().unwrap();
    assert_eq!(store.requeue(id, 1, 0, 0), Ok(JobStatus::Pending));
    store.reserve(&kind(), 30, 0).unwrap().unwrap();
    assert_eq!(store.requeue(id, 2, 0, 0), Ok(JobStatus::DeadLettered));
    let record = store.get(id).unwrap();
    assert_eq!(record.status, JobStatus::DeadLettered);
    assert_eq!(record.attempt, 2);
    assert_eq!(record.visible_at, 30);
}

#[test]
fn requeue_unknown_job_is_refused() {
    let mut store = QueueStore::new(3);
    assert_eq!(store.requeue(5, 1, 0, 0), Err(QueueError::UnknownJob));
    let id = store.push(kind(), payload(1), 0).unwrap();
    assert_eq!(store.requeue(id, 0, 0, 0), Err(QueueError::UnknownJob));
}

#[test]
fn requeue_fails_when_store_is_down() {
    let mut store = QueueStore::new(3);
    let id = store.push(kind(), payload(1), 0).unwrap();
    let job = store.reserve(&kind(), 30, 0).unwrap().unwrap();
    store.set_online(false);
    assert_eq!(store.requeue(id, job.attempt, 0, 0), Err(QueueError::StoreUnavailable));
    assert_eq!(store.get(id), Some(job));
}

#[test]
fn dead_lettered_job_is_never_reserved_again() {
    let mut store = QueueStore::new(1);
    let id = store.push(kind(), payload(1), 0).unwrap();
    store.reserve(&kind(), 30, 0).unwrap().unwrap();
    assert_eq!(store.requeue(id, 1, 0, 0), Ok(JobStatus::DeadLettered));
    assert_eq!(store.reserve(&kind(), 30, 0), Ok(None));
    assert_eq!(store.reserve(&kind(), 30, u64::MAX - 30), Ok(None));
    assert_eq!(store.get(id).unwrap().status, JobStatus::DeadLettered);
}

#[test]
fn done_job_is_never_reserved_again() {
    let mut store = QueueStore::new(3);
    let id = store.push(kind(), payload(1), 0).unwrap();
    store.reserve(&kind(), 30, 0).unwrap().unwrap();
    store.acknowledge(id, 1).unwrap();
    assert_eq!(store.reserve(&kind(), 30, 1_000_000), Ok(None));
    assert_eq!(store.get(id).unwrap().status, JobStatus::Done);
    assert_eq!(store.get(id).unwrap().attempt, 1);
}

#[test]
fn set_online_keeps_records() {
    let mut store = QueueStore::new(3);
    let id = store.push(kind(), payload(1), 3).unwrap();
    let before = store.get(id);
    store.set_online(false);
    store.set_online(true);
    assert_eq!(store.get(id), before);
    assert_eq!(store.len(), 1);
    assert_eq!(store.max_attempts(), 3);
}

#[test]
fn status_terminal_flags() {
    assert!(!JobStatus::Pending.terminal());
    assert!(!JobStatus::Reserved.terminal());
    assert!(JobStatus::Done.terminal());
    assert!(JobStatus::DeadLettered.terminal());
}

#[test]
fn job_clone_is_equal() {
    let job = Job {
        id: 9,
        kind: kind(),
        payload: payload(9),
        attempt: 4,
        status: JobStatus::Reserved,
        visible_at: 77,
    };
    assert_eq!(job.clone(), job);
}

#[test]
fn error_messages() {
    assert_eq!(QueueError::StoreUnavailable.message(), "queue store unavailable");
    assert_eq!(QueueError::SerializationError.message(), "job payload could not be serialized");
    assert_eq!(QueueError::UnknownJob.message(), "unknown job");
}

#[test]
fn failure_of_last_attempt_dead_letters() {
    assert_eq!(status_after_failure(1, 3), JobStatus::Pending);
    assert_eq!(status_after_failure(2, 3), JobStatus::Pending);
    assert_eq!(status_after_failure(3, 3), JobStatus::DeadLettered);
    assert_eq!(status_after_failure(4, 3), JobStatus::DeadLettered);
    assert_eq!(status_after_failure(0, 0), JobStatus::DeadLettered);
}
