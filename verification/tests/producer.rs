use job_queue::backoff::BackoffPolicy;
use job_queue::error::QueueError;
use job_queue::job::JobStatus;
use job_queue::producer::{enqueue, respond, submit, ForgottenEmail, SubmissionResponse};
use job_queue::store::QueueStore;
use job_queue::worker::{settle, HandlerOutcome, Settlement};

fn job(email: &str) -> ForgottenEmail {
    ForgottenEmail { email: String::from(email) }
}

#[test]
fn kind_is_forgotten_email() {
    assert_eq!(ForgottenEmail::kind(), "ForgottenEmail");
}

#[test]
fn plain_address_is_valid() {
    assert!(job("a@example.com").is_valid());
    assert!(job("x").is_valid());
    assert!(job("jörg+tag@exämple.de").is_valid());
    assert!(job("with space@example.com").is_valid());
}

#[test]
fn empty_address_is_invalid() {
    assert!(!job("").is_valid());
}

#[test]
fn address_with_quote_backslash_or_control_is_invalid() {
    assert!(!job("a\"b@example.com").is_valid());
    assert!(!job("a\\b@example.com").is_valid());
    assert!(!job("a\nb@example.com").is_valid());
    assert!(!job("a@example.com\u{0}").is_valid());
    assert!(!job("\u{1f}").is_valid());
    assert!(job("\u{20}").is_valid());
    assert!(job("\u{7f}").is_valid());
}

#[test]
fn payload_is_json_object() {
    assert_eq!(
        job("a@example.com").to_payload(),
        Some(String::from("{\"email\":\"a@example.com\"}"))
    );
    assert_eq!(job("x").to_payload(), Some(String::from("{\"email\":\"x\"}")));
}

#[test]
fn invalid_job_has_no_payload() {
    assert_eq!(job("").to_payload(), None);
    assert_eq!(job("a\"@example.com").to_payload(), None);
}

#[test]
fn payload_round_trips() {
    let sent = job("a@example.com");
    let payload = sent.to_payload().unwrap();
    assert_eq!(ForgottenEmail::from_payload(&payload), Some(sent));
    let unicode = job("jörg@exämple.de");
    let payload = unicode.to_payload().unwrap();
    assert_eq!(ForgottenEmail::from_payload(&payload), Some(unicode));
}

#[test]
fn from_payload_rejects_foreign_text() {
    assert_eq!(ForgottenEmail::from_payload(""), None);
    assert_eq!(ForgottenEmail::from_payload("{}"), None);
    assert_eq!(ForgottenEmail::from_payload("{\"email\":\"\"}"), None);
    assert_eq!(ForgottenEmail::from_payload("{\"email\":\"a@example.com\""), None);
    assert_eq!(ForgottenEmail::from_payload("{\"email\": \"a@example.com\"}"), None);
    assert_eq!(ForgottenEmail::from_payload("{\"Email\":\"a@example.com\"}"), None);
    assert_eq!(ForgottenEmail::from_payload("{\"email\":\"a\"b\"}"), None);
    assert_eq!(ForgottenEmail::from_payload("{\"email\":\"a\\n\"}"), None);
    assert_eq!(ForgottenEmail::from_payload("{\"email\":\"a@example.com\"} "), None);
    assert_eq!(ForgottenEmail::from_payload("x{\"email\":\"a@example.com\"}"), None);
}

#[test]
fn from_payload_reads_shortest_payload() {
    assert_eq!(ForgottenEmail::from_payload("{\"email\":\"x\"}"), Some(job("x")));
}

#[test]
fn enqueue_pushes_pending_job() {
    let mut store = QueueStore::new(3);
    let id = enqueue(&mut store, &job("a@example.com"), 17).unwrap();
    assert_eq!(id, 0);
    let record = store.get(id).unwrap();
    assert_eq!(record.kind, "ForgottenEmail");
    assert_eq!(record.payload, "{\"email\":\"a@example.com\"}");
    assert_eq!(record.status, JobStatus::Pending);
    assert_eq!(record.attempt, 0);
    assert_eq!(record.visible_at, 17);
}

#[test]
fn enqueue_twice_creates_two_jobs() {
    let mut store = QueueStore::new(3);
    let first = enqueue(&mut store, &job("a@example.com"), 0).unwrap();
    let second = enqueue(&mut store, &job("a@example.com"), 0).unwrap();
    assert_ne!(first, second);
    assert_eq!(store.len(), 2);
}

#[test]
fn enqueue_refuses_invalid_address() {
    let mut store = QueueStore::new(3);
    assert_eq!(enqueue(&mut store, &job(""), 0), Err(QueueError::SerializationError));
    assert_eq!(enqueue(&mut store, &job("a\"b"), 0), Err(QueueError::SerializationError));
    assert_eq!(store.len(), 0);
}

#[test]
fn enqueue_fails_when_store_is_down() {
    let mut store = QueueStore::new(3);
    store.set_online(false);
    assert_eq!(enqueue(&mut store, &job("a@example.com"), 0), Err(QueueError::StoreUnavailable));
    assert_eq!(enqueue(&mut store, &job(""), 0), Err(QueueError::SerializationError));
    assert_eq!(store.len(), 0);
}

#[test]
fn respond_confirms_enqueued_job() {
    assert_eq!(
        respond::<u64>(&Ok(3)),
        SubmissionResponse { status: 200, body: String::from("ForgottenEmail added to queue") }
    );
}

#[test]
fn respond_reports_error_text() {
    assert_eq!(
        respond::<u64>(&Err(QueueError::StoreUnavailable)),
        SubmissionResponse { status: 500, body: String::from("queue store unavailable") }
    );
    assert_eq!(
        respond::<u64>(&Err(QueueError::SerializationError)),
        SubmissionResponse {
            status: 500,
            body: String::from("job payload could not be serialized"),
        }
    );
    assert_eq!(
        respond::<u64>(&Err(QueueError::UnknownJob)),
        SubmissionResponse { status: 500, body: String::from("unknown job") }
    );
}

#[test]
fn submit_answers_500_when_store_is_down() {
    let mut store = QueueStore::new(3);
    store.set_online(false);
    let reply = submit(&mut store, &job("a@example.com"), 0);
    assert_eq!(reply.status, 500);
    assert_eq!(reply.body, QueueError::StoreUnavailable.message());
    assert_eq!(store.len(), 0);
}

#[test]
fn submit_answers_500_for_invalid_address() {
    let mut store = QueueStore::new(3);
    let reply = submit(&mut store, &job(""), 0);
    assert_eq!(reply.status, 500);
    assert_eq!(reply.body, "job payload could not be serialized");
    assert_eq!(store.len(), 0);
}

#[test]
fn forgotten_email_end_to_end() {
    let mut store = QueueStore::with_defaults();
    let reply = submit(&mut store, &job("a@example.com"), 1_000);
    assert_eq!(reply.status, 200);
    assert_eq!(reply.body, "ForgottenEmail added to queue");

    let reserved = store.reserve(&ForgottenEmail::kind(), 30_000, 1_001).unwrap().unwrap();
    assert_eq!(reserved.kind, "ForgottenEmail");
    assert_eq!(reserved.payload, "{\"email\":\"a@example.com\"}");
    assert_eq!(ForgottenEmail::from_payload(&reserved.payload), Some(job("a@example.com")));

    let outcome = HandlerOutcome::Success;
    let status = settle(
        &mut store,
        reserved.id,
        reserved.attempt,
        &outcome,
        &BackoffPolicy::default_policy(),
        1_050,
    );
    assert_eq!(status, Ok(Settlement::Done));
    let record = store.get(reserved.id).unwrap();
    assert_eq!(record.status, JobStatus::Done);
    assert_eq!(record.attempt, 1);
    assert_eq!(store.reserve(&ForgottenEmail::kind(), 30_000, 100_000), Ok(None));
}
