//! The producer: the one queue-facing operation that request handlers use,
//! and the job it enqueues.
//!
//! A `ForgottenEmail` is stored as the text `{"email":"<address>"}`. The
//! address is written into that frame as it is, so an address is refused that
//! is empty or holds a character which the frame cannot carry unescaped: a
//! double quote, a backslash, or a control character.
use vstd::prelude::*;
use vstd::string::*;

use crate::error::QueueError;
use crate::store::{QueueStore, StoreModel};

verus! {

/// The job that asks for a password-reset mail to be sent.
#[derive(Debug, PartialEq, Eq)]
pub struct ForgottenEmail {
    pub email: String,
}

/// What a client is told about its submission.
#[derive(Debug, PartialEq, Eq)]
pub struct SubmissionResponse {
    /// The HTTP status code.
    pub status: u16,
    /// The plain-text body.
    pub body: String,
}

/// The kind under which `ForgottenEmail` jobs are queued.
pub open spec fn forgotten_email_kind() -> Seq<char> {
    "ForgottenEmail"@
}

/// The body of the reply to an accepted submission.
pub open spec fn confirmation() -> Seq<char> {
    "ForgottenEmail added to queue"@
}

/// What stands before the address in a payload.
pub open spec fn frame_head() -> Seq<char> {
    "{\"email\":\""@
}

/// What stands after the address in a payload.
pub open spec fn frame_tail() -> Seq<char> {
    "\"}"@
}

/// A character that the frame carries as it is.
pub open spec fn plain(c: char) -> bool {
    c != '"' && c != '\\' && c as u32 >= 0x20
}

/// An address that can be enqueued: not empty, plain characters only.
pub open spec fn valid_email(email: Seq<char>) -> bool {
    &&& email.len() > 0
    &&& forall|i: int| 0 <= i < email.len() ==> plain(#[trigger] email[i])
}

/// The payload that carries `email`.
pub open spec fn framed(email: Seq<char>) -> Seq<char> {
    frame_head() + email + frame_tail()
}

/// Why a submission is refused, if it is: an address that cannot be
/// enqueued is a serialization error, whatever the state of the store.
pub open spec fn enqueue_refusal(store: StoreModel, email: Seq<char>) -> Option<QueueError> {
    if !valid_email(email) {
        Some(QueueError::SerializationError)
    } else if !store.online {
        Some(QueueError::StoreUnavailable)
    } else {
        None
    }
}

/// The frame has twelve characters, and so a payload is never empty.
pub proof fn lemma_frame_lengths()
    ensures
        frame_head().len() == 10,
        frame_tail().len() == 2,
        forall|email: Seq<char>| #[trigger] framed(email).len() == email.len() + 12,
{
    reveal_strlit("{\"email\":\"");
    reveal_strlit("\"}");
}

/// Different addresses have different payloads.
pub proof fn lemma_framed_injective(a: Seq<char>, b: Seq<char>)
    requires
        framed(a) == framed(b),
    ensures
        a == b,
{
    lemma_frame_lengths();
    assert(framed(a).len() == a.len() + 12);
    assert(framed(b).len() == b.len() + 12);
    assert forall|i: int| 0 <= i < a.len() implies a[i] == b[i] by {
        assert(framed(a)[i + 10] == a[i]);
        assert(framed(b)[i + 10] == b[i]);
    }
    assert(a =~= b);
}

fn is_plain(c: char) -> (r: bool)
    ensures
        r == plain(c),
{
    c != '"' && c != '\\' && c as u32 >= 0x20
}

fn is_valid_email(email: &str) -> (ok: bool)
    ensures
        ok == valid_email(email@),
{
    broadcast use vstd::string::group_string_axioms;

    let mut ok = !email.is_empty();
    for c in it: email.chars()
        invariant
            it.seq() == email@,
            ok <==> email@.len() > 0 && forall|i: int|
                0 <= i < it.index() ==> plain(#[trigger] email@[i]),
    {
        if !is_plain(c) {
            ok = false;
        }
    }
    ok
}

impl ForgottenEmail {
    /// The kind under which these jobs are queued.
    pub fn kind() -> (kind: String)
        ensures
            kind@ == forgotten_email_kind(),
    {
        String::from_str("ForgottenEmail")
    }

    /// Whether the address can be enqueued.
    pub fn is_valid(&self) -> (ok: bool)
        ensures
            ok == valid_email(self.email@),
    {
        is_valid_email(self.email.as_str())
    }

    /// The payload that carries this job, if its address can be enqueued.
    pub fn to_payload(&self) -> (payload: Option<String>)
        ensures
            payload is Some <==> valid_email(self.email@),
            payload matches Some(text) ==> text@ == framed(self.email@),
    {
        if !self.is_valid() {
            return None;
        }
        Some(String::from_str("{\"email\":\"").concat(self.email.as_str()).concat("\"}"))
    }

    /// Reads a job back from its payload. `None` says that the text is not
    /// the payload of any job that could have been enqueued.
    pub fn from_payload(payload: &str) -> (job: Option<ForgottenEmail>)
        ensures
            match job {
                Some(found) => valid_email(found.email@) && payload@ == framed(found.email@),
                None => forall|email: Seq<char>|
                    valid_email(email) ==> payload@ != #[trigger] framed(email),
            },
    {
        proof {
            lemma_frame_lengths();
        }
        let len = payload.unicode_len();
        if len < 13 {
            return None;
        }
        let head = String::from_str(payload.substring_char(0, 10));
        let tail = String::from_str(payload.substring_char(len - 2, len));
        let inner = payload.substring_char(10, len - 2);
        if head != String::from_str("{\"email\":\"") || tail != String::from_str("\"}")
            || !is_valid_email(inner) {
            assert forall|email: Seq<char>| valid_email(email) implies payload@
                != #[trigger] framed(email) by {
                if payload@ == framed(email) {
                    assert(framed(email).subrange(0, 10) =~= frame_head());
                    assert(framed(email).subrange(len - 2, len as int) =~= frame_tail());
                    assert(framed(email).subrange(10, len - 2) =~= email);
                }
            }
            return None;
        }
        assert(payload@ =~= framed(inner@));
        Some(ForgottenEmail { email: String::from_str(inner) })
    }
}

/// Enqueues `job` at `now` and returns the id of the new record.
///
/// The address is checked first: a job whose address cannot be enqueued is
/// refused with `SerializationError`. Then the job is pushed as a pending
/// record of kind `ForgottenEmail`; an unreachable store refuses it with
/// `StoreUnavailable`. A refusal leaves the store as it was. The call returns
/// once the record is stored, and does not wait for the job to run.
pub fn enqueue(store: &mut QueueStore, job: &ForgottenEmail, now: u64) -> (r: Result<
    u64,
    QueueError,
>)
    requires
        old(store).wf(),
    ensures
        final(store).wf(),
        old(store)@.may_become(final(store)@),
        match enqueue_refusal(old(store)@, job.email@) {
            Some(e) => r == Err::<u64, QueueError>(e) && final(store)@ == old(store)@,
            None => r == Ok::<u64, QueueError>(old(store)@.jobs.len() as u64) && final(store)@
                == old(store)@.pushed(forgotten_email_kind(), framed(job.email@), now as nat),
        },
{
    proof {
        lemma_frame_lengths();
        reveal_strlit("ForgottenEmail");
    }
    match job.to_payload() {
        None => Err(QueueError::SerializationError),
        Some(payload) => store.push(ForgottenEmail::kind(), payload, now),
    }
}

/// The reply to a submission that ended in `outcome`: 200 with a
/// confirmation when the job was enqueued, 500 with the error's description
/// when it was not.
pub fn respond<T>(outcome: &Result<T, QueueError>) -> (reply: SubmissionResponse)
    ensures
        match outcome {
            Ok(_) => reply.status == 200 && reply.body@ == confirmation(),
            Err(e) => reply.status == 500 && reply.body@ == e.description(),
        },
{
    match outcome {
        Ok(_) => SubmissionResponse {
            status: 200,
            body: String::from_str("ForgottenEmail added to queue"),
        },
        Err(e) => SubmissionResponse { status: 500, body: e.message() },
    }
}

/// Handles one submission: enqueues `job` and says what the client is told.
pub fn submit(store: &mut QueueStore, job: &ForgottenEmail, now: u64) -> (reply:
    SubmissionResponse)
    requires
        old(store).wf(),
    ensures
        final(store).wf(),
        old(store)@.may_become(final(store)@),
        match enqueue_refusal(old(store)@, job.email@) {
            Some(e) => {
                &&& reply.status == 500
                &&& reply.body@ == e.description()
                &&& final(store)@ == old(store)@
            },
            None => {
                &&& reply.status == 200
                &&& reply.body@ == confirmation()
                &&& final(store)@ == old(store)@.pushed(
                    forgotten_email_kind(),
                    framed(job.email@),
                    now as nat,
                )
            },
        },
{
    let outcome = enqueue(store, job, now);
    respond(&outcome)
}

} // verus!
