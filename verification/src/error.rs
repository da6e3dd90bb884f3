//! The ways in which a queue operation can fail.
use vstd::prelude::*;
use vstd::string::*;

verus! {

/// Why the queue store refused an operation.
#[derive(Clone, Copy, Debug, PartialEq, Eq, Structural)]
pub enum QueueError {
    /// The backing store cannot be reached.
    StoreUnavailable,
    /// The job could not be put into its stored form; nothing was enqueued.
    SerializationError,
    /// No live reservation matches: the job does not exist, or its lease was
    /// lost to a later reservation.
    UnknownJob,
}

impl QueueError {
    /// The text that stands for this error in a reply to a client.
    pub open spec fn description(self) -> Seq<char> {
        match self {
            QueueError::StoreUnavailable => "queue store unavailable"@,
            QueueError::SerializationError => "job payload could not be serialized"@,
            QueueError::UnknownJob => "unknown job"@,
        }
    }

    /// Textual description of the error.
    pub fn message(&self) -> (text: String)
        ensures
            text@ == self.description(),
    {
        match self {
            QueueError::StoreUnavailable => String::from_str("queue store unavailable"),
            QueueError::SerializationError => String::from_str(
                "job payload could not be serialized",
            ),
            QueueError::UnknownJob => String::from_str("unknown job"),
        }
    }
}

} // verus!
