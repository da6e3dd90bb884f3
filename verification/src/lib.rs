//! An at-least-once job queue: a store of job records with leases, a worker
//! that settles what it reserved, a pool of such workers, and the producer
//! that enqueues work on behalf of request handlers.
pub mod backoff;
pub mod context;
pub mod error;
pub mod guarantees;
pub mod job;
pub mod pool;
pub mod producer;
pub mod store;
pub mod worker;
