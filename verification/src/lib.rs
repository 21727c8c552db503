//! A minimal task-execution core: a fixed-size pool of worker threads that
//! drains a shared queue of submitted jobs, together with the request-line
//! parsing and response formatting of the small static-file server built on
//! top of it.
//!
//! The concurrency protocol itself — who may hold a job, when a worker may
//! exit, when the pool may be torn down — is captured by the verified model
//! in [`pool`]; the sequential request handling lives in [`http`].

pub mod http;
pub mod pool;
