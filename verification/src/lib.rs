//! A miniature single-threaded event-loop runtime core.
//!
//! The library holds the verified heart of a small asynchronous runtime:
//! a one-shot callback registry with unique identity assignment, a
//! fixed-size worker-pool free-list, a model of an OS readiness
//! multiplexer, and the scheduler state machine that ties them together
//! and decides when the loop may terminate.  Threads, channels and real
//! I/O live outside the library; they feed completions in as plain
//! values and carry the returned callbacks out to be invoked.

pub mod minimio;
pub mod pool;
pub mod registry;
pub mod runtime;
pub mod value;
pub mod work;
