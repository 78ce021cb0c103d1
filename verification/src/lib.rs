//! An in-process actor pool: a fixed set of independently owned state objects,
//! each served by one worker loop, all pulling envelopes from one shared queue.
//!
//! This crate holds the pool's logic in deterministic, verified form: the
//! configuration and its validation, the error model, the envelope variants and
//! the exact effect each one has on a worker, the reference-counted shutdown
//! protocol, and the type-erasure container used by ad-hoc operations. An async
//! shell can drive this logic concurrently; every decision it must take is a
//! function of this crate with a contract.

pub mod actor;
pub mod address;
pub mod builder;
pub mod context;
pub mod error;
pub mod object;
pub mod pool;

pub use actor::Handler;
pub use address::MapResult;
pub use builder::Builder;
pub use builder::Config;
pub use context::Envelope;
pub use context::Worker;
pub use error::ActixSendError;
pub use object::ErasedResult;
pub use pool::Pool;
pub use pool::PoolState;
pub use pool::StepOutcome;
pub use pool::Task;
