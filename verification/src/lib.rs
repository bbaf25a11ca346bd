//! Verified core of a web-worker abstraction: the worker pool's bookkeeping,
//! the message protocol between the main thread and its workers, the stores
//! that carry transferable objects through serialization, and the analysis
//! that the `#[worker]` attribute performs on a function signature.

pub mod ids;
pub mod errors;
pub mod pool;
pub mod tokens;
pub mod analyze;
pub mod naming;
pub mod protocol;
pub mod transfer;
pub mod paths;
pub mod web_worker;
