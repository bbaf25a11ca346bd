//! The name under which a worker type is registered.

use vstd::prelude::*;

verus! {

/// A worker type knows the name that its worker scope runs under; the
/// `#[worker]` attribute implements this with the worker's name.
pub trait WebWorkerPath {
    /// The worker's name.
    fn path() -> &'static str;
}

} // verus!
