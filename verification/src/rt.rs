//! Runtime components.

use vstd::prelude::*;

pub mod quic;

verus! {

/// An executor of futures.
///
/// This trait allows abstract over async runtimes. Implement this trait for your own type.
pub trait Executor<Fut> {
    /// Place the future into the executor to be run.
    fn execute(&self, fut: Fut);
}

} // verus!
