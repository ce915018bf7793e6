//! The calling convention for tool executors.

use vstd::prelude::*;

verus! {

/// Emulates the `Fn` trait for custom executor logic. The embedder implements
/// it for the closures it registers; the library itself never calls through
/// it, it only decides when an execution must be performed.
pub trait Executor<Args> {
    /// The output type of the executor.
    type Output;

    /// Executes the logic with the given arguments.
    fn execute(&self, args: Args) -> Self::Output;
}

} // verus!
