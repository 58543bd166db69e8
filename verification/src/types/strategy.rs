//! How the tasks of a play are laid out over batches.

use vstd::prelude::*;

verus! {

#[derive(Debug, Clone, Copy, PartialEq, Eq, Structural)]
pub enum ExecutionStrategy {
    /// One batch per task, each after the one before.
    Linear,
    /// The hosts are taken window by window, `batch_size` hosts at a time.
    Rolling { batch_size: u32 },
    /// Parallel-safe tasks together, the others in sequence.
    Free,
    /// One batch per host.
    HostPinned,
    /// Binary deployment where it pays, remote commands otherwise.
    BinaryHybrid,
    /// Binary deployment wherever possible.
    BinaryOnly,
}

impl Default for ExecutionStrategy {
    fn default() -> (r: Self)
        ensures
            r == ExecutionStrategy::Linear,
    {
        ExecutionStrategy::Linear
    }
}

} // verus!
