//! A capability-gated microkernel core: syscall dispatch, capability
//! enforcement, and three IPC primitives (message queues, pipes, shared
//! memory regions), with machine-checked contracts on every operation.

use vstd::prelude::*;

pub mod capability;
pub mod kernel;
pub mod message;
pub mod pipe;
pub mod process;
pub mod paging;
pub mod scheduler;
pub mod shared_mem;
pub mod syscall;
pub mod thread;
pub mod vmm;

verus! {

/// The reserved all-ones result word: an invalid or failed syscall.
pub const RESULT_ERR: usize = usize::MAX;

/// Errors that a kernel boundary call can report. No exception-style
/// control flow exists: every operation returns a value or one of these.
#[derive(Copy, Clone, Debug, PartialEq, Eq, Structural)]
pub enum KernelError {
    /// The required capability is absent from the caller's table.
    CapabilityDenied,
    /// A message or access-list bound was violated.
    SizeExceeded,
    /// A pipe endpoint identity does not match the caller.
    IdentityMismatch,
    /// A queue or ring buffer is full or empty, or an allocator ran out.
    ResourceExhausted,
    /// An unrecognized operation identifier reached the dispatcher.
    InvalidSyscall,
}

} // verus!
