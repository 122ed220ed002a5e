//! Paging and fault isolation. Page-table mechanics live in the external
//! memory manager; what the kernel owns is the fault *policy*: a memory
//! fault is unrecoverable, so the offending process is unconditionally
//! terminated, its memory revoked, and anything it was blocked on released.

use vstd::prelude::*;
use crate::process::{Pid, ProcessState, ProcessTable};
use crate::vmm;
use crate::vmm::Vmm;

verus! {

/// Page size in bytes.
pub const PAGE_SIZE: usize = 4096;

/// Handle a page fault raised by process `pid` at `addr`.
///
/// Policy: unconditional termination of the offending process — the one
/// failure that is fatal rather than recoverable. No capability check
/// guards this path. The process transitions to Terminated, a blocked
/// call it was suspended in is woken with the failure result instead of
/// hanging, and every allocation it held leaves the memory ledger.
pub fn handle_page_fault(
    procs: &mut ProcessTable,
    mem: &mut Vmm,
    pid: Pid,
    _addr: usize,
    _error_code: usize,
)
    requires
        old(procs).wf(),
        old(mem).wf(),
    ensures
        final(procs).wf(),
        final(mem).wf(),
        final(procs).current == old(procs).current,
        old(procs).has_pid(pid) ==> {
            &&& final(procs).has_pid(pid)
            &&& final(procs).proc_of(pid).state == ProcessState::Terminated
            &&& final(procs).proc_of(pid).blocked_on is None
        },
        !old(procs).has_pid(pid) ==> final(procs).procs@ == old(procs).procs@,
        final(mem).allocations@ =~= old(mem).allocations@.filter(
            |a: vmm::Allocation| a.pid != pid),
        vmm::sum_for(final(mem).allocations@, pid) == 0,
{
    procs.terminate_pid(pid);
    vmm::revoke_process(mem, pid);
}

} // verus!
