//! The syscall interface: the one validated entry point user space has
//! into the kernel. A fixed-shape request frame arrives from the untrusted
//! trap boundary; the dispatcher decodes it, authorizes the single
//! capability the operation requires, forwards validated arguments to the
//! owning subsystem, and returns exactly one result word. Unrecognized
//! identifiers fail closed with zero side effects. The dispatcher holds no
//! ambient authority and never suspends itself; any blocking happens
//! inside the forwarded operation.

use vstd::prelude::*;
use crate::{KernelError, RESULT_ERR};
use crate::capability::Capability;
use crate::kernel::{Kernel, same_state, woken};
use crate::message::{MessageModel, MAX_MESSAGE_SIZE};
use crate::process::{BlockReason, ProcessState};

verus! {

/// The closed catalog of syscall operations.
#[derive(Copy, Clone, Debug, PartialEq, Eq, Structural)]
pub enum Syscall {
    /// Create a new process.
    ProcSpawn,
    /// Terminate a process.
    ProcKill,
    /// Send a message into a queue.
    IpcSend,
    /// Receive a message from a queue.
    IpcRecv,
    /// Allocate virtual memory.
    MemAlloc,
    /// Share a memory region with another process.
    MemShare,
    /// Voluntarily yield the CPU.
    Yield,
}

impl Syscall {
    /// The wire identifier of each operation.
    pub open spec fn spec_id(self) -> u32 {
        match self {
            Syscall::ProcSpawn => 1,
            Syscall::ProcKill => 2,
            Syscall::IpcSend => 3,
            Syscall::IpcRecv => 4,
            Syscall::MemAlloc => 5,
            Syscall::MemShare => 6,
            Syscall::Yield => 7,
        }
    }

    /// Decode a wire identifier; everything unlisted is unrecognized.
    pub open spec fn spec_from_id(id: u32) -> Option<Syscall> {
        if id == 1 {
            Some(Syscall::ProcSpawn)
        } else if id == 2 {
            Some(Syscall::ProcKill)
        } else if id == 3 {
            Some(Syscall::IpcSend)
        } else if id == 4 {
            Some(Syscall::IpcRecv)
        } else if id == 5 {
            Some(Syscall::MemAlloc)
        } else if id == 6 {
            Some(Syscall::MemShare)
        } else if id == 7 {
            Some(Syscall::Yield)
        } else {
            None
        }
    }

    /// The single capability the operation requires; yielding requires
    /// none.
    pub open spec fn spec_required_cap(self) -> Option<Capability> {
        match self {
            Syscall::ProcSpawn => Some(Capability::ProcSpawn),
            Syscall::ProcKill => Some(Capability::ProcKill),
            Syscall::IpcSend => Some(Capability::IpcSend),
            Syscall::IpcRecv => Some(Capability::IpcRecv),
            Syscall::MemAlloc => Some(Capability::MemAlloc),
            Syscall::MemShare => Some(Capability::MemShare),
            Syscall::Yield => None,
        }
    }

    /// The wire identifier of this operation.
    pub fn id(self) -> (r: u32)
        ensures
            r == self.spec_id(),
    {
        match self {
            Syscall::ProcSpawn => 1,
            Syscall::ProcKill => 2,
            Syscall::IpcSend => 3,
            Syscall::IpcRecv => 4,
            Syscall::MemAlloc => 5,
            Syscall::MemShare => 6,
            Syscall::Yield => 7,
        }
    }

    /// Decode a wire identifier; every unlisted identifier is the
    /// explicit `InvalidSyscall` error — unrecognized operations fail
    /// closed.
    pub fn decode(id: u32) -> (r: Result<Syscall, KernelError>)
        ensures
            r is Ok <==> Self::spec_from_id(id) is Some,
            r is Ok ==> Some(r->Ok_0) == Self::spec_from_id(id),
            r is Err ==> r->Err_0 == KernelError::InvalidSyscall,
    {
        if id == 1 {
            Ok(Syscall::ProcSpawn)
        } else if id == 2 {
            Ok(Syscall::ProcKill)
        } else if id == 3 {
            Ok(Syscall::IpcSend)
        } else if id == 4 {
            Ok(Syscall::IpcRecv)
        } else if id == 5 {
            Ok(Syscall::MemAlloc)
        } else if id == 6 {
            Ok(Syscall::MemShare)
        } else if id == 7 {
            Ok(Syscall::Yield)
        } else {
            Err(KernelError::InvalidSyscall)
        }
    }
}

/// Syscall request frame: the fixed layout that crosses the trust
/// boundary — an operation identifier and four word-sized arguments.
#[derive(Copy, Clone, Debug, PartialEq, Eq, Structural)]
pub struct SyscallFrame {
    /// Operation identifier.
    pub syscall_id: u32,
    /// First argument word.
    pub arg0: usize,
    /// Second argument word.
    pub arg1: usize,
    /// Third argument word.
    pub arg2: usize,
    /// Fourth argument word.
    pub arg3: usize,
}

/// The main syscall dispatcher.
///
/// For each recognized identifier, in order: authorize the one capability
/// the operation requires against the current process's table, forward the
/// validated arguments to the owning subsystem, and return its one result
/// word. A missing capability, like an unrecognized identifier, yields the
/// failure sentinel with zero side effects — the check precedes every
/// forwarded argument's use, so an unauthorized caller learns nothing from
/// argument validation. The trust boundary hands message payloads in
/// through `data_in` and takes received bytes out through the front of
/// `data_out`; the kernel copies across these and never retains them.
///
/// Argument conventions: ipc-send is (queue, _, length, _) with the
/// payload in `data_in`; ipc-recv is (queue, _, capacity, _) into
/// `data_out`; mem-alloc is (size); mem-share is (region, target);
/// proc-kill is (target).
pub fn syscall_entry(
    k: &mut Kernel,
    frame: &SyscallFrame,
    data_in: &[u8],
    data_out: &mut Vec<u8>,
) -> (r: usize)
    requires
        old(k).wf(),
        Syscall::spec_from_id(frame.syscall_id) == Some(Syscall::IpcSend)
            ==> frame.arg2 <= data_in@.len(),
        Syscall::spec_from_id(frame.syscall_id) == Some(Syscall::IpcRecv)
            ==> frame.arg2 <= old(data_out)@.len(),
    ensures
        final(k).wf(),
        final(k).procs.current == old(k).procs.current,
        final(data_out)@.len() == old(data_out)@.len(),
        Syscall::spec_from_id(frame.syscall_id) != Some(Syscall::IpcRecv)
            ==> final(data_out)@ == old(data_out)@,
        // Unrecognized identifier: reserved sentinel, no subsystem touched.
        Syscall::spec_from_id(frame.syscall_id) is None ==> {
            &&& r == RESULT_ERR
            &&& same_state(*final(k), *old(k))
        },
        // A recognized operation whose required capability the current
        // process lacks: denial sentinel, zero side effects.
        forall|op: Syscall|
            Syscall::spec_from_id(frame.syscall_id) == Some(op)
                && (#[trigger] op.spec_required_cap()) is Some
                && !old(k).current_has(op.spec_required_cap()->0) ==> {
                &&& r == RESULT_ERR
                &&& same_state(*final(k), *old(k))
            },
        // Yield: no capability, the scheduler rotates, nothing else moves.
        Syscall::spec_from_id(frame.syscall_id) == Some(Syscall::Yield) ==> {
            &&& r == 0
            &&& final(k).procs == old(k).procs
            &&& final(k).queues@ == old(k).queues@
            &&& final(k).pipes@ == old(k).pipes@
            &&& final(k).regions@ == old(k).regions@
            &&& final(k).mem == old(k).mem
            &&& (old(k).sched.queue@.len() > 0
                    ==> final(k).sched.queue@ =~= old(k).sched.queue@.drop_first().push(
                        old(k).sched.queue@[0]))
            &&& (old(k).sched.queue@.len() == 0
                    ==> final(k).sched.queue@ == old(k).sched.queue@)
        },
        // Spawn, authorized: a fresh Ready child of the current process
        // with no capabilities, enqueued with the scheduler; the result
        // word is its PID.
        Syscall::spec_from_id(frame.syscall_id) == Some(Syscall::ProcSpawn)
            && old(k).current_has(Capability::ProcSpawn)
            && old(k).procs.next_pid < u32::MAX ==> {
            let pid = old(k).procs.next_pid;
            &&& r == pid as usize
            &&& !old(k).procs.has_pid(pid)
            &&& final(k).procs.procs@.len() == old(k).procs.procs@.len() + 1
            &&& final(k).procs.procs@.last().pid == pid
            &&& final(k).procs.procs@.last().state == ProcessState::Ready
            &&& final(k).procs.procs@.last().parent == Some(old(k).procs.current)
            &&& final(k).sched.queue@ =~= old(k).sched.queue@.push(pid)
        },
        // Kill, authorized: the target terminates; a call it was blocked
        // in completes with the failure word instead of hanging; its
        // memory leaves the ledger and the scheduler forgets it.
        Syscall::spec_from_id(frame.syscall_id) == Some(Syscall::ProcKill)
            && old(k).current_has(Capability::ProcKill)
            && frame.arg0 <= u32::MAX as usize ==> {
            &&& r == 0
            &&& (old(k).procs.has_pid(frame.arg0 as u32) ==> {
                &&& final(k).procs.has_pid(frame.arg0 as u32)
                &&& final(k).procs.proc_of(frame.arg0 as u32).state == ProcessState::Terminated
                &&& final(k).procs.proc_of(frame.arg0 as u32).blocked_on is None
                &&& (old(k).procs.proc_of(frame.arg0 as u32).state == ProcessState::Blocked
                        ==> final(k).procs.proc_of(frame.arg0 as u32).pending_result
                            == Some(RESULT_ERR))
            })
            &&& final(k).sched.queue@ =~= old(k).sched.queue@.filter(
                    |p: crate::process::Pid| p != frame.arg0 as u32)
        },
        // Send, authorized, with a valid queue, a payload within bounds
        // and a free slot: the message is enqueued at the tail, tagged
        // with the sender, and everyone waiting to receive wakes.
        Syscall::spec_from_id(frame.syscall_id) == Some(Syscall::IpcSend)
            && old(k).current_has(Capability::IpcSend)
            && frame.arg0 < old(k).queues@.len()
            && frame.arg2 <= MAX_MESSAGE_SIZE
            && old(k).queues@[frame.arg0 as int].msgs().len()
                < old(k).queues@[frame.arg0 as int].capacity ==> {
            &&& r == 0
            &&& final(k).queues@[frame.arg0 as int].msgs()
                    =~= old(k).queues@[frame.arg0 as int].msgs().push(MessageModel {
                        from: old(k).procs.current,
                        data: data_in@.subrange(0, frame.arg2 as int),
                    })
            &&& woken(old(k).procs.procs@, final(k).procs.procs@,
                    BlockReason::QueueRecv(frame.arg0))
        },
        // Send to a full queue: backpressure — the sender suspends
        // (Blocked, waiting to send) rather than the queue dropping or
        // overwriting anything.
        Syscall::spec_from_id(frame.syscall_id) == Some(Syscall::IpcSend)
            && old(k).current_has(Capability::IpcSend)
            && frame.arg0 < old(k).queues@.len()
            && frame.arg2 <= MAX_MESSAGE_SIZE
            && old(k).queues@[frame.arg0 as int].msgs().len()
                >= old(k).queues@[frame.arg0 as int].capacity ==> {
            &&& r == RESULT_ERR
            &&& final(k).queues@ == old(k).queues@
            &&& old(k).procs.proc_of(old(k).procs.current).state != ProcessState::Terminated
                ==> final(k).procs.proc_of(old(k).procs.current).state == ProcessState::Blocked
                    && final(k).procs.proc_of(old(k).procs.current).blocked_on
                        == Some(BlockReason::QueueSend(frame.arg0))
        },
        // Send of an oversize payload or to an invalid queue: rejected
        // with the sentinel and the queues unchanged — no copy occurs.
        Syscall::spec_from_id(frame.syscall_id) == Some(Syscall::IpcSend)
            && old(k).current_has(Capability::IpcSend)
            && (frame.arg0 >= old(k).queues@.len() || frame.arg2 > MAX_MESSAGE_SIZE) ==> {
            &&& r == RESULT_ERR
            &&& final(k).queues@ == old(k).queues@
            &&& final(k).procs.procs@ == old(k).procs.procs@
        },
        // Receive, authorized, from a valid non-empty queue: the oldest
        // message is dequeued, its first min(capacity, length) bytes land
        // at the front of `data_out`, the copied count is the result
        // word, and everyone waiting to send wakes.
        Syscall::spec_from_id(frame.syscall_id) == Some(Syscall::IpcRecv)
            && old(k).current_has(Capability::IpcRecv)
            && frame.arg0 < old(k).queues@.len()
            && old(k).queues@[frame.arg0 as int].msgs().len() > 0 ==> {
            let msg = old(k).queues@[frame.arg0 as int].msgs()[0];
            let n = if frame.arg2 <= msg.data.len() { frame.arg2 as int } else {
                msg.data.len() as int
            };
            &&& r == n
            &&& final(k).queues@[frame.arg0 as int].msgs()
                    =~= old(k).queues@[frame.arg0 as int].msgs().drop_first()
            &&& final(data_out)@.subrange(0, n) =~= msg.data.subrange(0, n)
            &&& woken(old(k).procs.procs@, final(k).procs.procs@,
                    BlockReason::QueueSend(frame.arg0))
        },
        // Receive from a valid empty queue: the caller suspends (Blocked,
        // waiting to receive) until a counterpart sends.
        Syscall::spec_from_id(frame.syscall_id) == Some(Syscall::IpcRecv)
            && old(k).current_has(Capability::IpcRecv)
            && frame.arg0 < old(k).queues@.len()
            && old(k).queues@[frame.arg0 as int].msgs().len() == 0 ==> {
            &&& r == RESULT_ERR
            &&& final(k).queues@ == old(k).queues@
            &&& final(data_out)@ == old(data_out)@
            &&& old(k).procs.proc_of(old(k).procs.current).state != ProcessState::Terminated
                ==> final(k).procs.proc_of(old(k).procs.current).state == ProcessState::Blocked
                    && final(k).procs.proc_of(old(k).procs.current).blocked_on
                        == Some(BlockReason::QueueRecv(frame.arg0))
        },
        // Allocation, authorized and within the global bound: the grant
        // is recorded for the current process and the result word is the
        // granted size.
        Syscall::spec_from_id(frame.syscall_id) == Some(Syscall::MemAlloc)
            && old(k).current_has(Capability::MemAlloc)
            && old(k).mem.total + frame.arg0 <= crate::vmm::MAX_TOTAL_MEMORY ==> {
            &&& r == frame.arg0
            &&& final(k).mem.allocations@ =~= old(k).mem.allocations@.push(
                    crate::vmm::Allocation { pid: old(k).procs.current, size: frame.arg0 })
            &&& final(k).mem.total == old(k).mem.total + frame.arg0
        },
        // Allocation past the global bound: refused, ledger unchanged.
        Syscall::spec_from_id(frame.syscall_id) == Some(Syscall::MemAlloc)
            && old(k).current_has(Capability::MemAlloc)
            && old(k).mem.total + frame.arg0 > crate::vmm::MAX_TOTAL_MEMORY ==> {
            &&& r == RESULT_ERR
            &&& final(k).mem == old(k).mem
        },
        // Share, authorized, of a region the current process owns: the
        // target gains read access, with the explicit capacity error when
        // the list is full.
        Syscall::spec_from_id(frame.syscall_id) == Some(Syscall::MemShare)
            && old(k).current_has(Capability::MemShare)
            && frame.arg1 <= u32::MAX as usize ==> forall|j: int|
            0 <= j < final(k).regions@.len()
                && (#[trigger] old(k).regions@[j]).id == frame.arg0
                && old(k).regions@[j].owner == old(k).procs.current
                ==> {
                let before = old(k).regions@[j];
                let after = final(k).regions@[j];
                &&& after.owner == before.owner
                &&& after.writers@ == before.writers@
                &&& (before.readers@.contains(frame.arg1 as u32)
                        ==> after.readers@ == before.readers@ && r == 0)
                &&& (!before.readers@.contains(frame.arg1 as u32)
                        && before.readers@.len() >= crate::shared_mem::MAX_ACCESS_ENTRIES
                        ==> after.readers@ == before.readers@ && r == RESULT_ERR)
                &&& (!before.readers@.contains(frame.arg1 as u32)
                        && before.readers@.len() < crate::shared_mem::MAX_ACCESS_ENTRIES
                        ==> after.readers@ =~= before.readers@.push(frame.arg1 as u32)
                            && r == 0)
            },
{
    let decoded = Syscall::decode(frame.syscall_id);
    match decoded {
        Ok(Syscall::ProcSpawn) => k.sys_spawn(),
        Ok(Syscall::ProcKill) => {
            if frame.arg0 > u32::MAX as usize {
                if !has_current_cap(k, Capability::ProcKill) {
                    return RESULT_ERR;
                }
                return RESULT_ERR;
            }
            k.sys_kill(frame.arg0 as u32)
        }
        Ok(Syscall::IpcSend) => k.sys_send(frame.arg0, data_in, frame.arg2),
        Ok(Syscall::IpcRecv) => k.sys_recv(frame.arg0, data_out, frame.arg2),
        Ok(Syscall::MemAlloc) => k.sys_alloc(frame.arg0),
        Ok(Syscall::MemShare) => {
            if frame.arg1 > u32::MAX as usize {
                if !has_current_cap(k, Capability::MemShare) {
                    return RESULT_ERR;
                }
                return RESULT_ERR;
            }
            k.sys_share(frame.arg0, frame.arg1 as u32)
        }
        Ok(Syscall::Yield) => k.sys_yield(),
        Err(_) => RESULT_ERR,
    }
}

/// Does the current process hold `cap`? Fails closed when it has no
/// record.
fn has_current_cap(k: &Kernel, cap: Capability) -> (r: bool)
    requires
        k.wf(),
    ensures
        r == k.current_has(cap),
{
    match k.procs.caps_of(k.procs.current_pid()) {
        Some(caps) => caps.has(cap),
        None => false,
    }
}

} // verus!
