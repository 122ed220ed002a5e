//! The kernel's trusted root state and the kernel-level operations the
//! syscall dispatcher forwards to. All subsystems are wired here: the
//! process table, scheduler, thread table, the three IPC primitives, and
//! the memory ledger. Construction is the one-shot boot step: a kernel
//! value exists only initialized, and no operation ever clears the flag.

use vstd::prelude::*;
use crate::{KernelError, RESULT_ERR};
use crate::capability::{Capability, CapabilityTable};
use crate::message::{MessageQueue, MessageModel, MAX_MESSAGE_SIZE};
use crate::pipe::Pipe;
use crate::process::{BlockReason, Pid, Process, ProcessState, ProcessTable};
use crate::scheduler;
use crate::scheduler::Scheduler;
use crate::shared_mem::{SharedMemId, SharedMemRegion};
use crate::thread;
use crate::thread::ThreadTable;
use crate::vmm;
use crate::vmm::Vmm;

verus! {

/// The effect one wake pass has on the process table: every process
/// suspended on `reason` turns Ready with its wait cleared; every other
/// process is untouched.
pub open spec fn woken(before: Seq<Process>, after: Seq<Process>, reason: BlockReason) -> bool {
    &&& after.len() == before.len()
    &&& forall|i: int| 0 <= i < before.len()
            ==> after[i] == (if (#[trigger] before[i]).blocked_on == Some(reason) {
                Process {
                    state: ProcessState::Ready,
                    blocked_on: None,
                    pending_result: None,
                    ..before[i]
                }
            } else {
                before[i]
            })
}

/// Two kernel states agree on everything observable: used to state that
/// an operation had zero side effects.
pub open spec fn same_state(a: Kernel, b: Kernel) -> bool {
    &&& a.procs.procs@ == b.procs.procs@
    &&& a.procs.current == b.procs.current
    &&& a.procs.next_pid == b.procs.next_pid
    &&& a.sched.queue@ == b.sched.queue@
    &&& a.threads.threads@ == b.threads.threads@
    &&& a.threads.next_tid == b.threads.next_tid
    &&& a.queues@ == b.queues@
    &&& a.pipes@ == b.pipes@
    &&& a.regions@ == b.regions@
    &&& a.mem.allocations@ == b.mem.allocations@
    &&& a.mem.total == b.mem.total
    &&& a.next_region_id == b.next_region_id
    &&& a.initialized == b.initialized
}

/// The kernel's root state. Everything user space can reach is mediated
/// through the operations on this value.
pub struct Kernel {
    /// All live processes, the current one, and the PID allocator.
    pub procs: ProcessTable,
    /// The scheduler's run queue.
    pub sched: Scheduler,
    /// All kernel threads.
    pub threads: ThreadTable,
    /// All message queues, addressed by index.
    pub queues: Vec<MessageQueue>,
    /// All pipes, addressed by index.
    pub pipes: Vec<Pipe>,
    /// All shared memory regions.
    pub regions: Vec<SharedMemRegion>,
    /// The virtual memory ledger.
    pub mem: Vmm,
    /// Collision-free region id allocator: all existing ids are below it.
    pub next_region_id: SharedMemId,
    /// Boot flag: set exactly once, at construction, and never cleared.
    pub initialized: bool,
}

impl Kernel {
    /// Well-formedness of the whole kernel: the boot flag is set and every
    /// subsystem is well formed; region ids are unique and all below the
    /// allocator's next value.
    pub open spec fn wf(self) -> bool {
        &&& self.initialized
        &&& self.procs.wf()
        &&& self.threads.wf()
        &&& self.mem.wf()
        &&& forall|i: int| 0 <= i < self.queues@.len() ==> (#[trigger] self.queues@[i]).wf()
        &&& forall|i: int| 0 <= i < self.pipes@.len() ==> (#[trigger] self.pipes@[i]).wf()
        &&& forall|i: int| 0 <= i < self.regions@.len() ==> (#[trigger] self.regions@[i]).wf()
        &&& forall|i: int, j: int| 0 <= i < j < self.regions@.len()
                ==> (#[trigger] self.regions@[i]).id != (#[trigger] self.regions@[j]).id
        &&& forall|i: int| 0 <= i < self.regions@.len()
                ==> (#[trigger] self.regions@[i]).id < self.next_region_id
    }

    /// Identity of the currently executing process.
    pub open spec fn spec_current(self) -> Pid {
        self.procs.current
    }

    /// Does the current process have a record, and does it hold `cap`?
    pub open spec fn current_has(self, cap: Capability) -> bool {
        self.procs.has_pid(self.procs.current)
            && self.procs.proc_of(self.procs.current).capabilities.spec_has(cap)
    }

    /// Boot the kernel: performed exactly once by the host bootstrap. All
    /// subsystems start empty; the one root process runs with the
    /// authority the boot policy grants it. The initialized flag is set
    /// here and, since every operation preserves well-formedness, never
    /// cleared afterwards.
    pub fn init(root_caps: CapabilityTable) -> (k: Kernel)
        ensures
            k.wf(),
            k.initialized,
            k.procs.current == 0,
            k.procs.procs@.len() == 1,
            k.procs.procs@[0].pid == 0,
            k.procs.procs@[0].state == ProcessState::Running,
            k.procs.procs@[0].capabilities == root_caps,
            k.queues@.len() == 0,
            k.pipes@.len() == 0,
            k.regions@.len() == 0,
            k.mem.total == 0,
            k.sched.queue@.len() == 0,
    {
        Kernel {
            procs: ProcessTable::init(root_caps),
            sched: scheduler::init(),
            threads: thread::init(),
            queues: Vec::new(),
            pipes: Vec::new(),
            regions: Vec::new(),
            mem: vmm::init(),
            next_region_id: 0,
            initialized: true,
        }
    }

    /// Create a message queue owned by `owner` with the given capacity;
    /// returns its index.
    pub fn create_queue(&mut self, owner: Pid, capacity: usize) -> (idx: usize)
        requires
            old(self).wf(),
        ensures
            final(self).wf(),
            idx == old(self).queues@.len(),
            final(self).queues@.len() == old(self).queues@.len() + 1,
            final(self).queues@[idx as int].owner == owner,
            final(self).queues@[idx as int].capacity == capacity,
            final(self).queues@[idx as int].msgs() =~= Seq::<MessageModel>::empty(),
            forall|j: int| 0 <= j < old(self).queues@.len()
                ==> final(self).queues@[j] == old(self).queues@[j],
            final(self).procs == old(self).procs,
            final(self).sched == old(self).sched,
            final(self).pipes@ == old(self).pipes@,
            final(self).regions@ == old(self).regions@,
            final(self).mem == old(self).mem,
            final(self).next_region_id == old(self).next_region_id,
    {
        let idx = self.queues.len();
        self.queues.push(MessageQueue::new(owner, capacity));
        idx
    }

    /// Create a pipe between a designated reader and writer; returns its
    /// index.
    pub fn create_pipe(&mut self, reader: Pid, writer: Pid) -> (idx: usize)
        requires
            old(self).wf(),
        ensures
            final(self).wf(),
            idx == old(self).pipes@.len(),
            final(self).pipes@.len() == old(self).pipes@.len() + 1,
            final(self).pipes@[idx as int].reader == reader,
            final(self).pipes@[idx as int].writer == writer,
            final(self).pipes@[idx as int].contents() =~= Seq::<u8>::empty(),
            forall|j: int| 0 <= j < old(self).pipes@.len()
                ==> final(self).pipes@[j] == old(self).pipes@[j],
            final(self).procs == old(self).procs,
            final(self).queues@ == old(self).queues@,
            final(self).regions@ == old(self).regions@,
    {
        let idx = self.pipes.len();
        self.pipes.push(Pipe::new(reader, writer));
        idx
    }

    /// Create a shared memory region owned by the current process.
    /// Requires the share capability; the region id comes from the
    /// kernel's collision-free allocator, so it differs from every
    /// existing region's id.
    pub fn create_region(&mut self, size: usize) -> (r: Result<SharedMemId, KernelError>)
        requires
            old(self).wf(),
        ensures
            final(self).wf(),
            final(self).procs == old(self).procs,
            final(self).queues@ == old(self).queues@,
            final(self).pipes@ == old(self).pipes@,
            !old(self).current_has(Capability::MemShare) ==> {
                &&& r == Err::<SharedMemId, KernelError>(KernelError::CapabilityDenied)
                &&& final(self).regions@ == old(self).regions@
            },
            old(self).current_has(Capability::MemShare)
                && old(self).next_region_id == usize::MAX ==> {
                &&& r == Err::<SharedMemId, KernelError>(KernelError::ResourceExhausted)
                &&& final(self).regions@ == old(self).regions@
            },
            old(self).current_has(Capability::MemShare)
                && old(self).next_region_id < usize::MAX ==> {
                let id = old(self).next_region_id;
                &&& r == Ok::<SharedMemId, KernelError>(id)
                &&& (forall|j: int| 0 <= j < old(self).regions@.len()
                        ==> (#[trigger] old(self).regions@[j]).id != id)
                &&& final(self).regions@.len() == old(self).regions@.len() + 1
                &&& (forall|j: int| 0 <= j < old(self).regions@.len()
                        ==> (#[trigger] final(self).regions@[j]) == old(self).regions@[j])
                &&& final(self).regions@.last().id == id
                &&& final(self).regions@.last().owner == old(self).spec_current()
                &&& final(self).regions@.last().size == size
                &&& final(self).regions@.last().readers@.len() == 0
                &&& final(self).regions@.last().writers@.len() == 0
            },
    {
        let cur = self.procs.current_pid();
        let caps = match self.procs.caps_of(cur) {
            Some(c) => c,
            None => {
                return Err(KernelError::CapabilityDenied);
            }
        };
        if self.next_region_id == usize::MAX {
            if let Err(e) = caps.require(Capability::MemShare) {
                return Err(e);
            }
            return Err(KernelError::ResourceExhausted);
        }
        let id = self.next_region_id;
        match SharedMemRegion::new(&caps, id, cur, size) {
            Ok(region) => {
                self.regions.push(region);
                self.next_region_id = self.next_region_id + 1;
                Ok(id)
            }
            Err(e) => Err(e),
        }
    }

    /// Send `len` bytes of `buffer` into queue `qid` on behalf of the
    /// current process: the single result word is 0 on success and the
    /// failure sentinel otherwise. Authorization comes first (and the
    /// queue re-validates it), then the queue's size and capacity rules
    /// apply exactly as `MessageQueue::send` states them. A full queue
    /// suspends the caller (Blocked, waiting to send) instead of dropping
    /// the message; a successful send wakes every process waiting to
    /// receive on this queue.
    pub fn sys_send(&mut self, qid: usize, buffer: &[u8], len: usize) -> (r: usize)
        requires
            old(self).wf(),
            len <= buffer@.len(),
        ensures
            final(self).wf(),
            final(self).threads == old(self).threads,
            final(self).next_region_id == old(self).next_region_id,
            final(self).initialized == old(self).initialized,
            final(self).procs.current == old(self).procs.current,
            final(self).procs.next_pid == old(self).procs.next_pid,
            final(self).procs.procs@.len() == old(self).procs.procs@.len(),
            final(self).queues@.len() == old(self).queues@.len(),
            final(self).pipes@ == old(self).pipes@,
            final(self).regions@ == old(self).regions@,
            final(self).mem == old(self).mem,
            final(self).sched == old(self).sched,
            !old(self).current_has(Capability::IpcSend) ==> {
                &&& r == RESULT_ERR
                &&& final(self).queues@ == old(self).queues@
                &&& final(self).procs.procs@ == old(self).procs.procs@
            },
            old(self).current_has(Capability::IpcSend) && qid >= old(self).queues@.len() ==> {
                &&& r == RESULT_ERR
                &&& final(self).queues@ == old(self).queues@
                &&& final(self).procs.procs@ == old(self).procs.procs@
            },
            old(self).current_has(Capability::IpcSend) && qid < old(self).queues@.len()
                && len > MAX_MESSAGE_SIZE ==> {
                &&& r == RESULT_ERR
                &&& final(self).queues@ == old(self).queues@
                &&& final(self).procs.procs@ == old(self).procs.procs@
            },
            old(self).current_has(Capability::IpcSend) && qid < old(self).queues@.len()
                && len <= MAX_MESSAGE_SIZE
                && old(self).queues@[qid as int].msgs().len()
                    >= old(self).queues@[qid as int].capacity ==> {
                &&& r == RESULT_ERR
                &&& final(self).queues@ == old(self).queues@
                &&& old(self).procs.proc_of(old(self).procs.current).state
                        != ProcessState::Terminated
                    ==> final(self).procs.proc_of(old(self).procs.current).state
                            == ProcessState::Blocked
                        && final(self).procs.proc_of(old(self).procs.current).blocked_on
                            == Some(BlockReason::QueueSend(qid))
            },
            old(self).current_has(Capability::IpcSend) && qid < old(self).queues@.len()
                && len <= MAX_MESSAGE_SIZE
                && old(self).queues@[qid as int].msgs().len()
                    < old(self).queues@[qid as int].capacity ==> {
                &&& r == 0
                &&& final(self).queues@[qid as int].msgs()
                        =~= old(self).queues@[qid as int].msgs().push(MessageModel {
                            from: old(self).spec_current(),
                            data: buffer@.subrange(0, len as int),
                        })
                &&& (forall|j: int| 0 <= j < old(self).queues@.len() && j != qid
                        ==> (#[trigger] final(self).queues@[j]) == old(self).queues@[j])
                &&& woken(old(self).procs.procs@, final(self).procs.procs@,
                        BlockReason::QueueRecv(qid))
            },
    {
        let cur = self.procs.current_pid();
        let caps = match self.procs.caps_of(cur) {
            Some(c) => c,
            None => {
                return RESULT_ERR;
            }
        };
        if !caps.has(Capability::IpcSend) {
            return RESULT_ERR;
        }
        if qid >= self.queues.len() {
            return RESULT_ERR;
        }
        let mut q = self.queues.remove(qid);
        let res = q.send(cur, &caps, buffer, len);
        self.queues.insert(qid, q);
        proof {
            assert(self.queues@ =~= old(self).queues@.update(qid as int, q));
        }
        match res {
            Ok(()) => {
                self.procs.wake_blocked_on(BlockReason::QueueRecv(qid));
                0
            }
            Err(KernelError::ResourceExhausted) => {
                self.procs.block_current(BlockReason::QueueSend(qid));
                RESULT_ERR
            }
            Err(_) => RESULT_ERR,
        }
    }

    /// Receive from queue `qid` on behalf of the current process, copying
    /// into the front of `buffer`: the result word is the number of bytes
    /// copied, or the failure sentinel. Authorization comes first; an
    /// empty queue suspends the caller (Blocked, waiting to receive)
    /// until a counterpart sends. A successful receive frees a slot and
    /// wakes every process waiting to send on this queue.
    pub fn sys_recv(&mut self, qid: usize, buffer: &mut Vec<u8>, max_len: usize) -> (r: usize)
        requires
            old(self).wf(),
            max_len <= old(buffer)@.len(),
        ensures
            final(self).wf(),
            final(self).threads == old(self).threads,
            final(self).next_region_id == old(self).next_region_id,
            final(self).initialized == old(self).initialized,
            final(self).procs.current == old(self).procs.current,
            final(self).procs.next_pid == old(self).procs.next_pid,
            final(self).procs.procs@.len() == old(self).procs.procs@.len(),
            final(self).queues@.len() == old(self).queues@.len(),
            final(self).pipes@ == old(self).pipes@,
            final(self).regions@ == old(self).regions@,
            final(self).mem == old(self).mem,
            final(self).sched == old(self).sched,
            final(buffer)@.len() == old(buffer)@.len(),
            !old(self).current_has(Capability::IpcRecv) ==> {
                &&& r == RESULT_ERR
                &&& final(self).queues@ == old(self).queues@
                &&& final(self).procs.procs@ == old(self).procs.procs@
                &&& final(buffer)@ == old(buffer)@
            },
            old(self).current_has(Capability::IpcRecv) && qid >= old(self).queues@.len() ==> {
                &&& r == RESULT_ERR
                &&& final(self).queues@ == old(self).queues@
                &&& final(self).procs.procs@ == old(self).procs.procs@
                &&& final(buffer)@ == old(buffer)@
            },
            old(self).current_has(Capability::IpcRecv) && qid < old(self).queues@.len()
                && old(self).queues@[qid as int].msgs().len() == 0 ==> {
                &&& r == RESULT_ERR
                &&& final(self).queues@ == old(self).queues@
                &&& final(buffer)@ == old(buffer)@
                &&& old(self).procs.proc_of(old(self).procs.current).state
                        != ProcessState::Terminated
                    ==> final(self).procs.proc_of(old(self).procs.current).state
                            == ProcessState::Blocked
                        && final(self).procs.proc_of(old(self).procs.current).blocked_on
                            == Some(BlockReason::QueueRecv(qid))
            },
            old(self).current_has(Capability::IpcRecv) && qid < old(self).queues@.len()
                && old(self).queues@[qid as int].msgs().len() > 0 ==> {
                let msg = old(self).queues@[qid as int].msgs()[0];
                let n = if max_len <= msg.data.len() { max_len as int } else {
                    msg.data.len() as int
                };
                &&& r == n
                &&& final(self).queues@[qid as int].msgs()
                        =~= old(self).queues@[qid as int].msgs().drop_first()
                &&& (forall|j: int| 0 <= j < old(self).queues@.len() && j != qid
                        ==> (#[trigger] final(self).queues@[j]) == old(self).queues@[j])
                &&& final(buffer)@.subrange(0, n) =~= msg.data.subrange(0, n)
                &&& final(buffer)@.subrange(n, final(buffer)@.len() as int)
                        =~= old(buffer)@.subrange(n, old(buffer)@.len() as int)
                &&& woken(old(self).procs.procs@, final(self).procs.procs@,
                        BlockReason::QueueSend(qid))
            },
    {
        let cur = self.procs.current_pid();
        let caps = match self.procs.caps_of(cur) {
            Some(c) => c,
            None => {
                return RESULT_ERR;
            }
        };
        if !caps.has(Capability::IpcRecv) {
            return RESULT_ERR;
        }
        if qid >= self.queues.len() {
            return RESULT_ERR;
        }
        let mut q = self.queues.remove(qid);
        let res = q.recv(&caps, buffer, max_len);
        self.queues.insert(qid, q);
        proof {
            assert(self.queues@ =~= old(self).queues@.update(qid as int, q));
        }
        match res {
            Ok(n) => {
                self.procs.wake_blocked_on(BlockReason::QueueSend(qid));
                proof {
                    assert(n < RESULT_ERR);
                }
                n
            }
            Err(KernelError::ResourceExhausted) => {
                self.procs.block_current(BlockReason::QueueRecv(qid));
                RESULT_ERR
            }
            Err(_) => RESULT_ERR,
        }
    }

    /// Write `len` bytes of `buffer` into pipe `pid_x` on behalf of the
    /// current process; the result word is the number of bytes written
    /// (a partial write is legal), or the failure sentinel. Authorization
    /// comes first, then the designated-writer identity, re-checked on
    /// every call. A full pipe suspends the caller until space frees; a
    /// successful write wakes every process waiting to read this pipe.
    pub fn pipe_write(&mut self, idx: usize, buffer: &[u8], len: usize) -> (r: usize)
        requires
            old(self).wf(),
            len <= buffer@.len(),
        ensures
            final(self).wf(),
            final(self).procs.current == old(self).procs.current,
            final(self).pipes@.len() == old(self).pipes@.len(),
            final(self).queues@ == old(self).queues@,
            final(self).regions@ == old(self).regions@,
            final(self).mem == old(self).mem,
            final(self).sched == old(self).sched,
            !old(self).current_has(Capability::IpcSend)
                || idx >= old(self).pipes@.len()
                || old(self).spec_current() != old(self).pipes@[idx as int].writer ==> {
                &&& r == RESULT_ERR
                &&& final(self).pipes@ == old(self).pipes@
                &&& final(self).procs.procs@ == old(self).procs.procs@
            },
            old(self).current_has(Capability::IpcSend) && idx < old(self).pipes@.len()
                && old(self).spec_current() == old(self).pipes@[idx as int].writer
                && len > 0
                && old(self).pipes@[idx as int].contents().len()
                    == crate::pipe::PIPE_BUFFER_SIZE ==> {
                &&& r == RESULT_ERR
                &&& final(self).pipes@ == old(self).pipes@
                &&& old(self).procs.proc_of(old(self).procs.current).state
                        != ProcessState::Terminated
                    ==> final(self).procs.proc_of(old(self).procs.current).state
                            == ProcessState::Blocked
                        && final(self).procs.proc_of(old(self).procs.current).blocked_on
                            == Some(BlockReason::PipeWrite(idx))
            },
            old(self).current_has(Capability::IpcSend) && idx < old(self).pipes@.len()
                && old(self).spec_current() == old(self).pipes@[idx as int].writer
                && (len == 0 || old(self).pipes@[idx as int].contents().len()
                        < crate::pipe::PIPE_BUFFER_SIZE) ==> {
                let space = crate::pipe::PIPE_BUFFER_SIZE
                    - old(self).pipes@[idx as int].contents().len();
                let n = if len <= space { len as int } else { space as int };
                &&& r == n
                &&& final(self).pipes@[idx as int].contents()
                        =~= old(self).pipes@[idx as int].contents()
                            + buffer@.subrange(0, n)
                &&& (forall|j: int| 0 <= j < old(self).pipes@.len() && j != idx
                        ==> (#[trigger] final(self).pipes@[j]) == old(self).pipes@[j])
                &&& woken(old(self).procs.procs@, final(self).procs.procs@,
                        BlockReason::PipeRead(idx))
            },
    {
        let cur = self.procs.current_pid();
        let caps = match self.procs.caps_of(cur) {
            Some(c) => c,
            None => {
                return RESULT_ERR;
            }
        };
        if !caps.has(Capability::IpcSend) {
            return RESULT_ERR;
        }
        if idx >= self.pipes.len() {
            return RESULT_ERR;
        }
        let mut p = self.pipes.remove(idx);
        let res = p.write(cur, &caps, buffer, len);
        self.pipes.insert(idx, p);
        proof {
            assert(self.pipes@ =~= old(self).pipes@.update(idx as int, p));
        }
        match res {
            Ok(n) => {
                self.procs.wake_blocked_on(BlockReason::PipeRead(idx));
                proof {
                    assert(n <= crate::pipe::PIPE_BUFFER_SIZE < RESULT_ERR);
                }
                n
            }
            Err(KernelError::ResourceExhausted) => {
                self.procs.block_current(BlockReason::PipeWrite(idx));
                RESULT_ERR
            }
            Err(_) => RESULT_ERR,
        }
    }

    /// Read up to `max_len` bytes from pipe `idx` into the front of
    /// `buffer` on behalf of the current process; the result word is the
    /// number of bytes read (a partial read is legal), or the failure
    /// sentinel. Authorization comes first, then the designated-reader
    /// identity, re-checked on every call. An empty pipe suspends the
    /// caller until bytes arrive; a successful read wakes every process
    /// waiting to write this pipe.
    pub fn pipe_read(&mut self, idx: usize, buffer: &mut Vec<u8>, max_len: usize) -> (r: usize)
        requires
            old(self).wf(),
            max_len <= old(buffer)@.len(),
        ensures
            final(self).wf(),
            final(self).procs.current == old(self).procs.current,
            final(self).pipes@.len() == old(self).pipes@.len(),
            final(self).queues@ == old(self).queues@,
            final(self).regions@ == old(self).regions@,
            final(self).mem == old(self).mem,
            final(self).sched == old(self).sched,
            final(buffer)@.len() == old(buffer)@.len(),
            !old(self).current_has(Capability::IpcRecv)
                || idx >= old(self).pipes@.len()
                || old(self).spec_current() != old(self).pipes@[idx as int].reader ==> {
                &&& r == RESULT_ERR
                &&& final(self).pipes@ == old(self).pipes@
                &&& final(self).procs.procs@ == old(self).procs.procs@
                &&& final(buffer)@ == old(buffer)@
            },
            old(self).current_has(Capability::IpcRecv) && idx < old(self).pipes@.len()
                && old(self).spec_current() == old(self).pipes@[idx as int].reader
                && max_len > 0
                && old(self).pipes@[idx as int].contents().len() == 0 ==> {
                &&& r == RESULT_ERR
                &&& final(self).pipes@ == old(self).pipes@
                &&& final(buffer)@ == old(buffer)@
                &&& old(self).procs.proc_of(old(self).procs.current).state
                        != ProcessState::Terminated
                    ==> final(self).procs.proc_of(old(self).procs.current).state
                            == ProcessState::Blocked
                        && final(self).procs.proc_of(old(self).procs.current).blocked_on
                            == Some(BlockReason::PipeRead(idx))
            },
            old(self).current_has(Capability::IpcRecv) && idx < old(self).pipes@.len()
                && old(self).spec_current() == old(self).pipes@[idx as int].reader
                && (max_len == 0 || old(self).pipes@[idx as int].contents().len() > 0) ==> {
                let avail = old(self).pipes@[idx as int].contents().len() as int;
                let n = if max_len <= avail { max_len as int } else { avail };
                &&& r == n
                &&& final(self).pipes@[idx as int].contents()
                        =~= old(self).pipes@[idx as int].contents().skip(n)
                &&& (forall|j: int| 0 <= j < old(self).pipes@.len() && j != idx
                        ==> (#[trigger] final(self).pipes@[j]) == old(self).pipes@[j])
                &&& final(buffer)@.subrange(0, n)
                        =~= old(self).pipes@[idx as int].contents().subrange(0, n)
                &&& woken(old(self).procs.procs@, final(self).procs.procs@,
                        BlockReason::PipeWrite(idx))
            },
    {
        let cur = self.procs.current_pid();
        let caps = match self.procs.caps_of(cur) {
            Some(c) => c,
            None => {
                return RESULT_ERR;
            }
        };
        if !caps.has(Capability::IpcRecv) {
            return RESULT_ERR;
        }
        if idx >= self.pipes.len() {
            return RESULT_ERR;
        }
        let mut p = self.pipes.remove(idx);
        let res = p.read(cur, &caps, buffer, max_len);
        self.pipes.insert(idx, p);
        proof {
            assert(self.pipes@ =~= old(self).pipes@.update(idx as int, p));
        }
        match res {
            Ok(n) => {
                self.procs.wake_blocked_on(BlockReason::PipeWrite(idx));
                proof {
                    assert(n <= crate::pipe::PIPE_BUFFER_SIZE < RESULT_ERR);
                }
                n
            }
            Err(KernelError::ResourceExhausted) => {
                self.procs.block_current(BlockReason::PipeRead(idx));
                RESULT_ERR
            }
            Err(_) => RESULT_ERR,
        }
    }

    /// Spawn a new process on behalf of the current one; the result word
    /// is the child's PID, or the failure sentinel when the spawn
    /// capability is missing or PIDs are exhausted. The child starts
    /// Ready, with the empty capability table (delegation policy is an
    /// external parameter of process creation), and is enqueued with the
    /// scheduler.
    pub fn sys_spawn(&mut self) -> (r: usize)
        requires
            old(self).wf(),
        ensures
            final(self).wf(),
            final(self).threads == old(self).threads,
            final(self).next_region_id == old(self).next_region_id,
            final(self).initialized == old(self).initialized,
            final(self).procs.current == old(self).procs.current,
            final(self).queues@ == old(self).queues@,
            final(self).pipes@ == old(self).pipes@,
            final(self).regions@ == old(self).regions@,
            final(self).mem == old(self).mem,
            !old(self).current_has(Capability::ProcSpawn) ==> {
                &&& r == RESULT_ERR
                &&& final(self).procs == old(self).procs
                &&& final(self).sched == old(self).sched
            },
            old(self).current_has(Capability::ProcSpawn)
                && old(self).procs.next_pid == u32::MAX ==> {
                &&& r == RESULT_ERR
                &&& final(self).procs == old(self).procs
                &&& final(self).sched == old(self).sched
            },
            old(self).current_has(Capability::ProcSpawn)
                && old(self).procs.next_pid < u32::MAX ==> {
                let pid = old(self).procs.next_pid;
                &&& r == pid as usize
                &&& !old(self).procs.has_pid(pid)
                &&& final(self).procs.procs@.len() == old(self).procs.procs@.len() + 1
                &&& final(self).procs.procs@.last().pid == pid
                &&& final(self).procs.procs@.last().state == ProcessState::Ready
                &&& final(self).procs.procs@.last().parent == Some(old(self).spec_current())
                &&& (forall|c: Capability|
                        !final(self).procs.procs@.last().capabilities.spec_has(c))
                &&& (forall|j: int| 0 <= j < old(self).procs.procs@.len()
                        ==> (#[trigger] final(self).procs.procs@[j])
                            == old(self).procs.procs@[j])
                &&& final(self).sched.queue@ =~= old(self).sched.queue@.push(pid)
            },
    {
        let child_caps = CapabilityTable::new();
        match self.procs.spawn(&mut self.sched, child_caps) {
            Ok(pid) => pid as usize,
            Err(_) => RESULT_ERR,
        }
    }

    /// Kill process `pid` on behalf of the current one; the result word is
    /// 0 on success. With the kill capability the target (if it exists)
    /// transitions to Terminated; a blocked call it was suspended in is
    /// woken with the failure result rather than left hanging; its memory
    /// leaves the ledger; and the scheduler forgets it.
    pub fn sys_kill(&mut self, pid: Pid) -> (r: usize)
        requires
            old(self).wf(),
        ensures
            final(self).wf(),
            final(self).threads == old(self).threads,
            final(self).next_region_id == old(self).next_region_id,
            final(self).initialized == old(self).initialized,
            final(self).procs.current == old(self).procs.current,
            final(self).queues@ == old(self).queues@,
            final(self).pipes@ == old(self).pipes@,
            final(self).regions@ == old(self).regions@,
            !old(self).current_has(Capability::ProcKill) ==> {
                &&& r == RESULT_ERR
                &&& final(self).procs == old(self).procs
                &&& final(self).mem == old(self).mem
                &&& final(self).sched == old(self).sched
            },
            old(self).current_has(Capability::ProcKill) ==> {
                &&& r == 0
                &&& (old(self).procs.has_pid(pid) ==> {
                    &&& final(self).procs.has_pid(pid)
                    &&& final(self).procs.proc_of(pid).state == ProcessState::Terminated
                    &&& final(self).procs.proc_of(pid).blocked_on is None
                    &&& (old(self).procs.proc_of(pid).state == ProcessState::Blocked
                            ==> final(self).procs.proc_of(pid).pending_result
                                == Some(RESULT_ERR))
                })
                &&& (!old(self).procs.has_pid(pid)
                        ==> final(self).procs.procs@ == old(self).procs.procs@)
                &&& final(self).mem.allocations@
                        =~= old(self).mem.allocations@.filter(
                            |a: vmm::Allocation| a.pid != pid)
                &&& final(self).sched.queue@
                        =~= old(self).sched.queue@.filter(|p: Pid| p != pid)
            },
    {
        match self.procs.kill(pid) {
            Ok(()) => {
                vmm::revoke_process(&mut self.mem, pid);
                scheduler::remove(&mut self.sched, pid);
                0
            }
            Err(_) => RESULT_ERR,
        }
    }

    /// Voluntary yield of the current process: no capability is required;
    /// the scheduler rotates its run queue and nothing else changes.
    pub fn sys_yield(&mut self) -> (r: usize)
        requires
            old(self).wf(),
        ensures
            final(self).wf(),
            final(self).threads == old(self).threads,
            final(self).next_region_id == old(self).next_region_id,
            final(self).initialized == old(self).initialized,
            r == 0,
            final(self).procs == old(self).procs,
            final(self).queues@ == old(self).queues@,
            final(self).pipes@ == old(self).pipes@,
            final(self).regions@ == old(self).regions@,
            final(self).mem == old(self).mem,
            old(self).sched.queue@.len() == 0
                ==> final(self).sched.queue@ == old(self).sched.queue@,
            old(self).sched.queue@.len() > 0
                ==> final(self).sched.queue@ =~= old(self).sched.queue@.drop_first().push(
                    old(self).sched.queue@[0]),
    {
        scheduler::yield_current(&mut self.sched);
        0
    }

    /// Allocate `size` bytes for the current process; the result word is
    /// the granted size, or the failure sentinel when the capability is
    /// missing or the request would exceed the global bound.
    pub fn sys_alloc(&mut self, size: usize) -> (r: usize)
        requires
            old(self).wf(),
        ensures
            final(self).wf(),
            final(self).threads == old(self).threads,
            final(self).next_region_id == old(self).next_region_id,
            final(self).initialized == old(self).initialized,
            final(self).procs == old(self).procs,
            final(self).queues@ == old(self).queues@,
            final(self).pipes@ == old(self).pipes@,
            final(self).regions@ == old(self).regions@,
            final(self).sched == old(self).sched,
            !old(self).current_has(Capability::MemAlloc) ==> {
                &&& r == RESULT_ERR
                &&& final(self).mem == old(self).mem
            },
            old(self).current_has(Capability::MemAlloc)
                && old(self).mem.total + size > vmm::MAX_TOTAL_MEMORY ==> {
                &&& r == RESULT_ERR
                &&& final(self).mem == old(self).mem
            },
            old(self).current_has(Capability::MemAlloc)
                && old(self).mem.total + size <= vmm::MAX_TOTAL_MEMORY ==> {
                &&& r == size
                &&& final(self).mem.allocations@ =~= old(self).mem.allocations@.push(
                        vmm::Allocation { pid: old(self).spec_current(), size })
                &&& final(self).mem.total == old(self).mem.total + size
            },
    {
        let cur = self.procs.current_pid();
        let caps = match self.procs.caps_of(cur) {
            Some(c) => c,
            None => {
                return RESULT_ERR;
            }
        };
        match vmm::allocate(&mut self.mem, &caps, cur, size) {
            Ok(granted) => {
                proof {
                    assert(granted <= vmm::MAX_TOTAL_MEMORY < RESULT_ERR);
                }
                granted
            }
            Err(_) => RESULT_ERR,
        }
    }

    /// Share region `region_id` with process `target` on behalf of the
    /// current process: with the share capability, and when the current
    /// process owns that region, the target is granted read access
    /// exactly as `grant_read` describes. The result word is 0 on
    /// success.
    pub fn sys_share(&mut self, region_id: SharedMemId, target: Pid) -> (r: usize)
        requires
            old(self).wf(),
        ensures
            final(self).wf(),
            final(self).threads == old(self).threads,
            final(self).next_region_id == old(self).next_region_id,
            final(self).initialized == old(self).initialized,
            final(self).procs == old(self).procs,
            final(self).queues@ == old(self).queues@,
            final(self).pipes@ == old(self).pipes@,
            final(self).mem == old(self).mem,
            final(self).sched == old(self).sched,
            final(self).regions@.len() == old(self).regions@.len(),
            !old(self).current_has(Capability::MemShare) ==> {
                &&& r == RESULT_ERR
                &&& final(self).regions == old(self).regions
            },
            old(self).current_has(Capability::MemShare)
                && (forall|k: int| 0 <= k < old(self).regions@.len()
                    ==> !((#[trigger] old(self).regions@[k]).id == region_id
                            && old(self).regions@[k].owner == old(self).spec_current()))
                ==> {
                &&& r == RESULT_ERR
                &&& final(self).regions@ == old(self).regions@
            },
            forall|k: int| 0 <= k < final(self).regions@.len()
                && !((#[trigger] old(self).regions@[k]).id == region_id
                        && old(self).regions@[k].owner == old(self).spec_current())
                ==> final(self).regions@[k] == old(self).regions@[k],
            old(self).current_has(Capability::MemShare) ==> forall|k: int|
                0 <= k < final(self).regions@.len()
                    && (#[trigger] old(self).regions@[k]).id == region_id
                    && old(self).regions@[k].owner == old(self).spec_current()
                    ==> {
                    let before = old(self).regions@[k];
                    let after = final(self).regions@[k];
                    &&& after.owner == before.owner
                    &&& after.writers@ == before.writers@
                    &&& (before.readers@.contains(target)
                            ==> after.readers@ == before.readers@ && r == 0)
                    &&& (!before.readers@.contains(target)
                            && before.readers@.len() >= crate::shared_mem::MAX_ACCESS_ENTRIES
                            ==> after.readers@ == before.readers@ && r == RESULT_ERR)
                    &&& (!before.readers@.contains(target)
                            && before.readers@.len() < crate::shared_mem::MAX_ACCESS_ENTRIES
                            ==> after.readers@ =~= before.readers@.push(target) && r == 0)
                },
    {
        let cur = self.procs.current_pid();
        let caps = match self.procs.caps_of(cur) {
            Some(c) => c,
            None => {
                return RESULT_ERR;
            }
        };
        let res = vmm::share(&mut self.regions, &caps, cur, region_id, target);
        proof {
            assert forall|k: int| 0 <= k < self.regions@.len()
                implies (#[trigger] self.regions@[k]).id == old(self).regions@[k].id by {
                if !(old(self).regions@[k].id == region_id
                        && old(self).regions@[k].owner == cur) {
                    assert(self.regions@[k] == old(self).regions@[k]);
                }
            }
        }
        match res {
            Ok(()) => 0,
            Err(_) => RESULT_ERR,
        }
    }
}

} // verus!
