//! Kernel-managed processes and their lifecycle. Processes are the primary
//! unit of execution and isolation; every process carries its own
//! capability table, created with it and destroyed with it.

use vstd::prelude::*;
use crate::KernelError;
use crate::capability::{Capability, CapabilityTable};
use crate::scheduler;
use crate::scheduler::Scheduler;

verus! {

/// Opaque process identifier. Owned by the process table; referenced,
/// never owned, by IPC entities.
pub type Pid = u32;

/// Lifecycle states of a kernel-managed process.
#[derive(Copy, Clone, Debug, PartialEq, Eq, Structural)]
pub enum ProcessState {
    /// Created but not yet registered with the scheduler.
    New,
    /// Ready to run.
    Ready,
    /// Currently executing.
    Running,
    /// Suspended inside a blocking IPC call.
    Blocked,
    /// Exited; awaits cleanup by periodic reaping.
    Terminated,
}

/// What a blocked process is suspended on. The payload is the index of the
/// queue or pipe inside the kernel's table of that primitive.
#[derive(Copy, Clone, Debug, PartialEq, Eq, Structural)]
pub enum BlockReason {
    /// Waiting for space in a full message queue.
    QueueSend(usize),
    /// Waiting for a message in an empty queue.
    QueueRecv(usize),
    /// Waiting for space in a full pipe ring buffer.
    PipeWrite(usize),
    /// Waiting for bytes in an empty pipe.
    PipeRead(usize),
}

/// Kernel process descriptor.
#[derive(Copy, Clone, Debug, PartialEq, Eq, Structural)]
pub struct Process {
    /// Unique identifier of this process.
    pub pid: Pid,
    /// Current lifecycle state.
    pub state: ProcessState,
    /// The process that spawned this one, if any.
    pub parent: Option<Pid>,
    /// The authority this process holds.
    pub capabilities: CapabilityTable,
    /// When the state is `Blocked`: what the process is suspended on.
    pub blocked_on: Option<BlockReason>,
    /// The result word a suspended call completed with, delivered when the
    /// process was woken by cancellation rather than by its counterpart.
    pub pending_result: Option<usize>,
}

/// The kernel's table of all live processes, together with the identity of
/// the currently executing one and the PID allocator.
pub struct ProcessTable {
    /// All registered processes.
    pub procs: Vec<Process>,
    /// Identity of the currently executing process.
    pub current: Pid,
    /// Next PID to hand out; all existing PIDs are below it.
    pub next_pid: Pid,
}

impl ProcessTable {
    /// Does the table hold a process with identifier `pid`?
    pub open spec fn has_pid(self, pid: Pid) -> bool {
        exists|i: int| 0 <= i < self.procs@.len() && (#[trigger] self.procs@[i]).pid == pid
    }

    /// Index of the process with identifier `pid`.
    pub open spec fn idx_of(self, pid: Pid) -> int {
        choose|i: int| 0 <= i < self.procs@.len() && (#[trigger] self.procs@[i]).pid == pid
    }

    /// The process record with identifier `pid`.
    pub open spec fn proc_of(self, pid: Pid) -> Process {
        self.procs@[self.idx_of(pid)]
    }

    /// Well-formedness: PIDs are unique, all below the allocator's next
    /// value, and blocking bookkeeping matches the lifecycle state.
    pub open spec fn wf(self) -> bool {
        &&& forall|i: int, j: int|
                0 <= i < j < self.procs@.len()
                    ==> (#[trigger] self.procs@[i]).pid != (#[trigger] self.procs@[j]).pid
        &&& forall|i: int| 0 <= i < self.procs@.len()
                ==> (#[trigger] self.procs@[i]).pid < self.next_pid
        &&& forall|i: int| 0 <= i < self.procs@.len()
                ==> ((#[trigger] self.procs@[i]).blocked_on is Some
                        <==> self.procs@[i].state == ProcessState::Blocked)
    }

    /// Create the process table at boot with a single root process, which
    /// starts out running with the authority the boot policy grants it.
    pub fn init(root_caps: CapabilityTable) -> (t: Self)
        ensures
            t.wf(),
            t.current == 0,
            t.procs@.len() == 1,
            t.procs@[0] == (Process {
                pid: 0,
                state: ProcessState::Running,
                parent: None,
                capabilities: root_caps,
                blocked_on: None,
                pending_result: None,
            }),
    {
        let root = Process {
            pid: 0,
            state: ProcessState::Running,
            parent: None,
            capabilities: root_caps,
            blocked_on: None,
            pending_result: None,
        };
        let mut procs: Vec<Process> = Vec::new();
        procs.push(root);
        ProcessTable { procs, current: 0, next_pid: 1 }
    }

    /// Find the index of the process with identifier `pid`, if present.
    pub fn find(&self, pid: Pid) -> (r: Option<usize>)
        ensures
            r is Some ==> {
                &&& 0 <= r->0 < self.procs@.len()
                &&& self.procs@[r->0 as int].pid == pid
                &&& self.has_pid(pid)
            },
            r is None ==> !self.has_pid(pid),
    {
        let mut i: usize = 0;
        while i < self.procs.len()
            invariant
                i <= self.procs@.len(),
                forall|j: int| 0 <= j < i ==> (#[trigger] self.procs@[j]).pid != pid,
            decreases self.procs@.len() - i,
        {
            if self.procs[i].pid == pid {
                return Some(i);
            }
            i = i + 1;
        }
        None
    }

    /// Identity of the currently executing process.
    pub fn current_pid(&self) -> (r: Pid)
        ensures
            r == self.current,
    {
        self.current
    }

    /// The capability table of the process with identifier `pid`, if that
    /// process exists.
    pub fn caps_of(&self, pid: Pid) -> (r: Option<CapabilityTable>)
        requires
            self.wf(),
        ensures
            r is Some <==> self.has_pid(pid),
            r is Some ==> r->0 == self.proc_of(pid).capabilities,
    {
        match self.find(pid) {
            Some(i) => {
                proof {
                    lemma_idx_agrees(*self, pid, i as int);
                }
                Some(self.procs[i].capabilities)
            }
            None => None,
        }
    }
}

/// When PIDs are unique, any index holding `pid` is the index `idx_of`
/// picks, so `proc_of` speaks of that very record.
pub proof fn lemma_idx_agrees(t: ProcessTable, pid: Pid, i: int)
    requires
        forall|a: int, b: int|
            0 <= a < b < t.procs@.len()
                ==> (#[trigger] t.procs@[a]).pid != (#[trigger] t.procs@[b]).pid,
        0 <= i < t.procs@.len(),
        t.procs@[i].pid == pid,
    ensures
        t.has_pid(pid),
        t.idx_of(pid) == i,
        t.proc_of(pid) == t.procs@[i],
{
    assert(t.has_pid(pid));
    let j = t.idx_of(pid);
    if i < j {
        assert(t.procs@[i].pid != t.procs@[j].pid);
    } else if j < i {
        assert(t.procs@[j].pid != t.procs@[i].pid);
    }
}

impl ProcessTable {
    /// Spawn a new process: requires the spawn capability of the current
    /// process. The child's capability table comes from the (external)
    /// inheritance policy. On success the child is registered Ready with a
    /// fresh PID, its parent is the current process, and it is enqueued
    /// with the scheduler; the returned value is its PID.
    pub fn spawn(
        &mut self,
        sched: &mut Scheduler,
        child_caps: CapabilityTable,
    ) -> (r: Result<Pid, KernelError>)
        requires
            old(self).wf(),
        ensures
            final(self).wf(),
            final(self).current == old(self).current,
            !(old(self).has_pid(old(self).current)
                    && old(self).proc_of(old(self).current).capabilities.spec_has(
                        Capability::ProcSpawn)) ==> {
                &&& r == Err::<Pid, KernelError>(KernelError::CapabilityDenied)
                &&& *final(self) == *old(self)
                &&& *final(sched) == *old(sched)
            },
            old(self).has_pid(old(self).current)
                && old(self).proc_of(old(self).current).capabilities.spec_has(Capability::ProcSpawn)
                && old(self).next_pid == u32::MAX ==> {
                &&& r == Err::<Pid, KernelError>(KernelError::ResourceExhausted)
                &&& *final(self) == *old(self)
                &&& *final(sched) == *old(sched)
            },
            old(self).has_pid(old(self).current)
                && old(self).proc_of(old(self).current).capabilities.spec_has(Capability::ProcSpawn)
                && old(self).next_pid < u32::MAX ==> {
                let child = Process {
                    pid: old(self).next_pid,
                    state: ProcessState::Ready,
                    parent: Some(old(self).current),
                    capabilities: child_caps,
                    blocked_on: None,
                    pending_result: None,
                };
                &&& r == Ok::<Pid, KernelError>(old(self).next_pid)
                &&& !old(self).has_pid(old(self).next_pid)
                &&& final(self).procs@ =~= old(self).procs@.push(child)
                &&& final(self).next_pid == old(self).next_pid + 1
                &&& final(sched).queue@ =~= old(sched).queue@.push(old(self).next_pid)
            },
    {
        if let Err(e) = require_current(self, Capability::ProcSpawn) {
            return Err(e);
        }
        if self.next_pid == u32::MAX {
            return Err(KernelError::ResourceExhausted);
        }
        let pid = self.next_pid;
        let child = Process {
            pid,
            state: ProcessState::Ready,
            parent: Some(self.current),
            capabilities: child_caps,
            blocked_on: None,
            pending_result: None,
        };
        self.next_pid = self.next_pid + 1;
        self.procs.push(child);
        scheduler::enqueue(sched, pid);
        Ok(pid)
    }

    /// Unconditionally move the process `pid` to the Terminated state, the
    /// shared tail of `kill` and of fatal-fault handling. If the process
    /// was blocked inside an IPC call, that call is woken with the failure
    /// result word rather than left hanging. A PID with no record is a
    /// no-op. Terminated is absorbing until reaped.
    pub fn terminate_pid(&mut self, pid: Pid)
        requires
            old(self).wf(),
        ensures
            final(self).wf(),
            final(self).current == old(self).current,
            final(self).next_pid == old(self).next_pid,
            final(self).procs@.len() == old(self).procs@.len(),
            !old(self).has_pid(pid) ==> final(self).procs@ == old(self).procs@,
            old(self).has_pid(pid) ==> {
                let i = old(self).idx_of(pid);
                let p = old(self).procs@[i];
                &&& final(self).procs@ =~= old(self).procs@.update(i, Process {
                        state: ProcessState::Terminated,
                        blocked_on: None,
                        pending_result: if p.state == ProcessState::Blocked {
                            Some(usize::MAX)
                        } else {
                            p.pending_result
                        },
                        ..p
                    })
                &&& final(self).has_pid(pid)
                &&& final(self).proc_of(pid).state == ProcessState::Terminated
                &&& final(self).proc_of(pid).blocked_on is None
                &&& old(self).proc_of(pid).state == ProcessState::Blocked
                        ==> final(self).proc_of(pid).pending_result == Some(usize::MAX)
            },
    {
        let found = self.find(pid);
        if let Some(i) = found {
            proof {
                lemma_idx_agrees(*self, pid, i as int);
            }
            let p = self.procs[i];
            let was_blocked = match p.state {
                ProcessState::Blocked => true,
                _ => false,
            };
            let updated = Process {
                state: ProcessState::Terminated,
                blocked_on: None,
                pending_result: if was_blocked { Some(usize::MAX) } else { p.pending_result },
                ..p
            };
            self.procs[i] = updated;
            proof {
                lemma_idx_agrees(*self, pid, i as int);
            }
        }
    }

    /// Kill a process: requires the kill capability of the current
    /// process; with it, the target (if it exists) transitions to
    /// Terminated exactly as `terminate_pid` describes, and a call it was
    /// blocked in is woken with the failure result. Without it, nothing
    /// changes.
    pub fn kill(&mut self, pid: Pid) -> (r: Result<(), KernelError>)
        requires
            old(self).wf(),
        ensures
            final(self).wf(),
            final(self).current == old(self).current,
            final(self).next_pid == old(self).next_pid,
            !(old(self).has_pid(old(self).current)
                    && old(self).proc_of(old(self).current).capabilities.spec_has(
                        Capability::ProcKill)) ==> {
                &&& r == Err::<(), KernelError>(KernelError::CapabilityDenied)
                &&& *final(self) == *old(self)
            },
            old(self).has_pid(old(self).current)
                && old(self).proc_of(old(self).current).capabilities.spec_has(
                    Capability::ProcKill) ==> {
                &&& r == Ok::<(), KernelError>(())
                &&& (!old(self).has_pid(pid) ==> final(self).procs@ == old(self).procs@)
                &&& (old(self).has_pid(pid) ==> {
                    let i = old(self).idx_of(pid);
                    let p = old(self).procs@[i];
                    &&& final(self).procs@ =~= old(self).procs@.update(i, Process {
                            state: ProcessState::Terminated,
                            blocked_on: None,
                            pending_result: if p.state == ProcessState::Blocked {
                                Some(usize::MAX)
                            } else {
                                p.pending_result
                            },
                            ..p
                        })
                    &&& final(self).has_pid(pid)
                    &&& final(self).proc_of(pid).state == ProcessState::Terminated
                    &&& final(self).proc_of(pid).blocked_on is None
                    &&& (old(self).proc_of(pid).state == ProcessState::Blocked
                            ==> final(self).proc_of(pid).pending_result == Some(usize::MAX))
                })
            },
    {
        if let Err(e) = require_current(self, Capability::ProcKill) {
            return Err(e);
        }
        self.terminate_pid(pid);
        Ok(())
    }

    /// Suspend the currently executing process inside a blocking IPC call:
    /// it transitions Running (or Ready) to Blocked and records what it
    /// waits on. A PID with no record, or one already terminated, is left
    /// unchanged.
    pub fn block_current(&mut self, reason: BlockReason)
        requires
            old(self).wf(),
        ensures
            final(self).wf(),
            final(self).current == old(self).current,
            final(self).next_pid == old(self).next_pid,
            !old(self).has_pid(old(self).current)
                    || old(self).proc_of(old(self).current).state == ProcessState::Terminated
                ==> final(self).procs@ == old(self).procs@,
            old(self).has_pid(old(self).current)
                && old(self).proc_of(old(self).current).state != ProcessState::Terminated ==> {
                let i = old(self).idx_of(old(self).current);
                let p = old(self).procs@[i];
                &&& final(self).procs@ =~= old(self).procs@.update(i, Process {
                        state: ProcessState::Blocked,
                        blocked_on: Some(reason),
                        pending_result: None,
                        ..p
                    })
                &&& final(self).proc_of(old(self).current).state == ProcessState::Blocked
                &&& final(self).proc_of(old(self).current).blocked_on == Some(reason)
            },
    {
        let current = self.current;
        let found = self.find(current);
        if let Some(i) = found {
            proof {
                lemma_idx_agrees(*self, current, i as int);
            }
            let p = self.procs[i];
            let terminated = match p.state {
                ProcessState::Terminated => true,
                _ => false,
            };
            if !terminated {
                let updated = Process {
                    state: ProcessState::Blocked,
                    blocked_on: Some(reason),
                    pending_result: None,
                    ..p
                };
                self.procs[i] = updated;
                proof {
                    lemma_idx_agrees(*self, current, i as int);
                }
            }
        }
    }

    /// Counterpart activity on a primitive: every process suspended on
    /// `reason` resumes, transitioning Blocked to Ready with its wait
    /// cleared, so it can retry its call. All other processes are
    /// untouched.
    pub fn wake_blocked_on(&mut self, reason: BlockReason)
        requires
            old(self).wf(),
        ensures
            final(self).wf(),
            final(self).current == old(self).current,
            final(self).next_pid == old(self).next_pid,
            final(self).procs@.len() == old(self).procs@.len(),
            forall|i: int| 0 <= i < old(self).procs@.len()
                ==> final(self).procs@[i] == (if (#[trigger] old(self).procs@[i]).blocked_on
                        == Some(reason) {
                    Process {
                        state: ProcessState::Ready,
                        blocked_on: None,
                        pending_result: None,
                        ..old(self).procs@[i]
                    }
                } else {
                    old(self).procs@[i]
                }),
    {
        let n = self.procs.len();
        let mut i: usize = 0;
        while i < n
            invariant
                i <= n,
                n == self.procs@.len(),
                self.procs@.len() == old(self).procs@.len(),
                self.current == old(self).current,
                self.next_pid == old(self).next_pid,
                forall|j: int| i <= j < n ==> self.procs@[j] == old(self).procs@[j],
                forall|j: int| 0 <= j < i
                    ==> self.procs@[j] == (if (#[trigger] old(self).procs@[j]).blocked_on
                            == Some(reason) {
                        Process {
                            state: ProcessState::Ready,
                            blocked_on: None,
                            pending_result: None,
                            ..old(self).procs@[j]
                        }
                    } else {
                        old(self).procs@[j]
                    }),
            decreases n - i,
        {
            let p = self.procs[i];
            if let Some(waiting_on) = p.blocked_on {
                if waiting_on == reason {
                    let updated = Process {
                        state: ProcessState::Ready,
                        blocked_on: None,
                        pending_result: None,
                        ..p
                    };
                    self.procs[i] = updated;
                }
            }
            i = i + 1;
        }
        proof {
            assert forall|a: int| 0 <= a < self.procs@.len()
                implies (#[trigger] self.procs@[a]).pid == old(self).procs@[a].pid
                    && self.procs@[a].pid < self.next_pid
                    && (self.procs@[a].blocked_on is Some
                            <==> self.procs@[a].state == ProcessState::Blocked) by {
                assert(old(self).procs@[a].pid < old(self).next_pid);
                assert(old(self).procs@[a].blocked_on is Some
                    <==> old(self).procs@[a].state == ProcessState::Blocked);
            }
            assert forall|a: int, b: int| 0 <= a < b < self.procs@.len()
                implies (#[trigger] self.procs@[a]).pid
                    != (#[trigger] self.procs@[b]).pid by {
                assert(old(self).procs@[a].pid != old(self).procs@[b].pid);
            }
        }
    }

    /// Periodic cleanup: drop every Terminated process from the table.
    /// All other processes survive, in order.
    pub fn reap_zombies(&mut self)
        requires
            old(self).wf(),
        ensures
            final(self).wf(),
            final(self).current == old(self).current,
            final(self).next_pid == old(self).next_pid,
            final(self).procs@ =~= old(self).procs@.filter(
                |p: Process| p.state != ProcessState::Terminated),
    {
        let ghost orig = self.procs@;
        let mut kept: Vec<Process> = Vec::new();
        let mut i: usize = 0;
        while i < self.procs.len()
            invariant
                i <= self.procs@.len(),
                self.procs@ == orig,
                kept@ =~= orig.take(i as int).filter(
                    |p: Process| p.state != ProcessState::Terminated),
            decreases self.procs@.len() - i,
        {
            let p = self.procs[i];
            proof {
                assert(orig.take(i + 1 as int) =~= orig.take(i as int).push(orig[i as int]));
                orig.take(i as int).lemma_filter_push(
                    orig[i as int], |p: Process| p.state != ProcessState::Terminated);
            }
            let keep = match p.state {
                ProcessState::Terminated => false,
                _ => true,
            };
            if keep {
                kept.push(p);
            }
            i = i + 1;
        }
        proof {
            assert(orig.take(orig.len() as int) =~= orig);
        }
        self.procs = kept;
        proof {
            let fin = self.procs@;
            assert forall|a: int, b: int| 0 <= a < b < fin.len()
                implies (#[trigger] fin[a]).pid != (#[trigger] fin[b]).pid by {
                lemma_filter_distinct(orig, |p: Process| p.state != ProcessState::Terminated, a, b);
            }
            assert forall|a: int| 0 <= a < fin.len()
                implies (#[trigger] fin[a]).pid < self.next_pid
                    && (fin[a].blocked_on is Some <==> fin[a].state == ProcessState::Blocked) by {
                lemma_filter_from_original(
                    orig, |p: Process| p.state != ProcessState::Terminated, a);
                let j = choose|j: int| 0 <= j < orig.len() && orig[j] == fin[a];
                assert(orig[j].pid < self.next_pid);
            }
        }
    }
}

/// Distinct positions of a filtered sequence come from distinct positions
/// of the original, in order; so when a field is pairwise distinct in the
/// original it stays pairwise distinct after filtering.
proof fn lemma_filter_distinct(s: Seq<Process>, pred: spec_fn(Process) -> bool, a: int, b: int)
    requires
        forall|i: int, j: int| 0 <= i < j < s.len()
            ==> (#[trigger] s[i]).pid != (#[trigger] s[j]).pid,
        0 <= a < b < s.filter(pred).len(),
    ensures
        s.filter(pred)[a].pid != s.filter(pred)[b].pid,
    decreases s.len(),
{
    reveal(Seq::filter);
    if s.len() > 0 {
        let rest = s.drop_last();
        let f = s.filter(pred);
        if pred(s.last()) {
            if b < f.len() - 1 {
                lemma_filter_distinct(rest, pred, a, b);
            } else {
                rest.lemma_filter_len(pred);
                lemma_filter_from_original(rest, pred, a);
                let j = choose|j: int| 0 <= j < rest.len() && rest[j] == rest.filter(pred)[a];
                assert(s[j].pid != s[s.len() - 1].pid);
            }
        } else {
            lemma_filter_distinct(rest, pred, a, b);
        }
    }
}

/// Every element of a filtered sequence occurs in the original.
proof fn lemma_filter_from_original(s: Seq<Process>, pred: spec_fn(Process) -> bool, a: int)
    requires
        0 <= a < s.filter(pred).len(),
    ensures
        exists|j: int| 0 <= j < s.len() && s[j] == s.filter(pred)[a],
    decreases s.len(),
{
    reveal(Seq::filter);
    if s.len() > 0 {
        let rest = s.drop_last();
        let f = s.filter(pred);
        if pred(s.last()) && a == f.len() - 1 {
            assert(s[s.len() - 1] == f[a]);
        } else {
            lemma_filter_from_original(rest, pred, a);
            let j = choose|j: int| 0 <= j < rest.len() && rest[j] == rest.filter(pred)[a];
            assert(s[j] == f[a]);
        }
    }
}

/// Voluntary yield of the CPU by the current process: hands control to
/// the scheduler, which rotates its run queue; no capability is required
/// and no other state moves.
pub fn yield_now(sched: &mut Scheduler)
    ensures
        old(sched).queue@.len() == 0 ==> final(sched).queue@ == old(sched).queue@,
        old(sched).queue@.len() > 0
            ==> final(sched).queue@ =~= old(sched).queue@.drop_first().push(
                old(sched).queue@[0]),
{
    scheduler::yield_current(sched);
}

/// Enforce a capability for the currently executing process: succeeds
/// exactly when the capability is in the current process's table at call
/// time; fails closed with `CapabilityDenied` otherwise (including when no
/// record of the current process exists).
pub fn require_current(tbl: &ProcessTable, cap: Capability) -> (r: Result<(), KernelError>)
    requires
        tbl.wf(),
    ensures
        r is Ok <==> tbl.has_pid(tbl.current)
            && tbl.proc_of(tbl.current).capabilities.spec_has(cap),
        r is Err ==> r->Err_0 == KernelError::CapabilityDenied,
{
    match tbl.caps_of(tbl.current_pid()) {
        Some(caps) => caps.require(cap),
        None => Err(KernelError::CapabilityDenied),
    }
}

} // verus!
