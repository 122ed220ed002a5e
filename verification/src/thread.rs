//! Kernel threads: scheduling units inside a process, carrying no
//! authority of their own. The thread table allocates identifiers and
//! tracks lifecycle state only.

use vstd::prelude::*;
use crate::KernelError;
use crate::process::Pid;

verus! {

/// Thread identifier.
pub type Tid = u32;

/// Lifecycle states of a kernel thread.
#[derive(Copy, Clone, Debug, PartialEq, Eq, Structural)]
pub enum ThreadState {
    /// Created but not yet runnable.
    New,
    /// Eligible to be scheduled.
    Runnable,
    /// Currently executing.
    Running,
    /// Suspended.
    Blocked,
    /// Finished; awaits cleanup.
    Terminated,
}

/// Kernel thread descriptor.
#[derive(Copy, Clone, Debug, PartialEq, Eq, Structural)]
pub struct Thread {
    /// Unique identifier of this thread.
    pub tid: Tid,
    /// The process this thread belongs to.
    pub pid: Pid,
    /// Current lifecycle state.
    pub state: ThreadState,
}

/// The kernel's table of threads, with its TID allocator.
pub struct ThreadTable {
    /// All registered threads.
    pub threads: Vec<Thread>,
    /// Next TID to hand out; all existing TIDs are below it.
    pub next_tid: Tid,
}

impl ThreadTable {
    /// Well-formedness: TIDs are unique and below the allocator's next
    /// value.
    pub open spec fn wf(self) -> bool {
        &&& forall|i: int, j: int| 0 <= i < j < self.threads@.len()
                ==> (#[trigger] self.threads@[i]).tid != (#[trigger] self.threads@[j]).tid
        &&& forall|i: int| 0 <= i < self.threads@.len()
                ==> (#[trigger] self.threads@[i]).tid < self.next_tid
    }
}

/// Initialize the thread subsystem: an empty thread table.
pub fn init() -> (t: ThreadTable)
    ensures
        t.wf(),
        t.threads@ =~= Seq::<Thread>::empty(),
{
    ThreadTable { threads: Vec::new(), next_tid: 0 }
}

/// Create a new thread within process `pid`: allocates a fresh TID and
/// registers the thread in the New state.
pub fn create(tbl: &mut ThreadTable, pid: Pid) -> (r: Result<Tid, KernelError>)
    requires
        old(tbl).wf(),
    ensures
        final(tbl).wf(),
        old(tbl).next_tid == u32::MAX ==> {
            &&& r == Err::<Tid, KernelError>(KernelError::ResourceExhausted)
            &&& final(tbl).threads@ == old(tbl).threads@
        },
        old(tbl).next_tid < u32::MAX ==> {
            &&& r == Ok::<Tid, KernelError>(old(tbl).next_tid)
            &&& final(tbl).threads@ =~= old(tbl).threads@.push(Thread {
                    tid: old(tbl).next_tid,
                    pid,
                    state: ThreadState::New,
                })
            &&& final(tbl).next_tid == old(tbl).next_tid + 1
        },
{
    if tbl.next_tid == u32::MAX {
        return Err(KernelError::ResourceExhausted);
    }
    let tid = tbl.next_tid;
    tbl.threads.push(Thread { tid, pid, state: ThreadState::New });
    tbl.next_tid = tbl.next_tid + 1;
    Ok(tid)
}

/// Terminate thread `tid`: its state becomes Terminated; every other
/// thread is untouched. A TID with no record is a no-op.
pub fn terminate(tbl: &mut ThreadTable, tid: Tid)
    requires
        old(tbl).wf(),
    ensures
        final(tbl).wf(),
        final(tbl).next_tid == old(tbl).next_tid,
        final(tbl).threads@.len() == old(tbl).threads@.len(),
        forall|i: int| 0 <= i < old(tbl).threads@.len()
            ==> final(tbl).threads@[i] == (if (#[trigger] old(tbl).threads@[i]).tid == tid {
                Thread { state: ThreadState::Terminated, ..old(tbl).threads@[i] }
            } else {
                old(tbl).threads@[i]
            }),
{
    let n = tbl.threads.len();
    let mut i: usize = 0;
    while i < n
        invariant
            i <= n,
            n == tbl.threads@.len(),
            tbl.threads@.len() == old(tbl).threads@.len(),
            tbl.next_tid == old(tbl).next_tid,
            forall|j: int| i <= j < n ==> tbl.threads@[j] == old(tbl).threads@[j],
            forall|j: int| 0 <= j < i
                ==> tbl.threads@[j] == (if (#[trigger] old(tbl).threads@[j]).tid == tid {
                    Thread { state: ThreadState::Terminated, ..old(tbl).threads@[j] }
                } else {
                    old(tbl).threads@[j]
                }),
        decreases n - i,
    {
        let t = tbl.threads[i];
        if t.tid == tid {
            tbl.threads[i] = Thread { state: ThreadState::Terminated, ..t };
        }
        i = i + 1;
    }
    proof {
        assert forall|a: int| 0 <= a < tbl.threads@.len()
            implies (#[trigger] tbl.threads@[a]).tid == old(tbl).threads@[a].tid
                && tbl.threads@[a].tid < tbl.next_tid by {
            assert(old(tbl).threads@[a].tid < old(tbl).next_tid);
        }
        assert forall|a: int, b: int| 0 <= a < b < tbl.threads@.len()
            implies (#[trigger] tbl.threads@[a]).tid != (#[trigger] tbl.threads@[b]).tid by {
            assert(old(tbl).threads@[a].tid != old(tbl).threads@[b].tid);
        }
    }
}

} // verus!
