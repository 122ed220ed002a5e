//! Scheduler interface: the minimal round-robin hooks the kernel calls.
//! The kernel provides mechanism only; scheduling policy lives outside.

use vstd::prelude::*;
use crate::process::Pid;

verus! {

/// The scheduler's run queue of ready processes, front first.
pub struct Scheduler {
    /// Ready processes in dispatch order.
    pub queue: Vec<Pid>,
}

/// Initialize scheduler state: an empty run queue.
pub fn init() -> (s: Scheduler)
    ensures
        s.queue@ =~= Seq::<Pid>::empty(),
{
    Scheduler { queue: Vec::new() }
}

/// Enqueue a process at the back of the run queue.
pub fn enqueue(s: &mut Scheduler, pid: Pid)
    ensures
        final(s).queue@ =~= old(s).queue@.push(pid),
{
    s.queue.push(pid);
}

/// Scheduler tick: pick the process at the front of the run queue and
/// rotate it to the back (round robin). Returns the picked process, or
/// nothing when the queue is empty.
pub fn tick(s: &mut Scheduler) -> (r: Option<Pid>)
    ensures
        old(s).queue@.len() == 0 ==> r is None && final(s).queue@ == old(s).queue@,
        old(s).queue@.len() > 0 ==> {
            &&& r == Some(old(s).queue@[0])
            &&& final(s).queue@ =~= old(s).queue@.drop_first().push(old(s).queue@[0])
        },
{
    if s.queue.len() == 0 {
        return None;
    }
    let front = s.queue.remove(0);
    s.queue.push(front);
    Some(front)
}

/// Voluntary yield of the currently dispatched process: rotate the front
/// of the run queue to the back without picking anyone.
pub fn yield_current(s: &mut Scheduler)
    ensures
        old(s).queue@.len() == 0 ==> final(s).queue@ == old(s).queue@,
        old(s).queue@.len() > 0
            ==> final(s).queue@ =~= old(s).queue@.drop_first().push(old(s).queue@[0]),
{
    if s.queue.len() > 0 {
        let front = s.queue.remove(0);
        s.queue.push(front);
    }
}

/// Remove every occurrence of `pid` from the run queue; used when a
/// process terminates so the scheduler never dispatches a dead process.
pub fn remove(s: &mut Scheduler, pid: Pid)
    ensures
        final(s).queue@ =~= old(s).queue@.filter(|p: Pid| p != pid),
{
    let ghost orig = s.queue@;
    let mut kept: Vec<Pid> = Vec::new();
    let mut i: usize = 0;
    while i < s.queue.len()
        invariant
            i <= s.queue@.len(),
            s.queue@ == orig,
            kept@ =~= orig.take(i as int).filter(|p: Pid| p != pid),
        decreases s.queue@.len() - i,
    {
        let p = s.queue[i];
        proof {
            assert(orig.take(i + 1 as int) =~= orig.take(i as int).push(orig[i as int]));
            orig.take(i as int).lemma_filter_push(orig[i as int], |q: Pid| q != pid);
        }
        if p != pid {
            kept.push(p);
        }
        i = i + 1;
    }
    proof {
        assert(orig.take(orig.len() as int) =~= orig);
    }
    s.queue = kept;
}

} // verus!
