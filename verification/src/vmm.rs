//! Virtual memory manager interface: the kernel-owned allocation ledger.
//! Page tables and address-space wiring are external collaborators; this
//! component tracks, capability-gates, and revokes what each process has
//! been granted, and answers usage queries.

use vstd::prelude::*;
use crate::KernelError;
use crate::capability::{Capability, CapabilityTable};
use crate::process::Pid;
use crate::shared_mem::{SharedMemRegion, SharedMemId, MAX_ACCESS_ENTRIES};

verus! {

/// Total bytes of memory the manager will ever hand out.
pub const MAX_TOTAL_MEMORY: usize = 0x4000_0000;

/// One granted allocation: which process holds how many bytes.
#[derive(Copy, Clone, Debug, PartialEq, Eq, Structural)]
pub struct Allocation {
    /// The process the memory was granted to.
    pub pid: Pid,
    /// Number of bytes granted.
    pub size: usize,
}

/// Total size of a ledger of allocations.
pub open spec fn sum_sizes(s: Seq<Allocation>) -> int
    decreases s.len(),
{
    if s.len() == 0 {
        0
    } else {
        sum_sizes(s.drop_last()) + s.last().size
    }
}

/// Total size of the allocations a single process holds.
pub open spec fn sum_for(s: Seq<Allocation>, pid: Pid) -> int
    decreases s.len(),
{
    if s.len() == 0 {
        0
    } else {
        sum_for(s.drop_last(), pid) + if s.last().pid == pid { s.last().size as int } else { 0 }
    }
}

/// The virtual memory manager's ledger.
pub struct Vmm {
    /// Every outstanding allocation.
    pub allocations: Vec<Allocation>,
    /// Cached total of all outstanding allocation sizes.
    pub total: usize,
}

impl Vmm {
    /// Well-formedness: the cached total is the ledger's sum and respects
    /// the global bound.
    pub open spec fn wf(self) -> bool {
        &&& self.total == sum_sizes(self.allocations@)
        &&& self.total <= MAX_TOTAL_MEMORY
    }
}

/// The sum so far never goes negative.
proof fn lemma_sum_nonneg(s: Seq<Allocation>)
    ensures
        sum_sizes(s) >= 0,
        forall|pid: Pid| #[trigger] sum_for(s, pid) >= 0,
    decreases s.len(),
{
    if s.len() > 0 {
        lemma_sum_nonneg(s.drop_last());
        assert forall|pid: Pid| #[trigger] sum_for(s, pid) >= 0 by {
            assert(sum_for(s.drop_last(), pid) >= 0);
        }
    }
}

/// Extending a ledger by one entry adds exactly that entry's size.
proof fn lemma_sum_push(s: Seq<Allocation>, a: Allocation)
    ensures
        sum_sizes(s.push(a)) == sum_sizes(s) + a.size,
        forall|pid: Pid| #[trigger] sum_for(s.push(a), pid)
            == sum_for(s, pid) + if a.pid == pid { a.size as int } else { 0 },
{
    assert(s.push(a).drop_last() =~= s);
}

/// A prefix of the ledger never sums to more than the whole, and one
/// process's share of a prefix never exceeds the prefix's sum.
proof fn lemma_sum_take_bounds(s: Seq<Allocation>, i: int, pid: Pid)
    requires
        0 <= i <= s.len(),
    ensures
        sum_for(s.take(i), pid) <= sum_sizes(s.take(i)),
        sum_sizes(s.take(i)) <= sum_sizes(s),
    decreases s.len() - i,
{
    if i == s.len() {
        assert(s.take(i) =~= s);
        lemma_sum_prefix_le(s, i, pid);
    } else {
        assert(s.take(i + 1) =~= s.take(i).push(s[i]));
        lemma_sum_push(s.take(i), s[i]);
        lemma_sum_take_bounds(s, i + 1, pid);
        lemma_sum_prefix_le(s, i, pid);
    }
}

/// Within one prefix, one process's share is at most the prefix's sum.
proof fn lemma_sum_prefix_le(s: Seq<Allocation>, i: int, pid: Pid)
    requires
        0 <= i <= s.len(),
    ensures
        sum_for(s.take(i), pid) <= sum_sizes(s.take(i)),
    decreases i,
{
    if i > 0 {
        assert(s.take(i) =~= s.take(i - 1).push(s[i - 1]));
        lemma_sum_push(s.take(i - 1), s[i - 1]);
        lemma_sum_prefix_le(s, i - 1, pid);
    }
}

/// Initialize the virtual memory manager with an empty ledger.
pub fn init() -> (m: Vmm)
    ensures
        m.wf(),
        m.allocations@ =~= Seq::<Allocation>::empty(),
        m.total == 0,
{
    Vmm { allocations: Vec::new(), total: 0 }
}

/// Allocate `size` bytes of virtual memory for process `pid`. Requires
/// the allocation capability; a request that would push the outstanding
/// total past the global bound is refused with `ResourceExhausted` and
/// the ledger is unchanged. On success the grant is recorded and the
/// granted size returned.
pub fn allocate(m: &mut Vmm, caps: &CapabilityTable, pid: Pid, size: usize)
    -> (r: Result<usize, KernelError>)
    requires
        old(m).wf(),
    ensures
        final(m).wf(),
        !caps.spec_has(Capability::MemAlloc) ==> {
            &&& r == Err::<usize, KernelError>(KernelError::CapabilityDenied)
            &&& *final(m) == *old(m)
        },
        caps.spec_has(Capability::MemAlloc)
            && old(m).total + size > MAX_TOTAL_MEMORY ==> {
            &&& r == Err::<usize, KernelError>(KernelError::ResourceExhausted)
            &&& *final(m) == *old(m)
        },
        caps.spec_has(Capability::MemAlloc)
            && old(m).total + size <= MAX_TOTAL_MEMORY ==> {
            &&& r == Ok::<usize, KernelError>(size)
            &&& final(m).allocations@ =~= old(m).allocations@.push(Allocation { pid, size })
            &&& final(m).total == old(m).total + size
        },
{
    if let Err(e) = caps.require(Capability::MemAlloc) {
        return Err(e);
    }
    if size > MAX_TOTAL_MEMORY - m.total {
        return Err(KernelError::ResourceExhausted);
    }
    proof {
        lemma_sum_push(m.allocations@, Allocation { pid, size });
    }
    m.allocations.push(Allocation { pid, size });
    m.total = m.total + size;
    Ok(size)
}

/// How many bytes of virtual memory process `pid` currently holds.
pub fn usage(m: &Vmm, pid: Pid) -> (r: usize)
    requires
        m.wf(),
    ensures
        r == sum_for(m.allocations@, pid),
{
    let mut acc: usize = 0;
    let mut i: usize = 0;
    while i < m.allocations.len()
        invariant
            i <= m.allocations@.len(),
            m.wf(),
            acc == sum_for(m.allocations@.take(i as int), pid),
            acc <= m.total,
        decreases m.allocations@.len() - i,
    {
        let a = m.allocations[i];
        proof {
            assert(m.allocations@.take(i + 1) =~= m.allocations@.take(i as int).push(
                m.allocations@[i as int]));
            lemma_sum_push(m.allocations@.take(i as int), m.allocations@[i as int]);
            lemma_sum_take_bounds(m.allocations@, i + 1, pid);
            lemma_sum_nonneg(m.allocations@.take(i + 1));
        }
        if a.pid == pid {
            acc = acc + a.size;
        }
        i = i + 1;
    }
    proof {
        assert(m.allocations@.take(m.allocations@.len() as int) =~= m.allocations@);
    }
    acc
}

/// Revoke all memory belonging to process `pid`: every allocation it held
/// leaves the ledger (used at kill and at fault termination); everyone
/// else's allocations survive, in order.
pub fn revoke_process(m: &mut Vmm, pid: Pid)
    requires
        old(m).wf(),
    ensures
        final(m).wf(),
        final(m).allocations@ =~= old(m).allocations@.filter(|a: Allocation| a.pid != pid),
        sum_for(final(m).allocations@, pid) == 0,
{
    let ghost orig = m.allocations@;
    let mut kept: Vec<Allocation> = Vec::new();
    let mut new_total: usize = 0;
    let mut i: usize = 0;
    while i < m.allocations.len()
        invariant
            i <= m.allocations@.len(),
            m.allocations@ == orig,
            m.wf(),
            kept@ =~= orig.take(i as int).filter(|a: Allocation| a.pid != pid),
            new_total == sum_sizes(kept@),
            sum_sizes(kept@) <= sum_sizes(orig.take(i as int)),
            sum_for(kept@, pid) == 0,
        decreases m.allocations@.len() - i,
    {
        let a = m.allocations[i];
        proof {
            assert(orig.take(i + 1) =~= orig.take(i as int).push(orig[i as int]));
            orig.take(i as int).lemma_filter_push(orig[i as int], |a: Allocation| a.pid != pid);
            lemma_sum_push(orig.take(i as int), orig[i as int]);
            lemma_sum_push(kept@, orig[i as int]);
            lemma_sum_take_bounds(orig, i + 1, pid);
            lemma_sum_nonneg(orig.take(i + 1));
            lemma_sum_nonneg(kept@);
        }
        if a.pid != pid {
            kept.push(a);
            new_total = new_total + a.size;
        }
        i = i + 1;
    }
    proof {
        assert(orig.take(orig.len() as int) =~= orig);
    }
    m.allocations = kept;
    m.total = new_total;
}

/// Share an existing region with another process: requires the share
/// capability, and the caller must own the region it names. The target is
/// granted read access, exactly as `grant_read` describes (including the
/// explicit capacity error). A region id the caller does not own fails
/// closed with `CapabilityDenied` and no region changes.
pub fn share(
    regions: &mut Vec<SharedMemRegion>,
    caps: &CapabilityTable,
    caller: Pid,
    region_id: SharedMemId,
    target: Pid,
) -> (r: Result<(), KernelError>)
    requires
        forall|k: int| 0 <= k < old(regions)@.len() ==> (#[trigger] old(regions)@[k]).wf(),
        forall|k1: int, k2: int| 0 <= k1 < k2 < old(regions)@.len()
            ==> (#[trigger] old(regions)@[k1]).id != (#[trigger] old(regions)@[k2]).id,
    ensures
        final(regions)@.len() == old(regions)@.len(),
        forall|k1: int, k2: int| 0 <= k1 < k2 < final(regions)@.len()
            ==> (#[trigger] final(regions)@[k1]).id != (#[trigger] final(regions)@[k2]).id,
        forall|k: int| 0 <= k < final(regions)@.len() ==> (#[trigger] final(regions)@[k]).wf(),
        !caps.spec_has(Capability::MemShare) ==> {
            &&& r == Err::<(), KernelError>(KernelError::CapabilityDenied)
            &&& *final(regions) == *old(regions)
        },
        caps.spec_has(Capability::MemShare)
            && (forall|k: int| 0 <= k < old(regions)@.len()
                ==> !((#[trigger] old(regions)@[k]).id == region_id
                        && old(regions)@[k].owner == caller)) ==> {
            &&& r == Err::<(), KernelError>(KernelError::CapabilityDenied)
            &&& final(regions)@ == old(regions)@
        },
        forall|k: int| 0 <= k < final(regions)@.len()
            && !((#[trigger] old(regions)@[k]).id == region_id
                    && old(regions)@[k].owner == caller)
            ==> final(regions)@[k] == old(regions)@[k],
        caps.spec_has(Capability::MemShare) ==> forall|k: int|
            0 <= k < final(regions)@.len()
                && (#[trigger] old(regions)@[k]).id == region_id
                && old(regions)@[k].owner == caller
                ==> {
                let before = old(regions)@[k];
                let after = final(regions)@[k];
                &&& after.id == before.id
                &&& after.owner == before.owner
                &&& after.size == before.size
                &&& after.writers@ == before.writers@
                &&& (before.readers@.contains(target) ==> after.readers@ == before.readers@
                        && r == Ok::<(), KernelError>(()))
                &&& (!before.readers@.contains(target)
                        && before.readers@.len() >= MAX_ACCESS_ENTRIES
                        ==> after.readers@ == before.readers@
                            && r == Err::<(), KernelError>(KernelError::SizeExceeded))
                &&& (!before.readers@.contains(target)
                        && before.readers@.len() < MAX_ACCESS_ENTRIES
                        ==> after.readers@ =~= before.readers@.push(target)
                            && r == Ok::<(), KernelError>(()))
            },
{
    if let Err(e) = caps.require(Capability::MemShare) {
        return Err(e);
    }
    let mut i: usize = 0;
    while i < regions.len()
        invariant
            i <= regions@.len(),
            regions@ == old(regions)@,
            caps.spec_has(Capability::MemShare),
            forall|k: int| 0 <= k < i
                ==> !((#[trigger] regions@[k]).id == region_id && regions@[k].owner == caller),
            forall|k: int| 0 <= k < regions@.len() ==> (#[trigger] regions@[k]).wf(),
            forall|k1: int, k2: int| 0 <= k1 < k2 < regions@.len()
                ==> (#[trigger] regions@[k1]).id != (#[trigger] regions@[k2]).id,
        decreases regions@.len() - i,
    {
        let found = regions[i].id == region_id && regions[i].owner == caller;
        if found {
            let ghost before_all = regions@;
            let mut region = regions.remove(i);
            let res = region.grant_read(caps, target);
            regions.insert(i, region);
            proof {
                assert(regions@ =~= before_all.update(i as int, region));
                assert forall|k: int| 0 <= k < regions@.len()
                    implies (#[trigger] regions@[k]).id == before_all[k].id by {}
            }
            return res;
        }
        i = i + 1;
    }
    Err(KernelError::CapabilityDenied)
}

} // verus!
