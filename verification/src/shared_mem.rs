//! Shared memory regions: explicitly negotiated, capability-gated sharing.
//! A region holds a unique identifier, an owner, a size, and two bounded
//! access lists. This component decides authorization only; the actual
//! address-space wiring belongs to the memory manager collaborator.

use vstd::prelude::*;
use crate::KernelError;
use crate::capability::{Capability, CapabilityTable};
use crate::process::Pid;

verus! {

/// Shared memory region identifier.
pub type SharedMemId = usize;

/// Fixed capacity of each access list (readers, writers).
pub const MAX_ACCESS_ENTRIES: usize = 8;

/// A kernel-owned shared memory region descriptor.
pub struct SharedMemRegion {
    /// Globally unique region identifier, handed out by the kernel's
    /// collision-free allocator.
    pub id: SharedMemId,
    /// The process that created and owns the region.
    pub owner: Pid,
    /// Size of the region in bytes.
    pub size: usize,
    /// Processes granted read access.
    pub readers: Vec<Pid>,
    /// Processes granted write access.
    pub writers: Vec<Pid>,
}

impl SharedMemRegion {
    /// Well-formedness: both access lists respect their fixed capacity and
    /// hold no duplicate entries.
    pub open spec fn wf(self) -> bool {
        &&& self.readers@.len() <= MAX_ACCESS_ENTRIES
        &&& self.writers@.len() <= MAX_ACCESS_ENTRIES
        &&& forall|i: int, j: int| 0 <= i < j < self.readers@.len()
                ==> self.readers@[i] != self.readers@[j]
        &&& forall|i: int, j: int| 0 <= i < j < self.writers@.len()
                ==> self.writers@[i] != self.writers@[j]
    }

    /// Is `pid` authorized to map this region? The owner always is; any
    /// other process must stand in an access list.
    pub open spec fn authorized(self, pid: Pid) -> bool {
        pid == self.owner || self.readers@.contains(pid) || self.writers@.contains(pid)
    }

    /// Create a new shared memory region. Requires the share capability;
    /// on success the region starts with empty access lists, so only the
    /// owner may map it until grants are made. The identifier must come
    /// from the kernel's collision-free allocator.
    pub fn new(
        caps: &CapabilityTable,
        id: SharedMemId,
        owner: Pid,
        size: usize,
    ) -> (r: Result<Self, KernelError>)
        ensures
            !caps.spec_has(Capability::MemShare)
                ==> r == Err::<Self, KernelError>(KernelError::CapabilityDenied),
            caps.spec_has(Capability::MemShare) ==> r is Ok && {
                let region = r->Ok_0;
                &&& region.wf()
                &&& region.id == id
                &&& region.owner == owner
                &&& region.size == size
                &&& region.readers@ =~= Seq::<Pid>::empty()
                &&& region.writers@ =~= Seq::<Pid>::empty()
            },
    {
        if let Err(e) = caps.require(Capability::MemShare) {
            return Err(e);
        }
        Ok(SharedMemRegion { id, owner, size, readers: Vec::new(), writers: Vec::new() })
    }

    /// Grant read access to `pid`. Requires the share capability. Adding
    /// beyond the fixed capacity is an explicit `SizeExceeded` error and
    /// the existing entries are left unchanged — nothing is silently
    /// dropped. Granting to a process already on the list changes nothing.
    pub fn grant_read(&mut self, caps: &CapabilityTable, pid: Pid) -> (r: Result<(), KernelError>)
        requires
            old(self).wf(),
        ensures
            final(self).wf(),
            final(self).id == old(self).id,
            final(self).owner == old(self).owner,
            final(self).size == old(self).size,
            final(self).writers@ == old(self).writers@,
            !caps.spec_has(Capability::MemShare) ==> {
                &&& r == Err::<(), KernelError>(KernelError::CapabilityDenied)
                &&& final(self).readers@ == old(self).readers@
            },
            caps.spec_has(Capability::MemShare) && old(self).readers@.contains(pid) ==> {
                &&& r == Ok::<(), KernelError>(())
                &&& final(self).readers@ == old(self).readers@
            },
            caps.spec_has(Capability::MemShare) && !old(self).readers@.contains(pid)
                && old(self).readers@.len() >= MAX_ACCESS_ENTRIES ==> {
                &&& r == Err::<(), KernelError>(KernelError::SizeExceeded)
                &&& final(self).readers@ == old(self).readers@
            },
            caps.spec_has(Capability::MemShare) && !old(self).readers@.contains(pid)
                && old(self).readers@.len() < MAX_ACCESS_ENTRIES ==> {
                &&& r == Ok::<(), KernelError>(())
                &&& final(self).readers@ =~= old(self).readers@.push(pid)
            },
    {
        if let Err(e) = caps.require(Capability::MemShare) {
            return Err(e);
        }
        if contains_pid(&self.readers, pid) {
            return Ok(());
        }
        if self.readers.len() >= MAX_ACCESS_ENTRIES {
            return Err(KernelError::SizeExceeded);
        }
        self.readers.push(pid);
        Ok(())
    }

    /// Grant write access to `pid`. Same discipline as `grant_read`:
    /// capability-gated, bounded, and never silently dropping an entry.
    pub fn grant_write(&mut self, caps: &CapabilityTable, pid: Pid) -> (r: Result<(), KernelError>)
        requires
            old(self).wf(),
        ensures
            final(self).wf(),
            final(self).id == old(self).id,
            final(self).owner == old(self).owner,
            final(self).size == old(self).size,
            final(self).readers@ == old(self).readers@,
            !caps.spec_has(Capability::MemShare) ==> {
                &&& r == Err::<(), KernelError>(KernelError::CapabilityDenied)
                &&& final(self).writers@ == old(self).writers@
            },
            caps.spec_has(Capability::MemShare) && old(self).writers@.contains(pid) ==> {
                &&& r == Ok::<(), KernelError>(())
                &&& final(self).writers@ == old(self).writers@
            },
            caps.spec_has(Capability::MemShare) && !old(self).writers@.contains(pid)
                && old(self).writers@.len() >= MAX_ACCESS_ENTRIES ==> {
                &&& r == Err::<(), KernelError>(KernelError::SizeExceeded)
                &&& final(self).writers@ == old(self).writers@
            },
            caps.spec_has(Capability::MemShare) && !old(self).writers@.contains(pid)
                && old(self).writers@.len() < MAX_ACCESS_ENTRIES ==> {
                &&& r == Ok::<(), KernelError>(())
                &&& final(self).writers@ =~= old(self).writers@.push(pid)
            },
    {
        if let Err(e) = caps.require(Capability::MemShare) {
            return Err(e);
        }
        if contains_pid(&self.writers, pid) {
            return Ok(());
        }
        if self.writers.len() >= MAX_ACCESS_ENTRIES {
            return Err(KernelError::SizeExceeded);
        }
        self.writers.push(pid);
        Ok(())
    }

    /// Decide whether `caller` may map this region: succeeds exactly when
    /// the caller is the owner or stands in either access list; everyone
    /// else receives a denial and no mapping. The address-space wiring
    /// itself is the memory manager's job.
    pub fn map(&self, caller: Pid) -> (r: Result<(), KernelError>)
        ensures
            r is Ok <==> self.authorized(caller),
            r is Err ==> r->Err_0 == KernelError::CapabilityDenied,
    {
        if caller == self.owner
            || contains_pid(&self.readers, caller)
            || contains_pid(&self.writers, caller)
        {
            Ok(())
        } else {
            Err(KernelError::CapabilityDenied)
        }
    }

    /// Revoke the region: requires the share capability; atomically clears
    /// both access lists, so every previously granted process loses its
    /// authorization at once and must be granted again before it can map.
    pub fn revoke(&mut self, caps: &CapabilityTable) -> (r: Result<(), KernelError>)
        requires
            old(self).wf(),
        ensures
            final(self).wf(),
            final(self).id == old(self).id,
            final(self).owner == old(self).owner,
            final(self).size == old(self).size,
            !caps.spec_has(Capability::MemShare) ==> {
                &&& r == Err::<(), KernelError>(KernelError::CapabilityDenied)
                &&& final(self).readers@ == old(self).readers@
                &&& final(self).writers@ == old(self).writers@
            },
            caps.spec_has(Capability::MemShare) ==> {
                &&& r == Ok::<(), KernelError>(())
                &&& final(self).readers@ =~= Seq::<Pid>::empty()
                &&& final(self).writers@ =~= Seq::<Pid>::empty()
            },
    {
        if let Err(e) = caps.require(Capability::MemShare) {
            return Err(e);
        }
        self.readers = Vec::new();
        self.writers = Vec::new();
        Ok(())
    }
}

/// Linear scan: is `pid` one of the entries of `list`?
fn contains_pid(list: &Vec<Pid>, pid: Pid) -> (r: bool)
    ensures
        r == list@.contains(pid),
{
    let mut i: usize = 0;
    while i < list.len()
        invariant
            i <= list@.len(),
            forall|j: int| 0 <= j < i ==> list@[j] != pid,
        decreases list@.len() - i,
    {
        if list[i] == pid {
            assert(list@.contains(pid));
            return true;
        }
        i = i + 1;
    }
    assert(!list@.contains(pid));
    false
}

/// After a revoke has cleared the access lists, no process other than the
/// owner is authorized to map the region — in particular every process
/// that was granted access before the revoke has lost it, and stays
/// unauthorized until granted again.
pub proof fn lemma_revoke_bars_previous_holders(region: SharedMemRegion, pid: Pid)
    requires
        region.readers@.len() == 0,
        region.writers@.len() == 0,
        pid != region.owner,
    ensures
        !region.authorized(pid),
{
}

} // verus!
