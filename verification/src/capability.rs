//! Capability enforcement: the closed capability enumeration and the
//! per-process capability table. All authority in the kernel is expressed
//! through these unforgeable tokens; free-text capability names never exist.

use vstd::prelude::*;
use crate::KernelError;

verus! {

/// The closed catalog of capabilities. Being an enumeration, a capability
/// is unforgeable by construction and membership tests are constant time.
#[derive(Copy, Clone, Debug, PartialEq, Eq, Structural)]
pub enum Capability {
    /// Authority to spawn a new process.
    ProcSpawn,
    /// Authority to kill a process.
    ProcKill,
    /// Authority to send on IPC queues and write to pipes.
    IpcSend,
    /// Authority to receive on IPC queues and read from pipes.
    IpcRecv,
    /// Authority to allocate virtual memory.
    MemAlloc,
    /// Authority to create, grant, share and revoke shared memory.
    MemShare,
}

/// Per-process authority store: the set of capabilities a process holds.
/// Owned exclusively by one process; mutated only through `grant` and
/// `revoke`.
#[derive(Copy, Clone, Debug, PartialEq, Eq, Structural)]
pub struct CapabilityTable {
    proc_spawn: bool,
    proc_kill: bool,
    ipc_send: bool,
    ipc_recv: bool,
    mem_alloc: bool,
    mem_share: bool,
}

impl CapabilityTable {
    /// The set this table denotes: whether capability `c` is granted.
    pub closed spec fn spec_has(self, c: Capability) -> bool {
        match c {
            Capability::ProcSpawn => self.proc_spawn,
            Capability::ProcKill => self.proc_kill,
            Capability::IpcSend => self.ipc_send,
            Capability::IpcRecv => self.ipc_recv,
            Capability::MemAlloc => self.mem_alloc,
            Capability::MemShare => self.mem_share,
        }
    }

    /// Create an empty capability table: no authority at all.
    pub fn new() -> (t: Self)
        ensures
            forall|c: Capability| !t.spec_has(c),
    {
        CapabilityTable {
            proc_spawn: false,
            proc_kill: false,
            ipc_send: false,
            ipc_recv: false,
            mem_alloc: false,
            mem_share: false,
        }
    }

    /// Pure membership query: does this table hold `c`? No side effect.
    pub fn has(&self, c: Capability) -> (r: bool)
        ensures
            r == self.spec_has(c),
    {
        match c {
            Capability::ProcSpawn => self.proc_spawn,
            Capability::ProcKill => self.proc_kill,
            Capability::IpcSend => self.ipc_send,
            Capability::IpcRecv => self.ipc_recv,
            Capability::MemAlloc => self.mem_alloc,
            Capability::MemShare => self.mem_share,
        }
    }

    /// Grant capability `c`; every other capability is untouched.
    pub fn grant(&mut self, c: Capability)
        ensures
            forall|d: Capability|
                final(self).spec_has(d) == (d == c || old(self).spec_has(d)),
    {
        match c {
            Capability::ProcSpawn => self.proc_spawn = true,
            Capability::ProcKill => self.proc_kill = true,
            Capability::IpcSend => self.ipc_send = true,
            Capability::IpcRecv => self.ipc_recv = true,
            Capability::MemAlloc => self.mem_alloc = true,
            Capability::MemShare => self.mem_share = true,
        }
    }

    /// Revoke capability `c`; every other capability is untouched.
    pub fn revoke(&mut self, c: Capability)
        ensures
            forall|d: Capability|
                final(self).spec_has(d) == (d != c && old(self).spec_has(d)),
    {
        match c {
            Capability::ProcSpawn => self.proc_spawn = false,
            Capability::ProcKill => self.proc_kill = false,
            Capability::IpcSend => self.ipc_send = false,
            Capability::IpcRecv => self.ipc_recv = false,
            Capability::MemAlloc => self.mem_alloc = false,
            Capability::MemShare => self.mem_share = false,
        }
    }

    /// Enforce that this table holds `c`: the door every capability-checked
    /// operation passes. Succeeds exactly when `c` is granted; a
    /// denial carries `CapabilityDenied` and the caller must not proceed.
    pub fn require(&self, c: Capability) -> (r: Result<(), KernelError>)
        ensures
            r is Ok <==> self.spec_has(c),
            r is Err ==> r->Err_0 == KernelError::CapabilityDenied,
    {
        if self.has(c) {
            Ok(())
        } else {
            Err(KernelError::CapabilityDenied)
        }
    }
}

} // verus!
