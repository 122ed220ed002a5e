//! Tests of the kernel state, the process lifecycle, and the syscall
//! dispatcher, including the blocking and cancellation scenarios.

use superos::{KernelError, RESULT_ERR};
use superos::capability::{Capability, CapabilityTable};
use superos::kernel::Kernel;
use superos::process::{BlockReason, Pid, Process, ProcessState};
use superos::syscall::{Syscall, SyscallFrame, syscall_entry};
use superos::{paging, scheduler, thread, vmm};

fn caps_with(list: &[Capability]) -> CapabilityTable {
    let mut t = CapabilityTable::new();
    for c in list {
        t.grant(*c);
    }
    t
}

fn add_process(k: &mut Kernel, pid: Pid, caps: CapabilityTable) {
    if k.procs.next_pid <= pid {
        k.procs.next_pid = pid + 1;
    }
    k.procs.procs.push(Process {
        pid,
        state: ProcessState::Ready,
        parent: Some(0),
        capabilities: caps,
        blocked_on: None,
        pending_result: None,
    });
}

fn frame(id: u32, arg0: usize, arg1: usize, arg2: usize) -> SyscallFrame {
    SyscallFrame { syscall_id: id, arg0, arg1, arg2, arg3: 0 }
}

#[test]
fn require_current_reflects_table_membership() {
    let root_caps = caps_with(&[Capability::IpcSend, Capability::MemAlloc]);
    let k = Kernel::init(root_caps);
    assert_eq!(
        superos::process::require_current(&k.procs, Capability::IpcSend),
        Ok(())
    );
    assert_eq!(
        superos::process::require_current(&k.procs, Capability::MemAlloc),
        Ok(())
    );
    assert_eq!(
        superos::process::require_current(&k.procs, Capability::ProcKill),
        Err(KernelError::CapabilityDenied)
    );
}

#[test]
fn capability_grant_and_revoke() {
    let mut t = CapabilityTable::new();
    assert!(!t.has(Capability::IpcSend));
    t.grant(Capability::IpcSend);
    assert!(t.has(Capability::IpcSend));
    assert!(!t.has(Capability::IpcRecv));
    t.revoke(Capability::IpcSend);
    assert!(!t.has(Capability::IpcSend));
}

#[test]
fn scenario_send_then_recv_then_block() {
    // Process A holds ipc-send; process B owns a queue and holds ipc-recv.
    let mut k = Kernel::init(CapabilityTable::new());
    add_process(&mut k, 1, caps_with(&[Capability::IpcSend]));
    add_process(&mut k, 2, caps_with(&[Capability::IpcRecv]));
    let qid = k.create_queue(2, 4);

    // A sends 10 bytes.
    k.procs.current = 1;
    let payload: Vec<u8> = vec![1, 2, 3, 4, 5, 6, 7, 8, 9, 10];
    assert_eq!(k.sys_send(qid, &payload, 10), 0);

    // B receives with room for 20 and gets exactly the original 10.
    k.procs.current = 2;
    let mut out: Vec<u8> = vec![0; 20];
    assert_eq!(k.sys_recv(qid, &mut out, 20), 10);
    assert_eq!(&out[0..10], &payload[0..10]);

    // A second recv on the now-empty queue blocks B.
    assert_eq!(k.sys_recv(qid, &mut out, 20), RESULT_ERR);
    let b = k.procs.procs.iter().find(|p| p.pid == 2).unwrap();
    assert_eq!(b.state, ProcessState::Blocked);
    assert_eq!(b.blocked_on, Some(BlockReason::QueueRecv(qid)));
}

#[test]
fn scenario_kill_wakes_blocked_call_with_error() {
    // Process C blocks inside recv; the root kills C; C's suspended call
    // completes with the failure word and C is Terminated, not hung.
    let mut k = Kernel::init(caps_with(&[Capability::ProcKill]));
    add_process(&mut k, 3, caps_with(&[Capability::IpcRecv]));
    let qid = k.create_queue(3, 4);

    k.procs.current = 3;
    let mut out: Vec<u8> = vec![0; 8];
    assert_eq!(k.sys_recv(qid, &mut out, 8), RESULT_ERR);
    let c = k.procs.procs.iter().find(|p| p.pid == 3).unwrap();
    assert_eq!(c.state, ProcessState::Blocked);

    k.procs.current = 0;
    assert_eq!(k.sys_kill(3), 0);
    let c = k.procs.procs.iter().find(|p| p.pid == 3).unwrap();
    assert_eq!(c.state, ProcessState::Terminated);
    assert_eq!(c.blocked_on, None);
    assert_eq!(c.pending_result, Some(RESULT_ERR));
}

#[test]
fn send_wakes_blocked_receiver() {
    let mut k = Kernel::init(CapabilityTable::new());
    add_process(&mut k, 1, caps_with(&[Capability::IpcSend]));
    add_process(&mut k, 2, caps_with(&[Capability::IpcRecv]));
    let qid = k.create_queue(2, 4);

    k.procs.current = 2;
    let mut out: Vec<u8> = vec![0; 4];
    assert_eq!(k.sys_recv(qid, &mut out, 4), RESULT_ERR);
    assert_eq!(
        k.procs.procs.iter().find(|p| p.pid == 2).unwrap().state,
        ProcessState::Blocked
    );

    // Counterpart activity: a send into the queue readies the receiver.
    k.procs.current = 1;
    assert_eq!(k.sys_send(qid, &[42], 1), 0);
    let b = k.procs.procs.iter().find(|p| p.pid == 2).unwrap();
    assert_eq!(b.state, ProcessState::Ready);
    assert_eq!(b.blocked_on, None);
}

#[test]
fn pipe_blocking_and_wake_through_kernel() {
    let mut k = Kernel::init(CapabilityTable::new());
    add_process(&mut k, 1, caps_with(&[Capability::IpcSend]));
    add_process(&mut k, 2, caps_with(&[Capability::IpcRecv]));
    let idx = k.create_pipe(2, 1);

    // Reading an empty pipe suspends the reader.
    k.procs.current = 2;
    let mut out: Vec<u8> = vec![0; 4];
    assert_eq!(k.pipe_read(idx, &mut out, 4), RESULT_ERR);
    let b = k.procs.procs.iter().find(|p| p.pid == 2).unwrap();
    assert_eq!(b.state, ProcessState::Blocked);
    assert_eq!(b.blocked_on, Some(BlockReason::PipeRead(idx)));

    // A write by the designated writer wakes it; a later read drains.
    k.procs.current = 1;
    assert_eq!(k.pipe_write(idx, &[7, 8], 2), 2);
    assert_eq!(
        k.procs.procs.iter().find(|p| p.pid == 2).unwrap().state,
        ProcessState::Ready
    );
    k.procs.current = 2;
    assert_eq!(k.pipe_read(idx, &mut out, 4), 2);
    assert_eq!(&out[0..2], &[7, 8]);
}

#[test]
fn pipe_identity_enforced_through_kernel() {
    let mut k = Kernel::init(CapabilityTable::new());
    add_process(&mut k, 1, caps_with(&[Capability::IpcSend]));
    add_process(&mut k, 2, caps_with(&[Capability::IpcSend]));
    let idx = k.create_pipe(5, 1);
    // Process 2 holds the send capability but is not the designated
    // writer: rejected, pipe untouched.
    k.procs.current = 2;
    assert_eq!(k.pipe_write(idx, &[1], 1), RESULT_ERR);
    k.procs.current = 1;
    assert_eq!(k.pipe_write(idx, &[1], 1), 1);
}

#[test]
fn spawn_registers_ready_child() {
    let mut k = Kernel::init(caps_with(&[Capability::ProcSpawn]));
    let r = k.sys_spawn();
    assert_eq!(r, 1);
    let child = k.procs.procs.iter().find(|p| p.pid == 1).unwrap();
    assert_eq!(child.state, ProcessState::Ready);
    assert_eq!(child.parent, Some(0));
    assert!(!child.capabilities.has(Capability::ProcSpawn));
    assert_eq!(k.sched.queue, vec![1]);
}

#[test]
fn spawn_without_capability_denied() {
    let mut k = Kernel::init(CapabilityTable::new());
    assert_eq!(k.sys_spawn(), RESULT_ERR);
    assert_eq!(k.procs.procs.len(), 1);
    assert!(k.sched.queue.is_empty());
}

#[test]
fn kill_without_capability_denied() {
    let mut k = Kernel::init(CapabilityTable::new());
    add_process(&mut k, 1, CapabilityTable::new());
    assert_eq!(k.sys_kill(1), RESULT_ERR);
    assert_eq!(
        k.procs.procs.iter().find(|p| p.pid == 1).unwrap().state,
        ProcessState::Ready
    );
}

#[test]
fn kill_revokes_memory_and_descheduling() {
    let mut k = Kernel::init(caps_with(&[Capability::ProcKill]));
    add_process(&mut k, 1, caps_with(&[Capability::MemAlloc]));
    scheduler::enqueue(&mut k.sched, 1);
    k.procs.current = 1;
    assert_eq!(k.sys_alloc(1024), 1024);
    assert_eq!(vmm::usage(&k.mem, 1), 1024);
    k.procs.current = 0;
    assert_eq!(k.sys_kill(1), 0);
    assert_eq!(vmm::usage(&k.mem, 1), 0);
    assert!(k.sched.queue.is_empty());
}

#[test]
fn reap_zombies_removes_only_terminated() {
    let mut k = Kernel::init(caps_with(&[Capability::ProcKill]));
    add_process(&mut k, 1, CapabilityTable::new());
    add_process(&mut k, 2, CapabilityTable::new());
    assert_eq!(k.sys_kill(1), 0);
    k.procs.reap_zombies();
    let pids: Vec<Pid> = k.procs.procs.iter().map(|p| p.pid).collect();
    assert_eq!(pids, vec![0, 2]);
}

#[test]
fn page_fault_terminates_offender() {
    let mut k = Kernel::init(CapabilityTable::new());
    add_process(&mut k, 1, caps_with(&[Capability::MemAlloc]));
    k.procs.current = 1;
    assert_eq!(k.sys_alloc(paging::PAGE_SIZE), paging::PAGE_SIZE);
    // No capability guards the fault path: termination is unconditional.
    paging::handle_page_fault(&mut k.procs, &mut k.mem, 1, 0xdead, 2);
    let p = k.procs.procs.iter().find(|p| p.pid == 1).unwrap();
    assert_eq!(p.state, ProcessState::Terminated);
    assert_eq!(vmm::usage(&k.mem, 1), 0);
}

#[test]
fn dispatcher_unknown_id_fails_closed() {
    let mut k = Kernel::init(caps_with(&[Capability::IpcSend]));
    let qid = k.create_queue(0, 2);
    let mut out: Vec<u8> = vec![0; 4];
    let r = syscall_entry(&mut k, &frame(99, qid, 0, 0), &[], &mut out);
    assert_eq!(r, RESULT_ERR);
    assert_eq!(k.queues[qid].messages.len(), 0);
    assert_eq!(k.procs.procs.len(), 1);
}

#[test]
fn dispatcher_denies_before_forwarding() {
    let mut k = Kernel::init(CapabilityTable::new());
    let qid = k.create_queue(0, 2);
    let payload: Vec<u8> = vec![1, 2, 3];
    let mut out: Vec<u8> = vec![0; 4];
    let r = syscall_entry(&mut k, &frame(3, qid, 0, 3), &payload, &mut out);
    assert_eq!(r, RESULT_ERR);
    assert_eq!(k.queues[qid].messages.len(), 0);
}

#[test]
fn dispatcher_send_and_recv_round_trip() {
    let mut k = Kernel::init(caps_with(&[Capability::IpcSend, Capability::IpcRecv]));
    let qid = k.create_queue(0, 2);
    let payload: Vec<u8> = vec![11, 22, 33];
    let mut out: Vec<u8> = vec![0; 8];
    assert_eq!(syscall_entry(&mut k, &frame(3, qid, 0, 3), &payload, &mut out), 0);
    assert_eq!(syscall_entry(&mut k, &frame(4, qid, 0, 8), &[], &mut out), 3);
    assert_eq!(&out[0..3], &[11, 22, 33]);
}

#[test]
fn dispatcher_yield_needs_no_capability() {
    let mut k = Kernel::init(CapabilityTable::new());
    scheduler::enqueue(&mut k.sched, 4);
    scheduler::enqueue(&mut k.sched, 5);
    let mut out: Vec<u8> = vec![];
    assert_eq!(syscall_entry(&mut k, &frame(7, 0, 0, 0), &[], &mut out), 0);
    assert_eq!(k.sched.queue, vec![5, 4]);
}

#[test]
fn dispatcher_alloc_and_share() {
    let mut k = Kernel::init(caps_with(&[Capability::MemAlloc, Capability::MemShare]));
    let mut out: Vec<u8> = vec![];
    assert_eq!(syscall_entry(&mut k, &frame(5, 2048, 0, 0), &[], &mut out), 2048);
    assert_eq!(k.mem.total, 2048);
    let region_id = k.create_region(4096).unwrap();
    assert_eq!(syscall_entry(&mut k, &frame(6, region_id, 9, 0), &[], &mut out), 0);
    assert_eq!(k.regions[0].map(9), Ok(()));
}

#[test]
fn syscall_identifiers_round_trip() {
    for op in [
        Syscall::ProcSpawn,
        Syscall::ProcKill,
        Syscall::IpcSend,
        Syscall::IpcRecv,
        Syscall::MemAlloc,
        Syscall::MemShare,
        Syscall::Yield,
    ] {
        assert_eq!(Syscall::decode(op.id()), Ok(op));
    }
    // Unlisted identifiers are the explicit invalid-syscall error.
    assert_eq!(Syscall::decode(0), Err(KernelError::InvalidSyscall));
    assert_eq!(Syscall::decode(8), Err(KernelError::InvalidSyscall));
}

#[test]
fn allocator_respects_global_bound() {
    let caps = caps_with(&[Capability::MemAlloc]);
    let mut m = vmm::init();
    assert_eq!(vmm::allocate(&mut m, &caps, 1, vmm::MAX_TOTAL_MEMORY), Ok(vmm::MAX_TOTAL_MEMORY));
    assert_eq!(vmm::allocate(&mut m, &caps, 1, 1), Err(KernelError::ResourceExhausted));
    let no_caps = CapabilityTable::new();
    assert_eq!(vmm::allocate(&mut m, &no_caps, 1, 1), Err(KernelError::CapabilityDenied));
}

#[test]
fn usage_sums_per_process() {
    let caps = caps_with(&[Capability::MemAlloc]);
    let mut m = vmm::init();
    assert_eq!(vmm::allocate(&mut m, &caps, 1, 100), Ok(100));
    assert_eq!(vmm::allocate(&mut m, &caps, 2, 50), Ok(50));
    assert_eq!(vmm::allocate(&mut m, &caps, 1, 25), Ok(25));
    assert_eq!(vmm::usage(&m, 1), 125);
    assert_eq!(vmm::usage(&m, 2), 50);
    vmm::revoke_process(&mut m, 1);
    assert_eq!(vmm::usage(&m, 1), 0);
    assert_eq!(vmm::usage(&m, 2), 50);
    assert_eq!(m.total, 50);
}

#[test]
fn scheduler_round_robin() {
    let mut s = scheduler::init();
    scheduler::enqueue(&mut s, 1);
    scheduler::enqueue(&mut s, 2);
    scheduler::enqueue(&mut s, 3);
    assert_eq!(scheduler::tick(&mut s), Some(1));
    assert_eq!(scheduler::tick(&mut s), Some(2));
    assert_eq!(s.queue, vec![3, 1, 2]);
    scheduler::yield_current(&mut s);
    assert_eq!(s.queue, vec![1, 2, 3]);
    scheduler::remove(&mut s, 2);
    assert_eq!(s.queue, vec![1, 3]);
    let mut empty = scheduler::init();
    assert_eq!(scheduler::tick(&mut empty), None);
}

#[test]
fn thread_lifecycle() {
    let mut t = thread::init();
    let a = thread::create(&mut t, 1).unwrap();
    let b = thread::create(&mut t, 1).unwrap();
    assert_ne!(a, b);
    thread::terminate(&mut t, a);
    assert_eq!(t.threads[0].state, thread::ThreadState::Terminated);
    assert_eq!(t.threads[1].state, thread::ThreadState::New);
}

#[test]
fn region_ids_are_collision_free() {
    let mut k = Kernel::init(caps_with(&[Capability::MemShare]));
    let a = k.create_region(64).unwrap();
    let b = k.create_region(64).unwrap();
    let c = k.create_region(64).unwrap();
    assert_ne!(a, b);
    assert_ne!(b, c);
    assert_ne!(a, c);
}

#[test]
fn kernel_boot_initializes_once() {
    let k = Kernel::init(CapabilityTable::new());
    assert!(k.initialized);
    assert_eq!(k.procs.procs.len(), 1);
    assert_eq!(k.procs.procs[0].pid, 0);
    assert_eq!(k.procs.procs[0].state, ProcessState::Running);
}

#[test]
fn dispatcher_kill_through_frame() {
    let mut k = Kernel::init(caps_with(&[Capability::ProcKill]));
    add_process(&mut k, 6, CapabilityTable::new());
    let mut out: Vec<u8> = vec![];
    assert_eq!(syscall_entry(&mut k, &frame(2, 6, 0, 0), &[], &mut out), 0);
    assert_eq!(
        k.procs.procs.iter().find(|p| p.pid == 6).unwrap().state,
        ProcessState::Terminated
    );
}

#[test]
fn kill_of_unknown_pid_is_a_no_op() {
    let mut k = Kernel::init(caps_with(&[Capability::ProcKill]));
    let before = k.procs.procs.len();
    assert_eq!(k.sys_kill(42), 0);
    assert_eq!(k.procs.procs.len(), before);
}

#[test]
fn send_blocks_on_full_queue_and_recv_wakes_sender() {
    let mut k = Kernel::init(CapabilityTable::new());
    add_process(&mut k, 1, caps_with(&[Capability::IpcSend]));
    add_process(&mut k, 2, caps_with(&[Capability::IpcRecv]));
    let qid = k.create_queue(2, 1);

    k.procs.current = 1;
    assert_eq!(k.sys_send(qid, &[1], 1), 0);
    // The queue is at capacity: backpressure suspends the sender and the
    // queued message is neither dropped nor overwritten.
    assert_eq!(k.sys_send(qid, &[2], 1), RESULT_ERR);
    let a = k.procs.procs.iter().find(|p| p.pid == 1).unwrap();
    assert_eq!(a.state, ProcessState::Blocked);
    assert_eq!(a.blocked_on, Some(BlockReason::QueueSend(qid)));

    // A receive frees the slot and readies the sender to retry.
    k.procs.current = 2;
    let mut out: Vec<u8> = vec![0; 4];
    assert_eq!(k.sys_recv(qid, &mut out, 4), 1);
    assert_eq!(out[0], 1);
    assert_eq!(
        k.procs.procs.iter().find(|p| p.pid == 1).unwrap().state,
        ProcessState::Ready
    );
}
