//! Tests of the IPC primitives: message queues, pipes, and shared memory.

use superos::KernelError;
use superos::capability::{Capability, CapabilityTable};
use superos::message::{MessageQueue, MAX_MESSAGE_SIZE};
use superos::pipe::{Pipe, PIPE_BUFFER_SIZE};
use superos::shared_mem::SharedMemRegion;

fn caps_with(list: &[Capability]) -> CapabilityTable {
    let mut t = CapabilityTable::new();
    for c in list {
        t.grant(*c);
    }
    t
}

#[test]
fn queue_send_recv_round_trip() {
    let send_caps = caps_with(&[Capability::IpcSend]);
    let recv_caps = caps_with(&[Capability::IpcRecv]);
    let mut q = MessageQueue::new(7, 4);
    let payload: Vec<u8> = vec![1, 2, 3, 4, 5, 6, 7, 8, 9, 10];
    assert_eq!(q.send(3, &send_caps, &payload, 10), Ok(()));
    assert_eq!(q.len(), 1);
    let mut out: Vec<u8> = vec![0; 20];
    let got = q.recv(&recv_caps, &mut out, 20);
    assert_eq!(got, Ok(10));
    assert_eq!(&out[0..10], &payload[0..10]);
    assert_eq!(q.len(), 0);
}

#[test]
fn queue_oversize_rejected_without_copy() {
    let send_caps = caps_with(&[Capability::IpcSend]);
    let mut q = MessageQueue::new(1, 4);
    let payload: Vec<u8> = vec![0xab; MAX_MESSAGE_SIZE + 1];
    assert_eq!(
        q.send(3, &send_caps, &payload, MAX_MESSAGE_SIZE + 1),
        Err(KernelError::SizeExceeded)
    );
    assert_eq!(q.len(), 0);
}

#[test]
fn queue_capability_check_precedes_size_check() {
    // An unauthorized caller must not learn whether its size would have
    // been accepted: the denial comes first even for an oversize payload.
    let no_caps = CapabilityTable::new();
    let mut q = MessageQueue::new(1, 4);
    let payload: Vec<u8> = vec![0xab; MAX_MESSAGE_SIZE + 1];
    assert_eq!(
        q.send(3, &no_caps, &payload, MAX_MESSAGE_SIZE + 1),
        Err(KernelError::CapabilityDenied)
    );
    assert_eq!(q.len(), 0);
}

#[test]
fn queue_recv_without_capability_denied() {
    let recv_caps = CapabilityTable::new();
    let mut q = MessageQueue::new(1, 4);
    let mut out: Vec<u8> = vec![0; 8];
    assert_eq!(q.recv(&recv_caps, &mut out, 8), Err(KernelError::CapabilityDenied));
}

#[test]
fn queue_full_reports_exhaustion_and_drops_nothing() {
    let send_caps = caps_with(&[Capability::IpcSend]);
    let recv_caps = caps_with(&[Capability::IpcRecv]);
    let mut q = MessageQueue::new(1, 2);
    assert_eq!(q.send(1, &send_caps, &[1], 1), Ok(()));
    assert_eq!(q.send(2, &send_caps, &[2], 1), Ok(()));
    assert_eq!(q.send(3, &send_caps, &[3], 1), Err(KernelError::ResourceExhausted));
    // FIFO across senders: the first two messages are intact, in order.
    let mut out: Vec<u8> = vec![0; 1];
    assert_eq!(q.recv(&recv_caps, &mut out, 1), Ok(1));
    assert_eq!(out[0], 1);
    assert_eq!(q.recv(&recv_caps, &mut out, 1), Ok(1));
    assert_eq!(out[0], 2);
}

#[test]
fn queue_recv_truncates_to_max_len() {
    let send_caps = caps_with(&[Capability::IpcSend]);
    let recv_caps = caps_with(&[Capability::IpcRecv]);
    let mut q = MessageQueue::new(1, 2);
    let payload: Vec<u8> = vec![9, 8, 7, 6];
    assert_eq!(q.send(1, &send_caps, &payload, 4), Ok(()));
    let mut out: Vec<u8> = vec![0; 2];
    assert_eq!(q.recv(&recv_caps, &mut out, 2), Ok(2));
    assert_eq!(&out[..], &[9, 8]);
    assert_eq!(q.len(), 0);
}

#[test]
fn pipe_only_designated_writer_succeeds() {
    let send_caps = caps_with(&[Capability::IpcSend]);
    let recv_caps = caps_with(&[Capability::IpcRecv]);
    let mut p = Pipe::new(10, 11);
    // A capability holder who is not the designated writer is rejected.
    assert_eq!(p.write(12, &send_caps, &[1, 2, 3], 3), Err(KernelError::IdentityMismatch));
    // The reader cannot write either.
    assert_eq!(p.write(10, &send_caps, &[1, 2, 3], 3), Err(KernelError::IdentityMismatch));
    // The ring buffer is unchanged: a read by the reader finds it empty.
    assert_eq!(p.read(10, &recv_caps, &mut vec![0; 4], 4), Err(KernelError::ResourceExhausted));
    // The designated writer succeeds.
    assert_eq!(p.write(11, &send_caps, &[1, 2, 3], 3), Ok(3));
    let mut out: Vec<u8> = vec![0; 4];
    assert_eq!(p.read(10, &recv_caps, &mut out, 4), Ok(3));
    assert_eq!(&out[0..3], &[1, 2, 3]);
}

#[test]
fn pipe_only_designated_reader_succeeds() {
    let send_caps = caps_with(&[Capability::IpcSend]);
    let recv_caps = caps_with(&[Capability::IpcRecv]);
    let mut p = Pipe::new(10, 11);
    assert_eq!(p.write(11, &send_caps, &[5], 1), Ok(1));
    let mut out: Vec<u8> = vec![0; 1];
    assert_eq!(p.read(11, &recv_caps, &mut out, 1), Err(KernelError::IdentityMismatch));
    assert_eq!(p.read(12, &recv_caps, &mut out, 1), Err(KernelError::IdentityMismatch));
    assert_eq!(p.read(10, &recv_caps, &mut out, 1), Ok(1));
    assert_eq!(out[0], 5);
}

#[test]
fn pipe_write_without_capability_denied() {
    let no_caps = CapabilityTable::new();
    let mut p = Pipe::new(10, 11);
    assert_eq!(p.write(11, &no_caps, &[1], 1), Err(KernelError::CapabilityDenied));
}

#[test]
fn pipe_partial_write_at_capacity() {
    let send_caps = caps_with(&[Capability::IpcSend]);
    let mut p = Pipe::new(10, 11);
    let big: Vec<u8> = vec![0xcd; PIPE_BUFFER_SIZE];
    assert_eq!(p.write(11, &send_caps, &big, PIPE_BUFFER_SIZE), Ok(PIPE_BUFFER_SIZE));
    // The buffer is full: a further nonempty write reports exhaustion.
    assert_eq!(p.write(11, &send_caps, &[1], 1), Err(KernelError::ResourceExhausted));
    // Byte streams have no message boundaries: a partial read frees space
    // and a following write is partial if it exceeds what is free.
    let recv_caps = caps_with(&[Capability::IpcRecv]);
    let mut out: Vec<u8> = vec![0; 2];
    assert_eq!(p.read(10, &recv_caps, &mut out, 2), Ok(2));
    assert_eq!(p.write(11, &send_caps, &[1, 2, 3, 4], 4), Ok(2));
}

#[test]
fn region_map_authorization() {
    let share_caps = caps_with(&[Capability::MemShare]);
    let owner = 1;
    let mut region = SharedMemRegion::new(&share_caps, 0, owner, 4096).unwrap();
    // The owner may always map; strangers may not.
    assert_eq!(region.map(owner), Ok(()));
    assert_eq!(region.map(2), Err(KernelError::CapabilityDenied));
    // A granted reader and a granted writer may map.
    assert_eq!(region.grant_read(&share_caps, 2), Ok(()));
    assert_eq!(region.grant_write(&share_caps, 3), Ok(()));
    assert_eq!(region.map(2), Ok(()));
    assert_eq!(region.map(3), Ok(()));
    assert_eq!(region.map(4), Err(KernelError::CapabilityDenied));
}

#[test]
fn region_revoke_bars_previous_holders_until_regranted() {
    let share_caps = caps_with(&[Capability::MemShare]);
    let mut region = SharedMemRegion::new(&share_caps, 0, 1, 4096).unwrap();
    assert_eq!(region.grant_read(&share_caps, 2), Ok(()));
    assert_eq!(region.grant_write(&share_caps, 3), Ok(()));
    assert_eq!(region.revoke(&share_caps), Ok(()));
    // Every previously granted process has lost authorization.
    assert_eq!(region.map(2), Err(KernelError::CapabilityDenied));
    assert_eq!(region.map(3), Err(KernelError::CapabilityDenied));
    // Until granted again.
    assert_eq!(region.grant_read(&share_caps, 2), Ok(()));
    assert_eq!(region.map(2), Ok(()));
}

#[test]
fn region_grant_capacity_bound() {
    let share_caps = caps_with(&[Capability::MemShare]);
    let mut region = SharedMemRegion::new(&share_caps, 0, 1, 4096).unwrap();
    for pid in 10..18 {
        assert_eq!(region.grant_read(&share_caps, pid), Ok(()));
    }
    // The ninth distinct grant is an explicit capacity error.
    assert_eq!(region.grant_read(&share_caps, 18), Err(KernelError::SizeExceeded));
    // The original eight are unaffected.
    for pid in 10..18 {
        assert_eq!(region.map(pid), Ok(()));
    }
    assert_eq!(region.map(18), Err(KernelError::CapabilityDenied));
}

#[test]
fn region_operations_require_share_capability() {
    let share_caps = caps_with(&[Capability::MemShare]);
    let no_caps = CapabilityTable::new();
    assert!(matches!(
        SharedMemRegion::new(&no_caps, 0, 1, 64),
        Err(KernelError::CapabilityDenied)
    ));
    let mut region = SharedMemRegion::new(&share_caps, 0, 1, 64).unwrap();
    assert_eq!(region.grant_read(&no_caps, 2), Err(KernelError::CapabilityDenied));
    assert_eq!(region.grant_write(&no_caps, 2), Err(KernelError::CapabilityDenied));
    assert_eq!(region.revoke(&no_caps), Err(KernelError::CapabilityDenied));
}

#[test]
fn region_grant_is_idempotent_per_process() {
    let share_caps = caps_with(&[Capability::MemShare]);
    let mut region = SharedMemRegion::new(&share_caps, 0, 1, 4096).unwrap();
    for _ in 0..10 {
        // Re-granting an already granted process changes nothing and
        // never eats capacity.
        assert_eq!(region.grant_read(&share_caps, 2), Ok(()));
    }
    for pid in 3..10 {
        assert_eq!(region.grant_read(&share_caps, pid), Ok(()));
    }
    assert_eq!(region.grant_read(&share_caps, 10), Err(KernelError::SizeExceeded));
}

#[test]
fn queue_recv_leaves_buffer_tail_untouched() {
    let send_caps = caps_with(&[Capability::IpcSend]);
    let recv_caps = caps_with(&[Capability::IpcRecv]);
    let mut q = MessageQueue::new(1, 2);
    assert_eq!(q.send(1, &send_caps, &[0xaa, 0xbb], 2), Ok(()));
    let mut out: Vec<u8> = vec![0x77; 6];
    assert_eq!(q.recv(&recv_caps, &mut out, 6), Ok(2));
    assert_eq!(&out[..], &[0xaa, 0xbb, 0x77, 0x77, 0x77, 0x77]);
}

#[test]
fn queue_send_leaves_sender_buffer_untouched() {
    let send_caps = caps_with(&[Capability::IpcSend]);
    let payload: Vec<u8> = vec![4, 5, 6];
    let mut q = MessageQueue::new(1, 2);
    assert_eq!(q.send(9, &send_caps, &payload, 3), Ok(()));
    assert_eq!(&payload[..], &[4, 5, 6]);
}
