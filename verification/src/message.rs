//! IPC message queues: structured, capability-gated message passing.
//! Every message is copied into kernel-owned storage on send and copied out
//! on recv; no pointer ever crosses from one process's authority into
//! another's, and no state is shared between processes.

use vstd::prelude::*;
use crate::KernelError;
use crate::capability::{Capability, CapabilityTable};
use crate::process::Pid;

verus! {

/// Maximum message payload size in bytes.
pub const MAX_MESSAGE_SIZE: usize = 4096;

/// One queued message: the sender's identity and the copied payload.
/// A message exists only inside a queue between `send` and `recv`.
pub struct Message {
    /// Identity of the process that sent the message.
    pub from: Pid,
    /// The payload, copied from the sender's buffer at send time.
    pub data: Vec<u8>,
}

/// Mathematical model of one message.
pub ghost struct MessageModel {
    pub from: Pid,
    pub data: Seq<u8>,
}

impl Message {
    /// The model this message denotes.
    pub open spec fn model(self) -> MessageModel {
        MessageModel { from: self.from, data: self.data@ }
    }

    /// A message is well formed when its payload respects the bound.
    pub open spec fn wf(self) -> bool {
        self.data@.len() <= MAX_MESSAGE_SIZE
    }
}

/// A bounded FIFO of messages owned by one process. Capacity is fixed at
/// construction; the queue never overwrites or drops a message.
pub struct MessageQueue {
    /// The process that owns this queue.
    pub owner: Pid,
    /// Construction-time bound on how many messages may be queued at once.
    pub capacity: usize,
    /// The queued messages, oldest at index 0.
    pub messages: Vec<Message>,
}

impl MessageQueue {
    /// The queued messages, oldest first.
    pub open spec fn msgs(self) -> Seq<MessageModel> {
        self.messages@.map_values(|m: Message| m.model())
    }

    /// Well-formedness: the queue respects its capacity and every queued
    /// message respects the payload bound.
    pub open spec fn wf(self) -> bool {
        &&& self.messages@.len() <= self.capacity
        &&& forall|i: int| 0 <= i < self.messages@.len() ==> (#[trigger] self.messages@[i]).wf()
    }

    /// Create a new, empty message queue with the given owner and capacity.
    pub fn new(owner: Pid, capacity: usize) -> (q: Self)
        ensures
            q.wf(),
            q.owner == owner,
            q.capacity == capacity,
            q.msgs() =~= Seq::<MessageModel>::empty(),
    {
        MessageQueue { owner, capacity, messages: Vec::new() }
    }

    /// Number of messages currently queued.
    pub fn len(&self) -> (n: usize)
        ensures
            n == self.msgs().len(),
    {
        self.messages.len()
    }

    /// Send a message into this queue.
    ///
    /// The capability check comes first, before the size check, so that an
    /// unauthorized caller cannot use size acceptance as an information
    /// oracle. An oversize message is rejected with `SizeExceeded` and a
    /// full queue reports `ResourceExhausted` (the kernel layer turns that
    /// into blocking backpressure); in every failure the queue is unchanged
    /// and no copy occurs. On success the first `len` bytes of `buffer` are
    /// copied into a fresh message tagged with `sender` and enqueued at the
    /// tail; the caller's buffer is left untouched.
    pub fn send(
        &mut self,
        sender: Pid,
        caps: &CapabilityTable,
        buffer: &[u8],
        len: usize,
    ) -> (r: Result<(), KernelError>)
        requires
            old(self).wf(),
            len <= buffer@.len(),
        ensures
            final(self).wf(),
            final(self).owner == old(self).owner,
            final(self).capacity == old(self).capacity,
            !caps.spec_has(Capability::IpcSend) ==> {
                &&& r == Err::<(), KernelError>(KernelError::CapabilityDenied)
                &&& *final(self) == *old(self)
            },
            caps.spec_has(Capability::IpcSend) && len > MAX_MESSAGE_SIZE ==> {
                &&& r == Err::<(), KernelError>(KernelError::SizeExceeded)
                &&& *final(self) == *old(self)
            },
            caps.spec_has(Capability::IpcSend) && len <= MAX_MESSAGE_SIZE
                && old(self).msgs().len() >= old(self).capacity ==> {
                &&& r == Err::<(), KernelError>(KernelError::ResourceExhausted)
                &&& *final(self) == *old(self)
            },
            caps.spec_has(Capability::IpcSend) && len <= MAX_MESSAGE_SIZE
                && old(self).msgs().len() < old(self).capacity ==> {
                &&& r == Ok::<(), KernelError>(())
                &&& final(self).msgs() =~= old(self).msgs().push(
                        MessageModel { from: sender, data: buffer@.subrange(0, len as int) })
            },
    {
        if let Err(e) = caps.require(Capability::IpcSend) {
            return Err(e);
        }
        if len > MAX_MESSAGE_SIZE {
            return Err(KernelError::SizeExceeded);
        }
        if self.messages.len() >= self.capacity {
            return Err(KernelError::ResourceExhausted);
        }
        let mut data: Vec<u8> = Vec::new();
        let mut i: usize = 0;
        while i < len
            invariant
                i <= len,
                len <= buffer@.len(),
                data@ =~= buffer@.subrange(0, i as int),
            decreases len - i,
        {
            data.push(buffer[i]);
            assert(data@ =~= buffer@.subrange(0, i + 1 as int));
            i = i + 1;
        }
        let msg = Message { from: sender, data };
        self.messages.push(msg);
        assert(self.msgs() =~= old(self).msgs().push(msg.model()));
        Ok(())
    }

    /// Receive the oldest message from this queue.
    ///
    /// The capability check comes first. An empty queue reports
    /// `ResourceExhausted` (the kernel layer turns that into blocking);
    /// in every failure both the queue and the caller's buffer are
    /// unchanged. On success the oldest message is dequeued, its first
    /// `min(max_len, length)` bytes are copied into the front of `buffer`
    /// (the rest of `buffer` is untouched), the copied count is returned,
    /// and the message is discarded. FIFO order across all senders holds.
    pub fn recv(
        &mut self,
        caps: &CapabilityTable,
        buffer: &mut Vec<u8>,
        max_len: usize,
    ) -> (r: Result<usize, KernelError>)
        requires
            old(self).wf(),
            max_len <= old(buffer)@.len(),
        ensures
            final(self).wf(),
            final(self).owner == old(self).owner,
            final(self).capacity == old(self).capacity,
            final(buffer)@.len() == old(buffer)@.len(),
            !caps.spec_has(Capability::IpcRecv) ==> {
                &&& r == Err::<usize, KernelError>(KernelError::CapabilityDenied)
                &&& *final(self) == *old(self)
                &&& *final(buffer) == *old(buffer)
            },
            caps.spec_has(Capability::IpcRecv) && old(self).msgs().len() == 0 ==> {
                &&& r == Err::<usize, KernelError>(KernelError::ResourceExhausted)
                &&& *final(self) == *old(self)
                &&& *final(buffer) == *old(buffer)
            },
            caps.spec_has(Capability::IpcRecv) && old(self).msgs().len() > 0 ==> {
                let msg = old(self).msgs()[0];
                let n = if max_len <= msg.data.len() { max_len as int } else { msg.data.len() as int };
                &&& r == Ok::<usize, KernelError>(n as usize)
                &&& final(self).msgs() =~= old(self).msgs().drop_first()
                &&& final(buffer)@.subrange(0, n) =~= msg.data.subrange(0, n)
                &&& final(buffer)@.subrange(n, final(buffer)@.len() as int)
                        =~= old(buffer)@.subrange(n, old(buffer)@.len() as int)
            },
    {
        if let Err(e) = caps.require(Capability::IpcRecv) {
            return Err(e);
        }
        if self.messages.len() == 0 {
            return Err(KernelError::ResourceExhausted);
        }
        let msg = self.messages.remove(0);
        let n = if max_len <= msg.data.len() { max_len } else { msg.data.len() };
        let mut i: usize = 0;
        while i < n
            invariant
                i <= n,
                n <= msg.data@.len(),
                n <= buffer@.len(),
                buffer@.len() == old(buffer)@.len(),
                forall|j: int| 0 <= j < i ==> buffer@[j] == msg.data@[j],
                forall|j: int| i <= j < buffer@.len() ==> buffer@[j] == old(buffer)@[j],
            decreases n - i,
        {
            let b = msg.data[i];
            buffer[i] = b;
            i = i + 1;
        }
        assert(self.msgs() =~= old(self).msgs().drop_first());
        assert(buffer@.subrange(0, n as int) =~= msg.data@.subrange(0, n as int));
        assert(buffer@.subrange(n as int, buffer@.len() as int)
            =~= old(buffer)@.subrange(n as int, old(buffer)@.len() as int));
        Ok(n)
    }
}

/// Round trip across one queue: sending a payload and then receiving with
/// enough room hands back exactly the sent bytes, removes exactly that one
/// message, and preserves the order of everything queued before it.
pub proof fn lemma_send_recv_round_trip(q: Seq<MessageModel>, m: MessageModel, max_len: int)
    requires
        max_len >= m.data.len(),
    ensures
        q.push(m).len() == q.len() + 1,
        q.len() == 0 ==> q.push(m)[0] == m
            && q.push(m)[0].data.subrange(0, m.data.len() as int) == m.data
            && q.push(m).drop_first() =~= q,
        q.len() > 0 ==> q.push(m)[0] == q[0] && q.push(m).drop_first() =~= q.drop_first().push(m),
{
    assert(m.data.subrange(0, m.data.len() as int) =~= m.data);
}

} // verus!
