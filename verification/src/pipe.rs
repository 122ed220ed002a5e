//! IPC pipes: stream-oriented, unidirectional channels. A pipe carries
//! undifferentiated bytes with no message boundaries, so partial reads and
//! partial writes are legal. Exactly one reader and one writer identity are
//! fixed at construction and re-checked on every call.

use vstd::prelude::*;
use crate::KernelError;
use crate::capability::{Capability, CapabilityTable};
use crate::process::Pid;

verus! {

/// Size of a pipe's ring buffer in bytes.
pub const PIPE_BUFFER_SIZE: usize = 8192;

/// A kernel-managed byte-stream channel between two fixed processes.
pub struct Pipe {
    /// The one process allowed to read from this pipe.
    pub reader: Pid,
    /// The one process allowed to write into this pipe.
    pub writer: Pid,
    /// Buffered bytes, oldest at index 0.
    pub buffered: Vec<u8>,
}

impl Pipe {
    /// The bytes currently buffered in the pipe, oldest first.
    pub open spec fn contents(self) -> Seq<u8> {
        self.buffered@
    }

    /// Well-formedness: the buffer respects the ring-buffer bound.
    pub open spec fn wf(self) -> bool {
        self.buffered@.len() <= PIPE_BUFFER_SIZE
    }

    /// Create a new, empty pipe between a reader and a writer.
    pub fn new(reader: Pid, writer: Pid) -> (p: Self)
        ensures
            p.wf(),
            p.reader == reader,
            p.writer == writer,
            p.contents() =~= Seq::<u8>::empty(),
    {
        Pipe { reader, writer, buffered: Vec::new() }
    }

    /// Write bytes into the pipe.
    ///
    /// The capability check comes first; then the caller's identity must
    /// equal the designated writer — checked on every call, so a
    /// capability holder who is not the designated endpoint is rejected
    /// with `IdentityMismatch` and the buffer is unchanged. A full buffer
    /// reports `ResourceExhausted` (backpressure; the kernel layer blocks
    /// the caller). Otherwise the first `min(len, space)` bytes of
    /// `buffer` are appended and that count is returned: a partial write
    /// is legal.
    pub fn write(
        &mut self,
        caller: Pid,
        caps: &CapabilityTable,
        buffer: &[u8],
        len: usize,
    ) -> (r: Result<usize, KernelError>)
        requires
            old(self).wf(),
            len <= buffer@.len(),
        ensures
            final(self).wf(),
            final(self).reader == old(self).reader,
            final(self).writer == old(self).writer,
            !caps.spec_has(Capability::IpcSend) ==> {
                &&& r == Err::<usize, KernelError>(KernelError::CapabilityDenied)
                &&& *final(self) == *old(self)
            },
            caps.spec_has(Capability::IpcSend) && caller != old(self).writer ==> {
                &&& r == Err::<usize, KernelError>(KernelError::IdentityMismatch)
                &&& *final(self) == *old(self)
            },
            caps.spec_has(Capability::IpcSend) && caller == old(self).writer
                && len > 0 && old(self).contents().len() == PIPE_BUFFER_SIZE ==> {
                &&& r == Err::<usize, KernelError>(KernelError::ResourceExhausted)
                &&& *final(self) == *old(self)
            },
            caps.spec_has(Capability::IpcSend) && caller == old(self).writer
                && (len == 0 || old(self).contents().len() < PIPE_BUFFER_SIZE) ==> {
                let space = PIPE_BUFFER_SIZE - old(self).contents().len();
                let n = if len <= space { len as int } else { space as int };
                &&& r == Ok::<usize, KernelError>(n as usize)
                &&& final(self).contents() =~= old(self).contents() + buffer@.subrange(0, n)
            },
    {
        if let Err(e) = caps.require(Capability::IpcSend) {
            return Err(e);
        }
        if caller != self.writer {
            return Err(KernelError::IdentityMismatch);
        }
        let space = PIPE_BUFFER_SIZE - self.buffered.len();
        if len > 0 && space == 0 {
            return Err(KernelError::ResourceExhausted);
        }
        let n = if len <= space { len } else { space };
        let mut i: usize = 0;
        while i < n
            invariant
                i <= n,
                n <= buffer@.len(),
                self.buffered@ =~= old(self).buffered@ + buffer@.subrange(0, i as int),
                self.reader == old(self).reader,
                self.writer == old(self).writer,
                old(self).buffered@.len() + n <= PIPE_BUFFER_SIZE,
            decreases n - i,
        {
            self.buffered.push(buffer[i]);
            assert(self.buffered@ =~= old(self).buffered@ + buffer@.subrange(0, i + 1 as int));
            i = i + 1;
        }
        Ok(n)
    }

    /// Read bytes from the pipe.
    ///
    /// The capability check comes first; then the caller's identity must
    /// equal the designated reader, re-checked on every call. An empty
    /// buffer reports `ResourceExhausted` (the kernel layer blocks the
    /// caller until bytes arrive). Otherwise the oldest
    /// `min(max_len, buffered)` bytes are copied into the front of
    /// `buffer` (the rest of `buffer` is untouched), removed from the
    /// pipe, and that count is returned: a partial read is legal.
    pub fn read(
        &mut self,
        caller: Pid,
        caps: &CapabilityTable,
        buffer: &mut Vec<u8>,
        max_len: usize,
    ) -> (r: Result<usize, KernelError>)
        requires
            old(self).wf(),
            max_len <= old(buffer)@.len(),
        ensures
            final(self).wf(),
            final(self).reader == old(self).reader,
            final(self).writer == old(self).writer,
            final(buffer)@.len() == old(buffer)@.len(),
            !caps.spec_has(Capability::IpcRecv) ==> {
                &&& r == Err::<usize, KernelError>(KernelError::CapabilityDenied)
                &&& *final(self) == *old(self)
                &&& *final(buffer) == *old(buffer)
            },
            caps.spec_has(Capability::IpcRecv) && caller != old(self).reader ==> {
                &&& r == Err::<usize, KernelError>(KernelError::IdentityMismatch)
                &&& *final(self) == *old(self)
                &&& *final(buffer) == *old(buffer)
            },
            caps.spec_has(Capability::IpcRecv) && caller == old(self).reader
                && max_len > 0 && old(self).contents().len() == 0 ==> {
                &&& r == Err::<usize, KernelError>(KernelError::ResourceExhausted)
                &&& *final(self) == *old(self)
                &&& *final(buffer) == *old(buffer)
            },
            caps.spec_has(Capability::IpcRecv) && caller == old(self).reader
                && (max_len == 0 || old(self).contents().len() > 0) ==> {
                let avail = old(self).contents().len() as int;
                let n = if max_len <= avail { max_len as int } else { avail };
                &&& r == Ok::<usize, KernelError>(n as usize)
                &&& final(self).contents() =~= old(self).contents().skip(n)
                &&& final(buffer)@.subrange(0, n) =~= old(self).contents().subrange(0, n)
                &&& final(buffer)@.subrange(n, final(buffer)@.len() as int)
                        =~= old(buffer)@.subrange(n, old(buffer)@.len() as int)
            },
    {
        if let Err(e) = caps.require(Capability::IpcRecv) {
            return Err(e);
        }
        if caller != self.reader {
            return Err(KernelError::IdentityMismatch);
        }
        let avail = self.buffered.len();
        if max_len > 0 && avail == 0 {
            return Err(KernelError::ResourceExhausted);
        }
        let n = if max_len <= avail { max_len } else { avail };
        let mut i: usize = 0;
        while i < n
            invariant
                i <= n,
                n <= self.buffered@.len(),
                n <= buffer@.len(),
                buffer@.len() == old(buffer)@.len(),
                self.buffered@ == old(self).buffered@,
                self.reader == old(self).reader,
                self.writer == old(self).writer,
                forall|j: int| 0 <= j < i ==> buffer@[j] == self.buffered@[j],
                forall|j: int| i <= j < buffer@.len() ==> buffer@[j] == old(buffer)@[j],
            decreases n - i,
        {
            let b = self.buffered[i];
            buffer[i] = b;
            i = i + 1;
        }
        let mut rest: Vec<u8> = Vec::new();
        let mut k: usize = n;
        while k < self.buffered.len()
            invariant
                n <= k <= self.buffered@.len(),
                self.buffered@ == old(self).buffered@,
                self.reader == old(self).reader,
                self.writer == old(self).writer,
                rest@ =~= self.buffered@.subrange(n as int, k as int),
                buffer@.len() == old(buffer)@.len(),
                forall|j: int| 0 <= j < n ==> buffer@[j] == self.buffered@[j],
                forall|j: int| n <= j < buffer@.len() ==> buffer@[j] == old(buffer)@[j],
            decreases self.buffered@.len() - k,
        {
            let b = self.buffered[k];
            rest.push(b);
            assert(rest@ =~= self.buffered@.subrange(n as int, k + 1 as int));
            k = k + 1;
        }
        self.buffered = rest;
        assert(self.contents() =~= old(self).contents().skip(n as int));
        assert(buffer@.subrange(0, n as int) =~= old(self).contents().subrange(0, n as int));
        assert(buffer@.subrange(n as int, buffer@.len() as int)
            =~= old(buffer)@.subrange(n as int, old(buffer)@.len() as int));
        Ok(n)
    }
}

} // verus!
