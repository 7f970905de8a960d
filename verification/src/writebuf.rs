//! The write pipeline: an exclusively-held outgoing byte buffer with a
//! pending-descriptor count and a corruption flag.
//!
//! Holding the buffer is the exclusive right to put bytes on the transport.
//! Acquisition tentatively marks the buffer corrupted; a clean release clears
//! the mark. A holder that is abandoned mid-operation therefore leaves the
//! mark set, and every later acquisition fails: bytes half-written by an
//! abandoned operation cannot be trusted to frame whole requests.

use vstd::prelude::*;

use crate::errors::ConnectionError;
use crate::iov;

verus! {

/// Model of the write pipeline's state.
pub struct WriteBufferModel {
    /// Bytes buffered but not yet handed to the transport.
    pub bytes: Seq<u8>,
    /// Descriptors queued alongside the buffered bytes.
    pub fds: int,
    /// Whether a holder was abandoned mid-operation.
    pub corrupted: bool,
    /// Buffering threshold: a payload this long or longer bypasses the buffer.
    pub capacity: int,
}

impl WriteBufferModel {
    /// The buffer never holds more than a capacity's worth of bytes.
    pub open spec fn wf(self) -> bool {
        self.bytes.len() <= self.capacity
    }

    /// One acquisition step: fails on a corrupted buffer, otherwise marks the
    /// buffer tentatively corrupted so that an abandoned holder is detected.
    pub open spec fn acquire(self) -> (WriteBufferModel, bool) {
        if self.corrupted {
            (self, false)
        } else {
            (WriteBufferModel { corrupted: true, ..self }, true)
        }
    }

    /// A clean release: clears the tentative corruption mark.
    pub open spec fn release(self) -> WriteBufferModel {
        WriteBufferModel { corrupted: false, ..self }
    }
}

/// Law: acquiring the pipeline a second time without an intervening release
/// fails with the corruption mark set, and every further acquisition keeps
/// failing the same way; the pipeline is idempotently broken until (and
/// unless) the original holder releases it.
pub proof fn lemma_double_acquire_fails(m: WriteBufferModel)
    ensures
        ({
            let (m1, ok1) = m.acquire();
            let (m2, ok2) = m1.acquire();
            ok1 ==> (!ok2 && m2 == m1 && !m2.acquire().1)
        }),
{
}

/// The write pipeline's buffer.
pub struct WriteBuffer {
    buffer: Vec<u8>,
    fds: u64,
    corrupted: bool,
    capacity: usize,
}

impl View for WriteBuffer {
    type V = WriteBufferModel;

    closed spec fn view(&self) -> WriteBufferModel {
        WriteBufferModel {
            bytes: self.buffer@,
            fds: self.fds as int,
            corrupted: self.corrupted,
            capacity: self.capacity as int,
        }
    }
}

impl WriteBuffer {
    /// A fresh, uncorrupted, empty buffer with the given threshold.
    pub fn with_capacity(capacity: usize) -> (r: WriteBuffer)
        requires
            capacity >= 1,
        ensures
            r@ == (WriteBufferModel {
                bytes: Seq::<u8>::empty(),
                fds: 0,
                corrupted: false,
                capacity: capacity as int,
            }),
            r@.wf(),
    {
        WriteBuffer { buffer: Vec::new(), fds: 0, corrupted: false, capacity }
    }

    /// Take exclusive hold of the buffer. Fails permanently once a previous
    /// holder was abandoned before releasing.
    pub fn acquire(&mut self) -> (r: Result<(), ConnectionError>)
        ensures
            final(self)@ == old(self)@.acquire().0,
            r is Ok <==> old(self)@.acquire().1,
            r is Err ==> r == Err::<(), ConnectionError>(ConnectionError::WriteBufferCorrupted),
    {
        if self.corrupted {
            return Err(ConnectionError::WriteBufferCorrupted);
        }
        self.corrupted = true;
        Ok(())
    }

    /// Release the buffer cleanly, clearing the tentative corruption mark.
    pub fn release(&mut self)
        ensures
            final(self)@ == old(self)@.release(),
    {
        self.corrupted = false;
    }

    /// Move every buffered byte and pending descriptor to the outgoing
    /// channel. The buffer is empty afterwards.
    pub fn flush_into(&mut self, out: &mut Vec<u8>, out_fds: &mut u64)
        requires
            *old(out_fds) + old(self)@.fds <= u64::MAX,
        ensures
            final(out)@ == old(out)@ + old(self)@.bytes,
            *final(out_fds) == *old(out_fds) + old(self)@.fds,
            final(self)@ == (WriteBufferModel { bytes: Seq::<u8>::empty(), fds: 0, ..old(self)@ }),
            final(self)@.wf(),
    {
        iov::append_bytes(out, &self.buffer);
        self.buffer = Vec::new();
        *out_fds = *out_fds + self.fds;
        self.fds = 0;
    }

    /// Buffer a payload of byte buffers and descriptors, flushing first if it
    /// would overflow the buffer and bypassing the buffer entirely for a
    /// payload that could never fit. Whatever path is taken, the bytes the
    /// transport will observe are the old ones followed by the payload, in
    /// order; the three clauses below pin where the payload ends up: a
    /// payload that fits behind the buffered bytes stays buffered and
    /// nothing reaches the channel; one that fits only an emptied buffer
    /// flushes first and is then buffered; one at least a capacity long
    /// bypasses the buffer, which is left empty.
    pub fn write_buffered(&mut self, bufs: &Vec<Vec<u8>>, n_fds: u64, out: &mut Vec<u8>, out_fds: &mut u64)
        requires
            old(self)@.wf(),
            iov::total_len(bufs.deep_view()) + old(self)@.capacity <= usize::MAX,
            *old(out_fds) + old(self)@.fds + n_fds <= u64::MAX,
        ensures
            final(out)@ + final(self)@.bytes == old(out)@ + old(self)@.bytes
                + bufs.deep_view().flatten(),
            *final(out_fds) + final(self)@.fds == *old(out_fds) + old(self)@.fds + n_fds,
            final(self)@.corrupted == old(self)@.corrupted,
            final(self)@.capacity == old(self)@.capacity,
            final(self)@.wf(),
            (old(self)@.bytes.len() + iov::total_len(bufs.deep_view()) <= old(self)@.capacity
                && iov::total_len(bufs.deep_view()) < old(self)@.capacity) ==> {
                &&& final(out)@ == old(out)@
                &&& *final(out_fds) == *old(out_fds)
                &&& final(self)@.bytes == old(self)@.bytes + bufs.deep_view().flatten()
                &&& final(self)@.fds == old(self)@.fds + n_fds
            },
            (old(self)@.bytes.len() + iov::total_len(bufs.deep_view()) > old(self)@.capacity
                && iov::total_len(bufs.deep_view()) < old(self)@.capacity) ==> {
                &&& final(out)@ == old(out)@ + old(self)@.bytes
                &&& *final(out_fds) == *old(out_fds) + old(self)@.fds
                &&& final(self)@.bytes == bufs.deep_view().flatten()
                &&& final(self)@.fds == n_fds
            },
            (old(self)@.bytes.len() + iov::total_len(bufs.deep_view()) > old(self)@.capacity
                && iov::total_len(bufs.deep_view()) >= old(self)@.capacity) ==> {
                &&& final(out)@ == old(out)@ + old(self)@.bytes + bufs.deep_view().flatten()
                &&& *final(out_fds) == *old(out_fds) + old(self)@.fds + n_fds
                &&& final(self)@.bytes == Seq::<u8>::empty()
                &&& final(self)@.fds == 0
            },
            (old(self)@.bytes.len() + iov::total_len(bufs.deep_view()) <= old(self)@.capacity
                && iov::total_len(bufs.deep_view()) >= old(self)@.capacity) ==> {
                &&& final(out)@ == old(out)@ + bufs.deep_view().flatten()
                &&& *final(out_fds) == *old(out_fds) + n_fds
                &&& final(self)@.bytes == Seq::<u8>::empty()
                &&& final(self)@.fds == old(self)@.fds
            },
    {
        proof {
            iov::lemma_total_len_nonneg(bufs.deep_view());
            iov::lemma_flatten_len(bufs.deep_view());
        }
        let total = iov::buffers_total_len(bufs);

        // If the payload does not fit behind what is already buffered, hand
        // the buffered bytes to the transport first.
        if self.buffer.len() + total > self.capacity {
            self.flush_into(out, out_fds);
        }

        if total < self.capacity {
            // The payload fits in the (possibly just emptied) buffer.
            let ghost pre = self.buffer@;
            iov::append_all(&mut self.buffer, bufs);
            self.fds = self.fds + n_fds;
            proof {
                if pre.len() == 0 {
                    assert(self.buffer@ =~= bufs.deep_view().flatten());
                }
            }
        } else {
            // The payload could never fit: the buffer is empty now, stream
            // the payload directly.
            assert(self.buffer@ =~= Seq::<u8>::empty());
            iov::append_all(out, bufs);
            *out_fds = *out_fds + n_fds;
        }
    }

    /// Whether a holder abandoned the buffer mid-operation.
    pub fn is_corrupted(&self) -> (r: bool)
        ensures
            r == self@.corrupted,
    {
        self.corrupted
    }
}

} // verus!
