//! The connection: the request/reply multiplexing engine.
//!
//! The engine owns the write pipeline, the protocol core, the negotiation
//! state machines and the resource-id allocator. It is sans-I/O: dispatching
//! a request appends its encoded bytes to an outgoing channel that the
//! embedding driver drains to the transport, and replies arrive by the
//! driver feeding complete incoming packets back in. Waiting is therefore a
//! polling affair: an operation that the original protocol resolves with a
//! round trip reports "pending" until the driver has pumped the reply in.

use vstd::prelude::*;

use crate::errors::{ConnectError, ConnectionError, ReplyOrIdError};
use crate::extcache::{ExtensionCache, ExtensionInfo, ExtensionState};
use crate::idalloc::IdAllocator;
use crate::iov::total_len;
use crate::length::{big_request_encode, compute_length_field, wf_request};
use crate::proto::{
    proto_discard_reply, proto_enqueue_packet, proto_expected, proto_last_sent,
    proto_poll_check, proto_poll_for_event, proto_poll_for_reply, proto_poll_for_reply_or_error,
    proto_prepare_check, proto_new, proto_send_request, DiscardMode, PollReply, RequestKind,
};
use crate::requests;
use crate::setup::Setup;
use crate::writebuf::WriteBuffer;

verus! {

/// Payloads shorter than this are buffered; longer ones bypass the buffer.
pub const WRITE_BUFFER_CAPACITY: usize = 16384;

/// The tri-state record of big-request negotiation. It moves in one
/// direction only: `Unknown` until the first need, then `Requested` while
/// the enabling round trip is in flight (`None` when the extension is
/// absent and the handshake fallback will be used), then `Known` forever.
#[derive(Debug, Clone, Copy, PartialEq, Eq, Structural)]
pub enum MaxRequestBytes {
    /// Never queried.
    Unknown,
    /// A query is in flight under this sequence number, or the negotiating
    /// extension is absent.
    Requested(Option<u64>),
    /// Resolved: the connection's maximum request size in bytes.
    Known(usize),
}

/// A response to a request: a genuine reply, or the error it caused. The
/// two are told apart by the framing tag in the first byte: zero is an
/// error.
#[derive(Debug, PartialEq, Eq)]
pub enum ReplyOrError {
    /// A reply packet; its first byte is nonzero.
    Reply(Vec<u8>),
    /// An error packet; its first byte is zero.
    Error(Vec<u8>),
}

/// The concatenation of the logged requests' bytes, in log order.
pub open spec fn log_bytes(log: Seq<(u64, Seq<u8>)>) -> Seq<u8>
    decreases log.len(),
{
    if log.len() == 0 {
        Seq::empty()
    } else {
        log.first().1 + log_bytes(log.drop_first())
    }
}

/// Appending a request appends its bytes.
pub proof fn lemma_log_bytes_push(log: Seq<(u64, Seq<u8>)>, e: (u64, Seq<u8>))
    ensures
        log_bytes(log.push(e)) == log_bytes(log) + e.1,
    decreases log.len(),
{
    if log.len() == 0 {
        assert(log.push(e).drop_first() =~= Seq::<(u64, Seq<u8>)>::empty());
        assert(log_bytes(Seq::<(u64, Seq<u8>)>::empty()) == Seq::<u8>::empty());
        assert(log_bytes(log.push(e)) == log.push(e).first().1 + log_bytes(
            log.push(e).drop_first(),
        ));
        assert(log_bytes(log.push(e)) =~= log_bytes(log) + e.1);
    } else {
        assert(log.push(e).drop_first() =~= log.drop_first().push(e));
        lemma_log_bytes_push(log.drop_first(), e);
        assert(log_bytes(log.push(e)) =~= log_bytes(log) + e.1);
    }
}

/// Extending the log by one dispatched request extends the wire by exactly
/// that request's bytes, and keeps the sequence numbers strictly ascending.
proof fn lemma_log_extension(
    t0: Seq<u8>,
    ob0: Seq<u8>,
    b0: Seq<u8>,
    ob1: Seq<u8>,
    b1: Seq<u8>,
    log0: Seq<(u64, Seq<u8>)>,
    entry: (u64, Seq<u8>),
    last0: u64,
)
    requires
        ob1 + b1 == (ob0 + b0) + entry.1,
        t0 + ob0 + b0 == log_bytes(log0),
        seqs_ascending(log0),
        forall|i: int| 0 <= i < log0.len() ==> (#[trigger] log0[i]).0 <= last0,
        last0 < entry.0,
    ensures
        t0 + ob1 + b1 == log_bytes(log0.push(entry)),
        seqs_ascending(log0.push(entry)),
        forall|i: int| 0 <= i < log0.push(entry).len() ==> (#[trigger] log0.push(entry)[i]).0
            <= entry.0,
{
    lemma_log_bytes_push(log0, entry);
    assert(t0 + ((ob0 + b0) + entry.1) =~= (t0 + ob0 + b0) + entry.1);
    assert(t0 + ob1 + b1 =~= t0 + (ob1 + b1));
    assert(t0 + ob1 + b1 =~= (t0 + ob0 + b0) + entry.1);
    let log1 = log0.push(entry);
    assert forall|i: int, j: int| 0 <= i < j < log1.len() implies (#[trigger] log1[i]).0 < (
    #[trigger] log1[j]).0 by {
        if j == log1.len() - 1 {
            assert(log0[i].0 <= last0);
        }
    }
}

/// Whether two engine states answer alike to every observer: same wire
/// bytes, same dispatch log, same poisoning, same setup, same negotiation
/// state, same newest sequence number, same descriptor debt.
pub open spec fn obs_eq(a: RustConnection, b: RustConnection) -> bool {
    &&& a.wire() == b.wire()
    &&& a.dispatch_log() == b.dispatch_log()
    &&& a.poisoned() == b.poisoned()
    &&& a.setup_spec() == b.setup_spec()
    &&& a.max_bytes_spec() == b.max_bytes_spec()
    &&& a.last_issued_spec() == b.last_issued_spec()
    &&& a.fd_debt() == b.fd_debt()
    &&& a.ext_state_unchanged(b)
    &&& a.alloc_model() == b.alloc_model()
    &&& a.xid_pending_spec() == b.xid_pending_spec()
}

/// What a freshly established engine looks like: nothing dispatched, a
/// clean empty pipeline, the negotiation untouched, the extension cache
/// empty, no id-range request pending, and the resource-id allocator seeded
/// from the setup's base/mask range — the cursor at the base, the ceiling
/// at base-or-mask, the step the mask's lowest set bit, nothing issued.
pub open spec fn freshly_connected(c: RustConnection) -> bool {
    &&& c.wf()
    &&& !c.poisoned()
    &&& c.dispatch_log().len() == 0
    &&& c.wire() == Seq::<u8>::empty()
    &&& c.buffered_bytes() == Seq::<u8>::empty()
    &&& c.last_issued_spec() == 0
    &&& c.max_bytes_spec() == MaxRequestBytes::Unknown
    &&& c.fd_debt() == 0
    &&& c.extensions_view() == Seq::<(Vec<u8>, ExtensionState)>::empty()
    &&& (forall|name: Seq<u8>| c.ext_state(name) is None)
    &&& c.xid_pending_spec() is None
    &&& c.alloc_model().next_id == c.setup_spec().resource_id_base as int
    &&& c.alloc_model().max_id == (c.setup_spec().resource_id_base
        | c.setup_spec().resource_id_mask) as int
    &&& c.alloc_model().increment == (c.setup_spec().resource_id_mask & ((
    !c.setup_spec().resource_id_mask + 1) as u32)) as int
    &&& c.alloc_model().issued == Set::<u32>::empty()
}

/// Whether the log's sequence numbers are strictly ascending.
pub open spec fn seqs_ascending(log: Seq<(u64, Seq<u8>)>) -> bool {
    forall|i: int, j: int| 0 <= i < j < log.len() ==> log[i].0 < log[j].0
}

/// The encoded wire form of a request: unchanged when its word count fits
/// the 16-bit length field, reframed as a big request otherwise.
pub open spec fn encoded_wire(bufs: Seq<Seq<u8>>) -> Seq<u8> {
    if total_len(bufs) / 4 <= 0xffff {
        bufs.flatten()
    } else {
        big_request_encode(bufs).flatten()
    }
}

/// A connection to the server: the verified multiplexing engine.
pub struct RustConnection {
    /// The protocol core (external): sequence numbers and incoming queues.
    proto: x11rb_protocol::connection::Connection,
    /// The write pipeline.
    write_buffer: WriteBuffer,
    /// Bytes flushed but not yet taken by the driver.
    outbox: Vec<u8>,
    /// Descriptors accompanying the outbox bytes.
    outbox_fds: u64,
    /// Bytes the driver already took; the transport has observed them.
    transported: Ghost<Seq<u8>>,
    /// Every dispatched request: its sequence number and encoded bytes.
    log: Ghost<Seq<(u64, Seq<u8>)>>,
    /// The sequence number of the newest dispatched request.
    last_seq: u64,
    /// The setup record of the handshake.
    setup: Setup,
    /// Big-request negotiation state.
    max_request_bytes: MaxRequestBytes,
    /// The extension-information cache.
    extensions: ExtensionCache,
    /// The resource-id allocator.
    id_allocator: IdAllocator,
    /// The sequence number of an in-flight id-range request.
    xid_range_pending: Option<u64>,
}

impl RustConnection {
    /// The engine's invariant.
    pub closed spec fn wf(&self) -> bool {
        &&& self.write_buffer@.wf()
        &&& self.write_buffer@.capacity == WRITE_BUFFER_CAPACITY as int
        &&& proto_last_sent(self.proto) == self.last_seq
        &&& self.outbox_fds + self.write_buffer@.fds <= u64::MAX
        &&& seqs_ascending(self.log@)
        &&& (forall|i: int| 0 <= i < self.log@.len() ==> (#[trigger] self.log@[i]).0
            <= self.last_seq)
        &&& self.transported@ + self.outbox@ + self.write_buffer@.bytes == log_bytes(self.log@)
        &&& self.id_allocator@.wf()
    }

    /// Every byte the engine has produced, in transport order: what the
    /// driver already took, then the flushed outbox, then the write buffer.
    pub closed spec fn wire(&self) -> Seq<u8> {
        self.transported@ + self.outbox@ + self.write_buffer@.bytes
    }

    /// The dispatched requests: sequence number and encoded bytes, in order.
    pub closed spec fn dispatch_log(&self) -> Seq<(u64, Seq<u8>)> {
        self.log@
    }

    /// The newest sequence number handed out, 0 before the first request.
    pub closed spec fn last_issued_spec(&self) -> u64 {
        self.last_seq
    }

    /// Whether the write pipeline was poisoned by an abandoned holder.
    pub closed spec fn poisoned(&self) -> bool {
        self.write_buffer@.corrupted
    }

    /// Descriptors queued but not yet taken by the driver.
    pub closed spec fn fd_debt(&self) -> int {
        self.outbox_fds + self.write_buffer@.fds
    }

    /// The negotiation state of the maximum request size.
    pub closed spec fn max_bytes_spec(&self) -> MaxRequestBytes {
        self.max_request_bytes
    }

    /// The setup record.
    pub closed spec fn setup_spec(&self) -> Setup {
        self.setup
    }

    /// The resource-id allocator's model.
    pub closed spec fn alloc_model(&self) -> crate::idalloc::IdAllocatorModel {
        self.id_allocator@
    }

    /// The sequence number of an in-flight id-range request, if any.
    pub closed spec fn xid_pending_spec(&self) -> Option<u64> {
        self.xid_range_pending
    }

    /// What the engine knows about the extension called `name`.
    pub closed spec fn ext_state(&self, name: Seq<u8>) -> Option<ExtensionState> {
        crate::extcache::lookup(self.extensions@, name)
    }

    /// The extension cache's entries.
    pub closed spec fn extensions_view(&self) -> Seq<(Vec<u8>, ExtensionState)> {
        self.extensions@
    }

    /// Establish the engine over an already connected, already handshaken
    /// stream: the driver keeps the transport, the engine keeps the setup.
    /// Fails exactly when the server advertised a zero resource-id mask.
    pub fn for_connected_stream(setup: Setup) -> (r: Result<RustConnection, ConnectError>)
        ensures
            match r {
                Ok(c) => {
                    &&& setup.resource_id_mask != 0
                    &&& c.setup_spec() == setup
                    &&& freshly_connected(c)
                },
                Err(e) => setup.resource_id_mask == 0 && e == ConnectError::ZeroIdMask,
            },
    {
        let id_allocator = match IdAllocator::new(setup.resource_id_base, setup.resource_id_mask) {
            Ok(a) => a,
            Err(e) => {
                return Err(e);
            },
        };
        let c = RustConnection {
            proto: proto_new(),
            write_buffer: WriteBuffer::with_capacity(WRITE_BUFFER_CAPACITY),
            outbox: Vec::new(),
            outbox_fds: 0,
            transported: Ghost(Seq::empty()),
            log: Ghost(Seq::empty()),
            last_seq: 0,
            setup,
            max_request_bytes: MaxRequestBytes::Unknown,
            extensions: ExtensionCache::new(),
            id_allocator,
            xid_range_pending: None,
        };
        proof {
            assert(c.wire() =~= log_bytes(c.log@));
            assert(c.wire() =~= Seq::<u8>::empty());
            assert forall|name: Seq<u8>| c.ext_state(name) is None by {
                assert(crate::extcache::lookup(c.extensions@, name) is None);
            }
        }
        Ok(c)
    }

    /// The setup record of the handshake.
    pub fn setup(&self) -> (r: &Setup)
        ensures
            *r == self.setup_spec(),
    {
        &self.setup
    }

    /// The newest sequence number the engine has dispatched.
    pub fn last_issued(&self) -> (r: u64)
        ensures
            r == self.last_issued_spec(),
    {
        self.last_seq
    }

    /// Dispatch one request: obtain a sequence number from the protocol
    /// core and put exactly the request's encoded bytes behind every
    /// previously dispatched request. When the core refuses a number (its
    /// pending-reply table is full), one synchronizing request is dispatched
    /// first and the request is retried, which provably succeeds.
    ///
    /// A request longer than the unextended protocol limit may be dispatched
    /// only once the maximum request size is known
    /// (`max_request_bytes_cached`); drive `poll_maximum_request_bytes` to
    /// completion first.
    pub fn send_request(&mut self, bufs: Vec<Vec<u8>>, n_fds: u64, kind: RequestKind) -> (r:
        Result<u64, ConnectionError>)
        requires
            old(self).wf(),
            wf_request(bufs.deep_view()),
            total_len(bufs.deep_view()) + 4 + WRITE_BUFFER_CAPACITY <= usize::MAX,
            total_len(bufs.deep_view()) / 4 + 1 <= u32::MAX,
            total_len(bufs.deep_view()) / 4 > 0xffff ==> old(self).max_bytes_spec() is Known,
            old(self).fd_debt() + n_fds <= u64::MAX,
        ensures
            final(self).wf(),
            final(self).setup_spec() == old(self).setup_spec(),
            final(self).max_bytes_spec() == old(self).max_bytes_spec(),
            final(self).ext_state_unchanged(*old(self)),
            final(self).alloc_model() == old(self).alloc_model(),
            final(self).xid_pending_spec() == old(self).xid_pending_spec(),
            final(self).poisoned() == old(self).poisoned(),
            old(self).poisoned() ==> r is Err,
            match r {
                Ok(seq) => {
                    &&& seq == final(self).last_issued_spec()
                    &&& old(self).last_issued_spec() < seq
                    &&& !final(self).poisoned()
                    &&& final(self).fd_debt() == old(self).fd_debt() + n_fds
                    &&& ({
                        let l0 = old(self).dispatch_log();
                        let l1 = final(self).dispatch_log();
                        let enc = encoded_wire(bufs.deep_view());
                        ||| l1 == l0.push((seq, enc))
                        ||| {
                            &&& l1.len() == l0.len() + 2
                            &&& l1 == l0.push(l1[l0.len() as int]).push((seq, enc))
                            &&& l1[l0.len() as int].1 == requests::sync_request_bytes()
                            &&& l1[l0.len() as int].0 < seq
                        }
                    })
                    // Exactly one synchronizing request is dispatched first,
                    // exactly when the core refused the sequence number.
                    &&& (final(self).dispatch_log().len() == old(self).dispatch_log().len() + 2
                        <==> (kind is NoReply && proto_expected(old(self).proto_spec()) + 0xfffe
                        <= proto_last_sent(old(self).proto_spec())))
                },
                Err(e) => {
                    &&& obs_eq(*final(self), *old(self))
                    &&& (e == ConnectionError::MaximumRequestLengthExceeded || (
                    e == ConnectionError::WriteBufferCorrupted && old(self).poisoned()))
                    &&& (e == ConnectionError::MaximumRequestLengthExceeded ==> total_len(
                        bufs.deep_view(),
                    ) / 4 > 0xffff)
                },
            },
    {
        let ghost bd = bufs.deep_view();

        // Compute the wire length encoding first: a reframed request is what
        // actually consumes the sequence number.
        let max_bytes = match self.max_request_bytes {
            MaxRequestBytes::Known(n) => n,
            _ => usize::MAX,
        };
        let enc = match compute_length_field(bufs, max_bytes) {
            Ok(enc) => enc,
            Err(e) => {
                return Err(e);
            },
        };

        // Take the exclusive right to write to the transport.
        if let Err(e) = self.write_buffer.acquire() {
            return Err(e);
        }

        let seq = match proto_send_request(&mut self.proto, kind) {
            Some(seq) => seq,
            None => {
                // Backpressure: the core could not track one more untracked
                // request. Send one synchronizing request, whose reply is
                // discarded, to let the server catch up; the retry is then
                // provably granted.
                self.send_sync_locked();
                match proto_send_request(&mut self.proto, kind) {
                    Some(seq) => seq,
                    None => {
                        // Provably granted: the synchronizing request moved
                        // the expected-reply counter up to the send counter.
                        vstd::pervasive::unreached()
                    },
                }
            },
        };

        // Put the request's bytes behind everything dispatched before it,
        // under the same hold of the pipeline that issued the number.
        let ghost t0 = self.transported@;
        let ghost ob0 = self.outbox@;
        let ghost b0 = self.write_buffer@.bytes;
        let ghost log0 = self.log@;
        let ghost last0 = self.last_seq;
        self.write_buffer.write_buffered(&enc, n_fds, &mut self.outbox, &mut self.outbox_fds);
        self.last_seq = seq;
        proof {
            let entry = (seq, encoded_wire(bd));
            assert(entry.1 == enc.deep_view().flatten());
            lemma_log_extension(
                t0,
                ob0,
                b0,
                self.outbox@,
                self.write_buffer@.bytes,
                log0,
                entry,
                last0,
            );
            self.log@ = log0.push(entry);
        }
        self.write_buffer.release();
        Ok(seq)
    }

    /// Dispatch a request that expects a reply; the returned sequence number
    /// correlates the reply when it arrives.
    pub fn send_request_with_reply(&mut self, bufs: Vec<Vec<u8>>, n_fds: u64) -> (r: Result<
        u64,
        ConnectionError,
    >)
        requires
            old(self).wf(),
            wf_request(bufs.deep_view()),
            total_len(bufs.deep_view()) + 4 + WRITE_BUFFER_CAPACITY <= usize::MAX,
            total_len(bufs.deep_view()) / 4 + 1 <= u32::MAX,
            total_len(bufs.deep_view()) / 4 > 0xffff ==> old(self).max_bytes_spec() is Known,
            old(self).fd_debt() + n_fds <= u64::MAX,
        ensures
            final(self).wf(),
            final(self).setup_spec() == old(self).setup_spec(),
            final(self).max_bytes_spec() == old(self).max_bytes_spec(),
            final(self).poisoned() == old(self).poisoned(),
            old(self).poisoned() ==> r is Err,
            r is Ok ==> r->Ok_0 == final(self).last_issued_spec() && old(self).last_issued_spec()
                < r->Ok_0 && final(self).fd_debt() == old(self).fd_debt() + n_fds,
            // Dispatch errors propagate unchanged: the same two failures as
            // the dispatcher's, with the engine untouched.
            r is Err ==> obs_eq(*final(self), *old(self)) && (r->Err_0
                == ConnectionError::MaximumRequestLengthExceeded || (r->Err_0
                == ConnectionError::WriteBufferCorrupted && old(self).poisoned())) && (r->Err_0
                == ConnectionError::MaximumRequestLengthExceeded ==> total_len(bufs.deep_view())
                / 4 > 0xffff),
    {
        self.send_request(bufs, n_fds, RequestKind::ReplyWithoutFds)
    }

    /// Dispatch a request that has no reply; the returned sequence number
    /// can still be checked for an error.
    pub fn send_request_without_reply(&mut self, bufs: Vec<Vec<u8>>, n_fds: u64) -> (r: Result<
        u64,
        ConnectionError,
    >)
        requires
            old(self).wf(),
            wf_request(bufs.deep_view()),
            total_len(bufs.deep_view()) + 4 + WRITE_BUFFER_CAPACITY <= usize::MAX,
            total_len(bufs.deep_view()) / 4 + 1 <= u32::MAX,
            total_len(bufs.deep_view()) / 4 > 0xffff ==> old(self).max_bytes_spec() is Known,
            old(self).fd_debt() + n_fds <= u64::MAX,
        ensures
            final(self).wf(),
            final(self).setup_spec() == old(self).setup_spec(),
            final(self).max_bytes_spec() == old(self).max_bytes_spec(),
            final(self).poisoned() == old(self).poisoned(),
            old(self).poisoned() ==> r is Err,
            r is Ok ==> r->Ok_0 == final(self).last_issued_spec() && old(self).last_issued_spec()
                < r->Ok_0 && final(self).fd_debt() == old(self).fd_debt() + n_fds,
            // Dispatch errors propagate unchanged: the same two failures as
            // the dispatcher's, with the engine untouched.
            r is Err ==> obs_eq(*final(self), *old(self)) && (r->Err_0
                == ConnectionError::MaximumRequestLengthExceeded || (r->Err_0
                == ConnectionError::WriteBufferCorrupted && old(self).poisoned())) && (r->Err_0
                == ConnectionError::MaximumRequestLengthExceeded ==> total_len(bufs.deep_view())
                / 4 > 0xffff),
    {
        self.send_request(bufs, n_fds, RequestKind::NoReply)
    }

    /// Dispatch the synchronizing request — minimal, reply-carrying,
    /// dependency-free — and discard its reply and error. The write pipeline
    /// is already held.
    fn send_sync_locked(&mut self)
        requires
            old(self).wf(),
            old(self).fd_debt() <= u64::MAX,
        ensures
            final(self).wf(),
            final(self).setup_spec() == old(self).setup_spec(),
            final(self).max_bytes_spec() == old(self).max_bytes_spec(),
            final(self).write_buffer@.corrupted == old(self).write_buffer@.corrupted,
            final(self).fd_debt() == old(self).fd_debt(),
            final(self).transported@ == old(self).transported@,
            final(self).last_issued_spec() == old(self).last_issued_spec() + 1,
            proto_expected(final(self).proto_spec()) == final(self).last_issued_spec(),
            final(self).dispatch_log() == old(self).dispatch_log().push(
                (final(self).last_issued_spec(), requests::sync_request_bytes()),
            ),
            final(self).extensions_view() == old(self).extensions_view(),
            final(self).xid_range_pending == old(self).xid_range_pending,
            final(self).id_allocator@ == old(self).id_allocator@,
    {
        let sync = requests::get_input_focus_request();
        let seq = match proto_send_request(&mut self.proto, RequestKind::ReplyWithoutFds) {
            Some(seq) => seq,
            None => {
                // Provably granted: a request with a reply is never refused.
                vstd::pervasive::unreached()
            },
        };
        proto_discard_reply(&mut self.proto, seq, DiscardMode::DiscardReplyAndError);
        let ghost t0 = self.transported@;
        let ghost ob0 = self.outbox@;
        let ghost b0 = self.write_buffer@.bytes;
        let ghost log0 = self.log@;
        let ghost last0 = self.last_seq;
        self.write_buffer.write_buffered(&sync, 0, &mut self.outbox, &mut self.outbox_fds);
        self.last_seq = seq;
        proof {
            sync.deep_view().lemma_flatten_one_element();
            let entry = (seq, requests::sync_request_bytes());
            assert(entry.1 == sync.deep_view().flatten());
            lemma_log_extension(
                t0,
                ob0,
                b0,
                self.outbox@,
                self.write_buffer@.bytes,
                log0,
                entry,
                last0,
            );
            self.log@ = log0.push(entry);
        }
    }

    /// The protocol core's state, for contracts of this module.
    pub closed spec fn proto_spec(&self) -> x11rb_protocol::connection::Connection {
        self.proto
    }

    /// Whether the extension cache answers alike for every name.
    pub open spec fn ext_state_unchanged(&self, other: RustConnection) -> bool {
        forall|name: Seq<u8>| self.ext_state(name) == other.ext_state(name)
    }

    /// Flush the write pipeline: everything buffered moves to the outgoing
    /// channel. Fails exactly when the pipeline is poisoned.
    pub fn flush(&mut self) -> (r: Result<(), ConnectionError>)
        requires
            old(self).wf(),
        ensures
            final(self).wf(),
            final(self).wire() == old(self).wire(),
            final(self).dispatch_log() == old(self).dispatch_log(),
            final(self).setup_spec() == old(self).setup_spec(),
            final(self).max_bytes_spec() == old(self).max_bytes_spec(),
            final(self).last_issued_spec() == old(self).last_issued_spec(),
            final(self).ext_state_unchanged(*old(self)),
            final(self).alloc_model() == old(self).alloc_model(),
            final(self).xid_pending_spec() == old(self).xid_pending_spec(),
            final(self).poisoned() == old(self).poisoned(),
            match r {
                Ok(()) => !old(self).poisoned() && !final(self).poisoned()
                    && final(self).buffered_bytes() == Seq::<u8>::empty(),
                Err(e) => e == ConnectionError::WriteBufferCorrupted && old(self).poisoned()
                    && obs_eq(*final(self), *old(self)),
            },
    {
        if let Err(e) = self.write_buffer.acquire() {
            return Err(e);
        }
        self.write_buffer.flush_into(&mut self.outbox, &mut self.outbox_fds);
        self.write_buffer.release();
        proof {
            assert(self.wire() =~= old(self).wire());
        }
        Ok(())
    }

    /// The bytes held in the write pipeline, not yet flushed.
    pub closed spec fn buffered_bytes(&self) -> Seq<u8> {
        self.write_buffer@.bytes
    }

    /// Take the outgoing bytes and the count of descriptors that accompany
    /// them; the driver writes them to the transport, in this order, before
    /// anything later.
    pub fn take_output(&mut self) -> (r: (Vec<u8>, u64))
        requires
            old(self).wf(),
        ensures
            final(self).wf(),
            r.0@ == old(self).outbox_view(),
            r.1 == old(self).outbox_fds_view(),
            final(self).wire() == old(self).wire(),
            final(self).dispatch_log() == old(self).dispatch_log(),
            final(self).transported_view() == old(self).transported_view() + r.0@,
            final(self).outbox_view() == Seq::<u8>::empty(),
            final(self).outbox_fds_view() == 0,
            final(self).setup_spec() == old(self).setup_spec(),
            final(self).max_bytes_spec() == old(self).max_bytes_spec(),
            final(self).poisoned() == old(self).poisoned(),
    {
        let mut out: Vec<u8> = Vec::new();
        core::mem::swap(&mut out, &mut self.outbox);
        let fds = self.outbox_fds;
        self.outbox_fds = 0;
        proof {
            self.transported@ = self.transported@ + out@;
            assert(self.wire() =~= old(self).wire());
        }
        (out, fds)
    }

    /// The bytes the driver already took from the engine.
    pub closed spec fn transported_view(&self) -> Seq<u8> {
        self.transported@
    }

    /// The bytes flushed but not yet taken by the driver.
    pub closed spec fn outbox_view(&self) -> Seq<u8> {
        self.outbox@
    }

    /// The descriptors that accompany the outbox.
    pub closed spec fn outbox_fds_view(&self) -> u64 {
        self.outbox_fds
    }

    /// Feed one complete incoming packet — a reply, error or event, at least
    /// the protocol's fixed 32 bytes long — to the protocol core.
    pub fn enqueue_packet(&mut self, packet: Vec<u8>)
        requires
            old(self).wf(),
            packet@.len() >= 32,
        ensures
            final(self).wf(),
            final(self).wire() == old(self).wire(),
            final(self).dispatch_log() == old(self).dispatch_log(),
            final(self).setup_spec() == old(self).setup_spec(),
            final(self).max_bytes_spec() == old(self).max_bytes_spec(),
            final(self).last_issued_spec() == old(self).last_issued_spec(),
            final(self).poisoned() == old(self).poisoned(),
            final(self).ext_state_unchanged(*old(self)),
            final(self).alloc_model() == old(self).alloc_model(),
            final(self).xid_pending_spec() == old(self).xid_pending_spec(),
    {
        proto_enqueue_packet(&mut self.proto, packet);
    }

    /// Ignore the outcome of a previously dispatched request.
    pub fn discard_reply(&mut self, sequence: u64, mode: DiscardMode)
        requires
            old(self).wf(),
        ensures
            final(self).wf(),
            obs_eq(*final(self), *old(self)),
    {
        proto_discard_reply(&mut self.proto, sequence, mode);
    }

    /// Poll for the reply or the error of the request with this sequence
    /// number. The request is flushed to the outgoing channel first. The two
    /// outcomes are told apart by the framing tag in the first response
    /// byte: zero is an error, nonzero a reply.
    pub fn poll_for_reply_or_raw_error(&mut self, sequence: u64) -> (r: Result<
        Option<ReplyOrError>,
        ConnectionError,
    >)
        requires
            old(self).wf(),
        ensures
            final(self).wf(),
            final(self).wire() == old(self).wire(),
            final(self).dispatch_log() == old(self).dispatch_log(),
            final(self).setup_spec() == old(self).setup_spec(),
            final(self).max_bytes_spec() == old(self).max_bytes_spec(),
            final(self).last_issued_spec() == old(self).last_issued_spec(),
            final(self).ext_state_unchanged(*old(self)),
            final(self).alloc_model() == old(self).alloc_model(),
            final(self).xid_pending_spec() == old(self).xid_pending_spec(),
            final(self).poisoned() == old(self).poisoned(),
            !old(self).poisoned() ==> r is Ok,
            r is Ok ==> final(self).buffered_bytes() == Seq::<u8>::empty(),
            match r {
                Ok(Some(ReplyOrError::Error(b))) => b@.len() >= 1 && b@[0] == 0,
                Ok(Some(ReplyOrError::Reply(b))) => b@.len() >= 1 && b@[0] != 0,
                Ok(None) => true,
                Err(e) => e == ConnectionError::WriteBufferCorrupted && old(self).poisoned(),
            },
    {
        // Make sure the request actually reached the outgoing channel.
        if let Err(e) = self.flush() {
            return Err(e);
        }
        match proto_poll_for_reply_or_error(&mut self.proto, sequence) {
            None => Ok(None),
            Some(buf) => {
                if buf[0] == 0 {
                    Ok(Some(ReplyOrError::Error(buf)))
                } else {
                    Ok(Some(ReplyOrError::Reply(buf)))
                }
            },
        }
    }

    /// Poll for the reply of the request with this sequence number; an error
    /// response is routed to the event queue and reported as `NoReply`. The
    /// request is flushed to the outgoing channel first.
    pub fn poll_for_reply(&mut self, sequence: u64) -> (r: Result<PollReply, ConnectionError>)
        requires
            old(self).wf(),
        ensures
            final(self).wf(),
            final(self).wire() == old(self).wire(),
            final(self).dispatch_log() == old(self).dispatch_log(),
            final(self).setup_spec() == old(self).setup_spec(),
            final(self).max_bytes_spec() == old(self).max_bytes_spec(),
            final(self).last_issued_spec() == old(self).last_issued_spec(),
            final(self).ext_state_unchanged(*old(self)),
            final(self).alloc_model() == old(self).alloc_model(),
            final(self).xid_pending_spec() == old(self).xid_pending_spec(),
            final(self).poisoned() == old(self).poisoned(),
            !old(self).poisoned() ==> r is Ok,
            r is Ok ==> final(self).buffered_bytes() == Seq::<u8>::empty(),
            match r {
                Ok(PollReply::Reply(b)) => b@.len() >= 1 && b@[0] != 0,
                Ok(_) => true,
                Err(e) => e == ConnectionError::WriteBufferCorrupted && old(self).poisoned(),
            },
    {
        if let Err(e) = self.flush() {
            return Err(e);
        }
        Ok(proto_poll_for_reply(&mut self.proto, sequence))
    }

    /// Poll for whether the request with this sequence number failed: its
    /// error packet, or certainty that no response will come. When the
    /// protocol core cannot prove yet that the request was processed, one
    /// synchronizing request is dispatched first, after which the check
    /// provably succeeds. Everything is flushed before polling.
    pub fn check_for_raw_error(&mut self, sequence: u64) -> (r: Result<PollReply, ConnectionError>)
        requires
            old(self).wf(),
            sequence <= old(self).last_issued_spec(),
        ensures
            final(self).wf(),
            final(self).setup_spec() == old(self).setup_spec(),
            final(self).max_bytes_spec() == old(self).max_bytes_spec(),
            final(self).ext_state_unchanged(*old(self)),
            final(self).alloc_model() == old(self).alloc_model(),
            final(self).xid_pending_spec() == old(self).xid_pending_spec(),
            final(self).poisoned() == old(self).poisoned(),
            !old(self).poisoned() ==> r is Ok,
            r is Ok ==> final(self).buffered_bytes() == Seq::<u8>::empty(),
            // One synchronizing request goes out exactly when the core could
            // not yet account for this sequence number; otherwise nothing is
            // dispatched.
            (r is Ok && proto_expected(old(self).proto_spec()) < sequence) ==> {
                &&& final(self).dispatch_log() == old(self).dispatch_log().push(
                    (
                        ((old(self).last_issued_spec() + 1) as u64),
                        requests::sync_request_bytes(),
                    ),
                )
                &&& final(self).last_issued_spec() == old(self).last_issued_spec() + 1
            },
            (r is Ok && proto_expected(old(self).proto_spec()) >= sequence) ==> {
                &&& final(self).dispatch_log() == old(self).dispatch_log()
                &&& final(self).last_issued_spec() == old(self).last_issued_spec()
            },
            r is Err ==> final(self).dispatch_log() == old(self).dispatch_log(),
            match r {
                Ok(_) => true,
                Err(e) => e == ConnectionError::WriteBufferCorrupted && old(self).poisoned(),
            },
    {
        if let Err(e) = self.write_buffer.acquire() {
            return Err(e);
        }
        if proto_prepare_check(&mut self.proto, sequence) {
            // Force server-side ordering with one synchronizing request;
            // afterwards a response with a later sequence number is owed, so
            // the check below is certain to settle.
            self.send_sync_locked();
            let again = proto_prepare_check(&mut self.proto, sequence);
            proof {
                assert(!again);
            }
        }
        self.write_buffer.flush_into(&mut self.outbox, &mut self.outbox_fds);
        self.write_buffer.release();
        proof {
            assert(self.wire() =~= log_bytes(self.log@));
        }
        Ok(proto_poll_check(&mut self.proto, sequence))
    }

    /// Take the oldest undelivered event, with its sequence number.
    pub fn poll_for_raw_event_with_sequence(&mut self) -> (r: Option<(Vec<u8>, u64)>)
        requires
            old(self).wf(),
        ensures
            final(self).wf(),
            obs_eq(*final(self), *old(self)),
    {
        proto_poll_for_event(&mut self.proto)
    }

    /// Start resolving an extension's presence and opcode, without waiting:
    /// a name never asked about gets its presence query dispatched and is
    /// recorded as pending; anything already known is left untouched.
    pub fn prefetch_extension_information(&mut self, name: Vec<u8>) -> (r: Result<
        (),
        ConnectionError,
    >)
        requires
            old(self).wf(),
            name@.len() <= 0xfffc,
        ensures
            final(self).wf(),
            final(self).setup_spec() == old(self).setup_spec(),
            final(self).max_bytes_spec() == old(self).max_bytes_spec(),
            final(self).alloc_model() == old(self).alloc_model(),
            final(self).xid_pending_spec() == old(self).xid_pending_spec(),
            final(self).poisoned() == old(self).poisoned(),
            forall|other: Seq<u8>| other != name@ ==> final(self).ext_state(other) == old(
                self,
            ).ext_state(other),
            match r {
                Ok(()) => {
                    &&& final(self).ext_state(name@) is Some
                    &&& (old(self).ext_state(name@) is Some ==> final(self).ext_state(name@)
                        == old(self).ext_state(name@) && final(self).dispatch_log() == old(
                        self,
                    ).dispatch_log())
                    // A fresh name gets exactly the presence query
                    // dispatched: the newest log entry carries its bytes,
                    // and the recorded pending state carries its sequence
                    // number.
                    &&& (old(self).ext_state(name@) is None ==> {
                        &&& final(self).ext_state(name@) == Some(
                            ExtensionState::Pending(final(self).last_issued_spec()),
                        )
                        &&& old(self).last_issued_spec() < final(self).last_issued_spec()
                        &&& final(self).dispatch_log().len() >= old(self).dispatch_log().len()
                            + 1
                        &&& final(self).dispatch_log().last() == (
                        final(self).last_issued_spec(), requests::query_extension_request_bytes(
                            name@,
                        ))
                    })
                },
                Err(e) => final(self).ext_state(name@) == old(self).ext_state(name@) && (e
                    == ConnectionError::WriteBufferCorrupted && old(self).poisoned()),
            },
    {
        match self.extensions.get(&name) {
            Some(_) => Ok(()),
            None => {
                let req = requests::query_extension_request(&name);
                let ghost qb = requests::query_extension_request_bytes(name@);
                proof {
                    assert(req.deep_view() =~= seq![qb]);
                    seq![qb].lemma_flatten_one_element();
                    assert(encoded_wire(req.deep_view()) == qb);
                }
                let seq = match self.send_request(req, 0, RequestKind::ReplyWithoutFds) {
                    Ok(seq) => seq,
                    Err(e) => {
                        proof {
                            assert(e != ConnectionError::MaximumRequestLengthExceeded);
                        }
                        return Err(e);
                    },
                };
                self.extensions.set(name, ExtensionState::Pending(seq));
                Ok(())
            },
        }
    }

    /// The cached presence information of the extension called `name`:
    /// `Ok(Some(info))` once resolved (`info` is `None` when the server
    /// lacks the extension), `Ok(None)` while the presence query is in
    /// flight — feed incoming packets and poll again. A name never asked
    /// about gets its query dispatched. A resolved name answers from the
    /// cache alone, with no further round trip, forever.
    pub fn extension_information(&mut self, name: Vec<u8>) -> (r: Result<
        Option<Option<ExtensionInfo>>,
        ConnectionError,
    >)
        requires
            old(self).wf(),
            name@.len() <= 0xfffc,
        ensures
            final(self).wf(),
            final(self).setup_spec() == old(self).setup_spec(),
            final(self).max_bytes_spec() == old(self).max_bytes_spec(),
            final(self).alloc_model() == old(self).alloc_model(),
            final(self).xid_pending_spec() == old(self).xid_pending_spec(),
            final(self).poisoned() == old(self).poisoned(),
            forall|other: Seq<u8>| other != name@ ==> final(self).ext_state(other) == old(
                self,
            ).ext_state(other),
            // A name never asked about gets its query dispatched and is owed
            // a pending answer.
            (old(self).ext_state(name@) is None && !old(self).poisoned()) ==> r == Ok::<
                Option<Option<ExtensionInfo>>,
                ConnectionError,
            >(None),
            // A pending name awaits its in-flight query: no duplicate is
            // ever dispatched.
            !(old(self).ext_state(name@) is None) ==> final(self).dispatch_log() == old(
                self,
            ).dispatch_log(),
            (match old(self).ext_state(name@) {
                Some(ExtensionState::Resolved(i)) => r == Ok::<
                    Option<Option<ExtensionInfo>>,
                    ConnectionError,
                >(Some(i)) && obs_eq(*final(self), *old(self)),
                _ => true,
            }),
            match r {
                Ok(Some(i)) => final(self).ext_state(name@) == Some(
                    ExtensionState::Resolved(i),
                ),
                Ok(None) => final(self).ext_state(name@) matches Some(ExtensionState::Pending(_)),
                Err(e) => (e == ConnectionError::ParseError && old(self).ext_state(name@)
                    matches Some(ExtensionState::Pending(_))) || (e
                    == ConnectionError::WriteBufferCorrupted && old(self).poisoned()),
            },
    {
        let state = self.extensions.get(&name);
        match state {
            None => {
                let r = self.prefetch_extension_information(name);
                match r {
                    Ok(()) => Ok(None),
                    Err(e) => Err(e),
                }
            },
            Some(ExtensionState::Resolved(info)) => Ok(Some(info)),
            Some(ExtensionState::Pending(seq)) => {
                if let Err(e) = self.flush() {
                    return Err(e);
                }
                match proto_poll_for_reply(&mut self.proto, seq) {
                    PollReply::TryAgain => Ok(None),
                    PollReply::NoReply => {
                        // The query itself failed; the server cannot name
                        // the extension, treat it as absent.
                        self.extensions.set(name, ExtensionState::Resolved(None));
                        Ok(Some(None))
                    },
                    PollReply::Reply(buf) => {
                        match requests::parse_query_extension_reply(&buf) {
                            None => Err(ConnectionError::ParseError),
                            Some((present, major_opcode, first_event, first_error)) => {
                                let info = if present {
                                    Some(
                                        ExtensionInfo {
                                            major_opcode,
                                            first_event,
                                            first_error,
                                        },
                                    )
                                } else {
                                    None
                                };
                                self.extensions.set(name, ExtensionState::Resolved(info));
                                Ok(Some(info))
                            },
                        }
                    },
                }
            },
        }
    }
    /// The negotiated maximum request size, if it is already known. Useful
    /// before dispatching a request that may need big-request framing.
    pub fn max_request_bytes_cached(&self) -> (r: Option<usize>)
        ensures
            r is Some <==> self.max_bytes_spec() is Known,
            match r {
                Some(n) => self.max_bytes_spec() == MaxRequestBytes::Known(n),
                None => true,
            },
    {
        match self.max_request_bytes {
            MaxRequestBytes::Known(n) => Some(n),
            _ => None,
        }
    }

    /// Start resolving the maximum request size without waiting: on first
    /// need, resolve the big-request extension's presence (itself a round
    /// trip) and then dispatch its enabling request; the reply's sequence
    /// number is remembered so that every later caller awaits the same
    /// in-flight resolution instead of re-issuing the query. A `Known` value
    /// is never touched again.
    pub fn prefetch_maximum_request_bytes(&mut self) -> (r: Result<(), ConnectionError>)
        requires
            old(self).wf(),
        ensures
            final(self).wf(),
            final(self).setup_spec() == old(self).setup_spec(),
            // On an already-started negotiation nothing happens at all: no
            // request is re-issued, the in-flight resolution is shared.
            !(old(self).max_bytes_spec() is Unknown) ==> obs_eq(*final(self), *old(self)) && r
                is Ok,
            final(self).alloc_model() == old(self).alloc_model(),
            final(self).xid_pending_spec() == old(self).xid_pending_spec(),
            final(self).poisoned() == old(self).poisoned(),
            match r {
                Ok(()) => true,
                Err(e) => (e == ConnectionError::ParseError || e
                    == ConnectionError::WriteBufferCorrupted) && (e
                    == ConnectionError::WriteBufferCorrupted ==> old(self).poisoned()),
            },
            // The negotiation makes progress on every clean call: it either
            // left Unknown, or the presence query of the negotiating
            // extension is at least recorded (pending or answered).
            (old(self).max_bytes_spec() is Unknown && r is Ok)
                ==> (!(final(self).max_bytes_spec() is Unknown)
                || final(self).ext_state(requests::big_requests_name_spec()) is Some),
    {
        match self.max_request_bytes {
            MaxRequestBytes::Unknown => {
                let name = requests::big_requests_name();
                match self.extension_information(name) {
                    Err(e) => Err(e),
                    Ok(None) => {
                        // The presence query is still in flight; stay
                        // `Unknown` and make progress on the next poll.
                        Ok(())
                    },
                    Ok(Some(None)) => {
                        // The extension is absent: no query can be sent, the
                        // handshake fallback will resolve the value.
                        self.max_request_bytes = MaxRequestBytes::Requested(None);
                        Ok(())
                    },
                    Ok(Some(Some(info))) => {
                        let req = requests::plain_extension_request(info.major_opcode, 0);
                        match self.send_request(req, 0, RequestKind::ReplyWithoutFds) {
                            Err(e) => {
                                proof {
                                    assert(e != ConnectionError::MaximumRequestLengthExceeded);
                                }
                                Err(e)
                            },
                            Ok(seq) => {
                                self.max_request_bytes = MaxRequestBytes::Requested(Some(seq));
                                Ok(())
                            },
                        }
                    },
                }
            },
            _ => Ok(()),
        }
    }

    /// The connection's maximum request size in bytes: `Ok(Some(n))` once
    /// resolved, `Ok(None)` while a round trip is in flight — feed incoming
    /// packets and poll again. Once the record is `Known(n)`, every future
    /// query returns that same `n` without any further round trip and
    /// without touching the connection.
    pub fn poll_maximum_request_bytes(&mut self) -> (r: Result<Option<usize>, ConnectionError>)
        requires
            old(self).wf(),
        ensures
            final(self).wf(),
            final(self).setup_spec() == old(self).setup_spec(),
            final(self).alloc_model() == old(self).alloc_model(),
            final(self).xid_pending_spec() == old(self).xid_pending_spec(),
            final(self).poisoned() == old(self).poisoned(),
            (match old(self).max_bytes_spec() {
                MaxRequestBytes::Known(n) => r == Ok::<Option<usize>, ConnectionError>(Some(n))
                    && obs_eq(*final(self), *old(self)),
                _ => true,
            }),
            // While a negotiation is already started, no duplicate query is
            // ever dispatched: the same in-flight resolution is awaited.
            !(old(self).max_bytes_spec() is Unknown) ==> final(self).dispatch_log() == old(
                self,
            ).dispatch_log(),
            // With the negotiating extension absent, the value is exactly the
            // handshake fallback: the advertised word count, in bytes, with
            // no request dispatched.
            old(self).max_bytes_spec() == MaxRequestBytes::Requested(None::<u64>) ==> {
                &&& r == Ok::<Option<usize>, ConnectionError>(
                    Some((old(self).setup_spec().maximum_request_length * 4) as usize),
                )
                &&& final(self).dispatch_log() == old(self).dispatch_log()
            },
            match r {
                Ok(Some(n)) => final(self).max_bytes_spec() == MaxRequestBytes::Known(n),
                Ok(None) => !(final(self).max_bytes_spec() is Known),
                Err(e) => (e == ConnectionError::ParseError || e == ConnectionError::UnknownError
                    || e == ConnectionError::WriteBufferCorrupted) && (e
                    == ConnectionError::WriteBufferCorrupted ==> old(self).poisoned()),
            },
    {
        if let MaxRequestBytes::Known(n) = self.max_request_bytes {
            return Ok(Some(n));
        }
        if let Err(e) = self.prefetch_maximum_request_bytes() {
            return Err(e);
        }
        match self.max_request_bytes {
            MaxRequestBytes::Known(n) => Ok(Some(n)),
            MaxRequestBytes::Unknown => Ok(None),
            MaxRequestBytes::Requested(None) => {
                // The extension is absent: fall back to the handshake's
                // advertised maximum request length, in words.
                let n = self.setup.maximum_request_length as usize * 4;
                self.max_request_bytes = MaxRequestBytes::Known(n);
                Ok(Some(n))
            },
            MaxRequestBytes::Requested(Some(seq)) => {
                if let Err(e) = self.flush() {
                    return Err(e);
                }
                match proto_poll_for_reply(&mut self.proto, seq) {
                    PollReply::TryAgain => Ok(None),
                    PollReply::NoReply => {
                        // The enabling request itself failed: a server that
                        // advertises the extension owes it a reply.
                        Err(ConnectionError::UnknownError)
                    },
                    PollReply::Reply(buf) => {
                        match requests::parse_bigreq_enable_reply(&buf) {
                            None => Err(ConnectionError::ParseError),
                            Some(words) => {
                                let n = words_to_bytes_saturating(words);
                                self.max_request_bytes = MaxRequestBytes::Known(n);
                                Ok(Some(n))
                            },
                        }
                    },
                }
            },
        }
    }

    /// Allocate a fresh resource identifier: `Ok(Some(id))` on success,
    /// `Ok(None)` while a round trip for a fresh id range is in flight —
    /// feed incoming packets and poll again. When the current range is
    /// exhausted and the dynamic-range extension is absent, or the extended
    /// range is exhausted too, the allocation fails with `IdsExhausted`;
    /// that failure is terminal for this call.
    pub fn generate_id(&mut self) -> (r: Result<Option<u32>, ReplyOrIdError>)
        requires
            old(self).wf(),
        ensures
            final(self).wf(),
            final(self).setup_spec() == old(self).setup_spec(),
            final(self).max_bytes_spec() == old(self).max_bytes_spec(),
            final(self).poisoned() == old(self).poisoned(),
            // With identifiers left in the current range, allocation is owed
            // the range cursor, with no outside call and nothing dispatched.
            (old(self).alloc_model().next_id <= old(self).alloc_model().max_id && old(
                self,
            ).alloc_model().next_id <= u32::MAX as int) ==> {
                &&& r matches Ok(Some(id)) && id as int == old(self).alloc_model().next_id
                &&& final(self).dispatch_log() == old(self).dispatch_log()
                &&& final(self).wire() == old(self).wire()
                &&& final(self).ext_state_unchanged(*old(self))
                &&& final(self).last_issued_spec() == old(self).last_issued_spec()
                &&& final(self).xid_pending_spec() == old(self).xid_pending_spec()
            },
            match r {
                Ok(Some(id)) => {
                    &&& final(self).alloc_model().issued.contains(id)
                    &&& (old(self).xid_pending_spec() is None ==> !old(
                        self,
                    ).alloc_model().issued.contains(id))
                },
                Ok(None) => true,
                Err(e) => {
                    &&& (e == ReplyOrIdError::Connection(ConnectionError::WriteBufferCorrupted)
                        ==> old(self).poisoned())
                    &&& (e == ReplyOrIdError::Connection(ConnectionError::UnknownError) ==> old(
                        self,
                    ).xid_pending_spec() is Some)
                },
            },
            // An exhausted range with the dynamic-range extension known to
            // be absent fails exactly here, before any request is sent.
            ({
                let m = old(self).alloc_model();
                let absent = old(self).ext_state(requests::xc_misc_name_spec()) == Some(
                    ExtensionState::Resolved(None::<ExtensionInfo>),
                );
                ((m.next_id > m.max_id || m.next_id > u32::MAX as int) && absent && old(
                    self,
                ).xid_pending_spec() is None) ==> {
                    &&& r == Err::<Option<u32>, ReplyOrIdError>(ReplyOrIdError::IdsExhausted)
                    &&& obs_eq(*final(self), *old(self))
                }
            }),
    {
        // Fast path: the current range still has identifiers.
        if let Some(id) = self.id_allocator.generate_id() {
            return Ok(Some(id));
        }
        match self.xid_range_pending {
            None => {
                // The range is exhausted: only the dynamic-range extension
                // can extend it.
                let name = requests::xc_misc_name();
                match self.extension_information(name) {
                    Err(e) => Err(ReplyOrIdError::Connection(e)),
                    Ok(None) => Ok(None),
                    Ok(Some(None)) => Err(ReplyOrIdError::IdsExhausted),
                    Ok(Some(Some(info))) => {
                        let req = requests::plain_extension_request(info.major_opcode, 1);
                        match self.send_request(req, 0, RequestKind::ReplyWithoutFds) {
                            Err(e) => Err(ReplyOrIdError::Connection(e)),
                            Ok(seq) => {
                                self.xid_range_pending = Some(seq);
                                Ok(None)
                            },
                        }
                    },
                }
            },
            Some(seq) => {
                if let Err(e) = self.flush() {
                    return Err(ReplyOrIdError::Connection(e));
                }
                match proto_poll_for_reply(&mut self.proto, seq) {
                    PollReply::TryAgain => Ok(None),
                    PollReply::NoReply => {
                        // The id-range request failed; the server owes a
                        // reply when it advertises the extension.
                        self.xid_range_pending = None;
                        Err(ReplyOrIdError::Connection(ConnectionError::UnknownError))
                    },
                    PollReply::Reply(buf) => {
                        self.xid_range_pending = None;
                        match requests::parse_xid_range_reply(&buf) {
                            None => Err(ReplyOrIdError::Connection(ConnectionError::ParseError)),
                            Some((start_id, count)) => {
                                // Feed the fresh range in and retry once.
                                if let Err(e) = self.id_allocator.update_xid_range(
                                    start_id,
                                    count,
                                ) {
                                    return Err(e);
                                }
                                match self.id_allocator.generate_id() {
                                    Some(id) => Ok(Some(id)),
                                    None => Err(ReplyOrIdError::IdsExhausted),
                                }
                            },
                        }
                    },
                }
            },
        }
    }
}

/// The negotiated maximum request length in words, converted to bytes,
/// saturating at the machine's limit.
fn words_to_bytes_saturating(words: u32) -> (r: usize)
    ensures
        r as int == (if words * 4 <= usize::MAX {
            (words * 4) as int
        } else {
            usize::MAX as int
        }),
{
    let n64 = words as u64 * 4;
    if n64 > usize::MAX as u64 {
        usize::MAX
    } else {
        n64 as usize
    }
}

/// Law: the bytes the transport observes are exactly the concatenation of
/// every dispatched request's encoded form, in sequence-number order: the
/// dispatch log ascends strictly in sequence numbers, and the engine's wire
/// bytes are the log's bytes concatenated in log order.
pub proof fn lemma_wire_is_requests_in_order(c: &RustConnection)
    requires
        c.wf(),
    ensures
        seqs_ascending(c.dispatch_log()),
        c.wire() == log_bytes(c.dispatch_log()),
        c.wire() == c.transported_view() + c.outbox_view() + c.buffered_bytes(),
{
}

} // verus!
