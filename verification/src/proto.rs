//! The protocol core: the non-blocking, sans-I/O state machine of
//! `x11rb_protocol` that owns the authoritative sequence counter and the
//! queues of parsed-but-undelivered replies, errors and events.
//!
//! The engine treats the core as an external collaborator: its type is
//! declared opaquely, two of its counters are given names, and each method
//! the engine calls is reached through a trusted wrapper whose contract
//! states what the core's source shows.

use vstd::prelude::*;

verus! {

#[verifier::external_type_specification]
#[verifier::external_body]
pub struct ExProtoConnection(x11rb_protocol::connection::Connection);

/// The sequence number of the last request the core handed out; a fresh core
/// reports 0 and the first request gets 1.
pub uninterp spec fn proto_last_sent(c: x11rb_protocol::connection::Connection) -> u64;

/// The sequence number up to which the core is certain of incoming sequence
/// numbering: the newest request that will be answered (or the newest
/// incoming packet, whichever is later).
pub uninterp spec fn proto_expected(c: x11rb_protocol::connection::Connection) -> u64;

/// Whether a request expects a reply. Requests whose replies would carry file
/// descriptors are not dispatched by this engine: descriptor passing happens
/// at the transport, outside of it.
#[derive(Debug, Clone, Copy, PartialEq, Eq, Structural)]
pub enum RequestKind {
    /// The request has no reply.
    NoReply,
    /// The request has a reply.
    ReplyWithoutFds,
}

/// How much of an ignored request's outcome to throw away.
#[derive(Debug, Clone, Copy, PartialEq, Eq, Structural)]
pub enum DiscardMode {
    /// Throw the reply away but keep an error for the event loop.
    DiscardReply,
    /// Throw both the reply and any error away.
    DiscardReplyAndError,
}

/// The outcome of polling for one sequence number's resolution.
#[derive(Debug, PartialEq, Eq)]
pub enum PollReply {
    /// Not decidable yet; feed more incoming packets and poll again.
    TryAgain,
    /// Decided: no packet will come for this poll.
    NoReply,
    /// Decided: this packet came.
    Reply(Vec<u8>),
}

/// A fresh protocol core for a just-established connection.
///
/// Relies on `x11rb_protocol::connection::Connection::new`: both counters of
/// a fresh core are zero, so the first request is number one.
#[verifier::external_body]
pub(crate) fn proto_new() -> (c: x11rb_protocol::connection::Connection)
    ensures
        proto_last_sent(c) == 0,
        proto_expected(c) == 0,
{
    x11rb_protocol::connection::Connection::new()
}

/// Ask the core for a sequence number for one outgoing request.
///
/// Relies on `x11rb_protocol::connection::Connection::send_request`: it hands
/// out the successor of the last sequence number, records the request, and —
/// for a request with a reply — moves the expected-reply counter to that new
/// number. It refuses only a request without a reply, and only when the
/// expected-reply counter trails the send counter by almost a full 16-bit
/// wrap, because one more untracked request would make incoming 16-bit
/// sequence numbers ambiguous. The 64-bit send counter is treated as never
/// wrapping: at the protocol's pace that would take centuries.
#[verifier::external_body]
pub(crate) fn proto_send_request(c: &mut x11rb_protocol::connection::Connection, kind: RequestKind) -> (r:
    Option<u64>)
    ensures
        match r {
            Some(seq) => {
                &&& seq == proto_last_sent(*old(c)) + 1
                &&& proto_last_sent(*final(c)) == proto_last_sent(*old(c)) + 1
                &&& proto_expected(*final(c)) == (if kind is NoReply {
                    proto_expected(*old(c)) as int
                } else {
                    proto_last_sent(*old(c)) + 1
                })
            },
            None => {
                &&& *final(c) == *old(c)
                &&& kind is NoReply
                &&& proto_expected(*old(c)) + 0xfffe <= proto_last_sent(*old(c))
            },
        },
        kind is ReplyWithoutFds ==> r is Some,
        // The refusal is exact: an untracked request is granted whenever the
        // expected-reply counter does not trail by almost a full wrap.
        r is None <==> (kind is NoReply && proto_expected(*old(c)) + 0xfffe <= proto_last_sent(
            *old(c),
        )),
{
    let k = match kind {
        RequestKind::NoReply => x11rb_protocol::connection::ReplyFdKind::NoReply,
        RequestKind::ReplyWithoutFds => x11rb_protocol::connection::ReplyFdKind::ReplyWithoutFDs,
    };
    c.send_request(k)
}

/// Ignore the outcome of a request that was previously sent.
///
/// Relies on `x11rb_protocol::connection::Connection::discard_reply`: it only
/// marks the request's record and prunes queued replies; neither counter
/// moves.
#[verifier::external_body]
pub(crate) fn proto_discard_reply(
    c: &mut x11rb_protocol::connection::Connection,
    seq: u64,
    mode: DiscardMode,
)
    ensures
        proto_last_sent(*final(c)) == proto_last_sent(*old(c)),
        proto_expected(*final(c)) == proto_expected(*old(c)),
{
    let m = match mode {
        DiscardMode::DiscardReply => x11rb_protocol::DiscardMode::DiscardReply,
        DiscardMode::DiscardReplyAndError => x11rb_protocol::DiscardMode::DiscardReplyAndError,
    };
    c.discard_reply(seq, m)
}

/// Feed one complete incoming packet (a reply, error or event) to the core.
///
/// Relies on `x11rb_protocol::connection::Connection::enqueue_packet`: it
/// reconstructs the packet's full sequence number, files the packet into the
/// reply or event queue, never touches the send counter, and moves the
/// expected counter only forward. It reads the packet's first four bytes, and
/// the protocol's packets are at least 32 bytes long. Because this engine
/// never dispatches a request whose reply carries file descriptors, the
/// core's descriptor-starvation panic is unreachable.
#[verifier::external_body]
pub(crate) fn proto_enqueue_packet(c: &mut x11rb_protocol::connection::Connection, packet: Vec<u8>)
    requires
        packet@.len() >= 32,
    ensures
        proto_last_sent(*final(c)) == proto_last_sent(*old(c)),
        proto_expected(*final(c)) >= proto_expected(*old(c)),
{
    c.enqueue_packet(packet)
}

/// Take the reply or error packet for a request expecting one, if it arrived.
///
/// Relies on `x11rb_protocol::connection::Connection::poll_for_reply_or_error`:
/// it removes and returns the queued packet for this sequence number and
/// moves neither counter. Every packet in that queue was filed by
/// `enqueue_packet`, which reads the packet's first byte before filing, so a
/// returned packet is never empty. Replies of this engine carry no
/// descriptors, so only the bytes are returned.
#[verifier::external_body]
pub(crate) fn proto_poll_for_reply_or_error(
    c: &mut x11rb_protocol::connection::Connection,
    seq: u64,
) -> (r: Option<Vec<u8>>)
    ensures
        proto_last_sent(*final(c)) == proto_last_sent(*old(c)),
        proto_expected(*final(c)) == proto_expected(*old(c)),
        r matches Some(buf) ==> buf@.len() >= 1,
{
    c.poll_for_reply_or_error(seq).map(|buf_fds| buf_fds.0)
}

/// Take the reply for a request, routing an error packet to the event queue.
///
/// Relies on `x11rb_protocol::connection::Connection::poll_for_reply`: when
/// it answers with a packet, that packet's first byte was inspected and is
/// not zero (an error packet is moved to the event queue and answered as
/// "no reply" instead); neither counter moves.
#[verifier::external_body]
pub(crate) fn proto_poll_for_reply(c: &mut x11rb_protocol::connection::Connection, seq: u64) -> (r:
    PollReply)
    ensures
        proto_last_sent(*final(c)) == proto_last_sent(*old(c)),
        proto_expected(*final(c)) == proto_expected(*old(c)),
        match r {
            PollReply::Reply(buf) => buf@.len() >= 1 && buf@[0] != 0,
            _ => true,
        },
{
    match c.poll_for_reply(seq) {
        x11rb_protocol::connection::PollReply::TryAgain => PollReply::TryAgain,
        x11rb_protocol::connection::PollReply::NoReply => PollReply::NoReply,
        x11rb_protocol::connection::PollReply::Reply(buf) => PollReply::Reply(buf),
    }
}

/// Whether deciding "did this request fail?" needs a synchronizing request
/// first.
///
/// Relies on
/// `x11rb_protocol::connection::Connection::prepare_check_for_reply_or_error`:
/// it answers whether the expected counter still trails the sequence number —
/// only then could an error for it still be unaccounted for — and changes
/// nothing.
#[verifier::external_body]
pub(crate) fn proto_prepare_check(c: &mut x11rb_protocol::connection::Connection, seq: u64) -> (r: bool)
    ensures
        *final(c) == *old(c),
        r == (proto_expected(*old(c)) < seq),
{
    c.prepare_check_for_reply_or_error(seq)
}

/// Whether the server already handled the request: its error packet, or
/// certainty that none will come.
///
/// Relies on
/// `x11rb_protocol::connection::Connection::poll_check_for_reply_or_error`:
/// it takes the queued packet for this sequence number, or reports "no
/// reply" once a later packet was read; neither counter moves. A returned
/// packet comes from the reply queue, whose every entry had its first byte
/// read when it was filed, so it is never empty.
#[verifier::external_body]
pub(crate) fn proto_poll_check(c: &mut x11rb_protocol::connection::Connection, seq: u64) -> (r: PollReply)
    ensures
        proto_last_sent(*final(c)) == proto_last_sent(*old(c)),
        proto_expected(*final(c)) == proto_expected(*old(c)),
        r matches PollReply::Reply(buf) ==> buf@.len() >= 1,
{
    match c.poll_check_for_reply_or_error(seq) {
        x11rb_protocol::connection::PollReply::TryAgain => PollReply::TryAgain,
        x11rb_protocol::connection::PollReply::NoReply => PollReply::NoReply,
        x11rb_protocol::connection::PollReply::Reply(buf) => PollReply::Reply(buf),
    }
}

/// Take the oldest undelivered event and its sequence number.
///
/// Relies on
/// `x11rb_protocol::connection::Connection::poll_for_event_with_sequence`: it
/// pops the front of the event queue and moves neither counter.
#[verifier::external_body]
pub(crate) fn proto_poll_for_event(c: &mut x11rb_protocol::connection::Connection) -> (r: Option<
    (Vec<u8>, u64),
>)
    ensures
        proto_last_sent(*final(c)) == proto_last_sent(*old(c)),
        proto_expected(*final(c)) == proto_expected(*old(c)),
{
    c.poll_for_event_with_sequence()
}

} // verus!
