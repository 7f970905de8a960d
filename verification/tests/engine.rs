//! End-to-end exercises of the multiplexing engine against the real
//! protocol core, feeding crafted server packets in and inspecting the
//! bytes the engine puts on the wire.

use x11rb_async::connection::{MaxRequestBytes, ReplyOrError, RustConnection};
use x11rb_async::proto::PollReply;
use x11rb_async::errors::{ConnectError, ConnectionError, ReplyOrIdError};
use x11rb_async::proto::RequestKind;
use x11rb_async::setup::Setup;

fn test_setup() -> Setup {
    Setup {
        resource_id_base: 0x2800,
        resource_id_mask: 0x1ff,
        maximum_request_length: 100,
        roots_len: 1,
    }
}

fn conn() -> RustConnection {
    RustConnection::for_connected_stream(test_setup()).unwrap()
}

/// A minimal one-word request with a correct length field.
fn small_request(opcode: u8) -> Vec<Vec<u8>> {
    vec![vec![opcode, 0, 1, 0]]
}

/// A 32-byte server packet of the given kind for the given sequence number.
fn packet(kind: u8, seq: u64) -> Vec<u8> {
    let mut p = vec![0u8; 32];
    p[0] = kind;
    p[2..4].copy_from_slice(&(seq as u16).to_ne_bytes());
    p
}

#[test]
fn zero_id_mask_is_rejected() {
    let setup = Setup { resource_id_mask: 0, ..test_setup() };
    match RustConnection::for_connected_stream(setup) {
        Err(e) => assert_eq!(e, ConnectError::ZeroIdMask),
        Ok(_) => panic!("a zero mask must be rejected"),
    }
}

#[test]
fn wire_is_requests_in_sequence_order() {
    let mut c = conn();
    let s1 = c
        .send_request(small_request(43), 0, RequestKind::ReplyWithoutFds)
        .unwrap();
    let s2 = c
        .send_request(small_request(55), 0, RequestKind::NoReply)
        .unwrap();
    assert_eq!(s1, 1);
    assert_eq!(s2, 2);
    c.flush().unwrap();
    let (bytes, fds) = c.take_output();
    assert_eq!(bytes, vec![43, 0, 1, 0, 55, 0, 1, 0]);
    assert_eq!(fds, 0);
}

#[test]
fn setup_is_kept() {
    let c = conn();
    assert_eq!(c.setup().roots_len, 1);
    assert_eq!(c.setup().resource_id_base, 0x2800);
}

#[test]
fn reply_and_error_are_classified_by_first_byte() {
    let mut c = conn();
    let seq = c
        .send_request(small_request(43), 0, RequestKind::ReplyWithoutFds)
        .unwrap();
    // Nothing arrived yet.
    assert_eq!(c.poll_for_reply_or_raw_error(seq).unwrap(), None);
    // An error packet: first byte zero.
    c.enqueue_packet(packet(0, seq));
    match c.poll_for_reply_or_raw_error(seq).unwrap() {
        Some(ReplyOrError::Error(buf)) => assert_eq!(buf[0], 0),
        other => panic!("expected an error packet, got {:?}", other),
    }

    let seq2 = c
        .send_request(small_request(43), 0, RequestKind::ReplyWithoutFds)
        .unwrap();
    c.enqueue_packet(packet(1, seq2));
    match c.poll_for_reply_or_raw_error(seq2).unwrap() {
        Some(ReplyOrError::Reply(buf)) => assert_eq!(buf[0], 1),
        other => panic!("expected a reply packet, got {:?}", other),
    }
}

#[test]
fn poll_for_reply_routes_errors_to_events() {
    let mut c = conn();
    let seq = c
        .send_request(small_request(43), 0, RequestKind::ReplyWithoutFds)
        .unwrap();
    assert_eq!(c.poll_for_reply(seq).unwrap(), PollReply::TryAgain);
    c.enqueue_packet(packet(0, seq));
    assert_eq!(c.poll_for_reply(seq).unwrap(), PollReply::NoReply);
    // The error is delivered as an event.
    let (event, eseq) = c.poll_for_raw_event_with_sequence().unwrap();
    assert_eq!(event[0], 0);
    assert_eq!(eseq, seq);
}

#[test]
fn check_for_raw_error_syncs_and_settles() {
    let mut c = conn();
    let seq = c
        .send_request(small_request(43), 0, RequestKind::NoReply)
        .unwrap();
    // The check needs server-side ordering: one synchronizing request goes
    // out together with the original bytes.
    assert_eq!(c.check_for_raw_error(seq).unwrap(), PollReply::TryAgain);
    let (bytes, _) = c.take_output();
    assert_eq!(bytes.len(), 8, "original request plus exactly one sync");
    assert_eq!(&bytes[4..8], &[43, 0, 1, 0], "the sync is a get-input-focus");
    // The sync's reply proves the earlier request was processed cleanly.
    c.enqueue_packet(packet(1, seq + 1));
    assert_eq!(c.check_for_raw_error(seq).unwrap(), PollReply::NoReply);
}

#[test]
fn backpressure_sends_exactly_one_sync() {
    let mut c = conn();
    for expected in 1..0xffffu64 {
        let seq = c
            .send_request(small_request(10), 0, RequestKind::NoReply)
            .unwrap();
        assert_eq!(seq, expected);
    }
    // The protocol core now refuses another untracked request; the engine
    // dispatches one synchronizing request and retries.
    let seq = c
        .send_request(small_request(10), 0, RequestKind::NoReply)
        .unwrap();
    assert_eq!(seq, 0x10000, "one sync (0xffff) was inserted before it");
    c.flush().unwrap();
    let (bytes, _) = c.take_output();
    // 0xfffe requests, one sync, the retried request: all four bytes each.
    assert_eq!(bytes.len(), 4 * (0xfffe + 2));
    assert_eq!(&bytes[4 * 0xfffe..4 * 0xffff], &[43, 0, 1, 0]);
}

fn query_extension_reply(seq: u64, present: u8, opcode: u8) -> Vec<u8> {
    let mut p = packet(1, seq);
    p[8] = present;
    p[9] = opcode;
    p[10] = 101;
    p[11] = 102;
    p
}

#[test]
fn extension_information_is_cached() {
    let mut c = conn();
    let name = b"XC-MISC".to_vec();
    // Unknown: the query goes out, the answer is pending.
    assert_eq!(c.extension_information(name.clone()).unwrap(), None);
    c.flush().unwrap();
    let (bytes, _) = c.take_output();
    // An eight-byte header plus the name padded to whole words.
    assert_eq!(bytes.len(), 8 + 8);
    assert_eq!(&bytes[..8], &[98, 0, 4, 0, 7, 0, 0, 0]);
    assert_eq!(&bytes[8..15], b"XC-MISC");
    // Still pending until the reply is fed in.
    assert_eq!(c.extension_information(name.clone()).unwrap(), None);
    c.enqueue_packet(query_extension_reply(1, 1, 140));
    let info = c.extension_information(name.clone()).unwrap().unwrap().unwrap();
    assert_eq!(info.major_opcode, 140);
    assert_eq!(info.first_event, 101);
    assert_eq!(info.first_error, 102);
    // Resolved: answered from the cache, nothing else goes out.
    let again = c.extension_information(name).unwrap().unwrap().unwrap();
    assert_eq!(again.major_opcode, 140);
    let (bytes, _) = c.take_output();
    assert!(bytes.is_empty(), "a resolved name needs no round trip");
}

#[test]
fn maximum_request_bytes_resolves_and_never_regresses() {
    let mut c = conn();
    assert_eq!(c.max_request_bytes_cached(), None);
    // First poll: the big-requests presence query goes out.
    assert_eq!(c.poll_maximum_request_bytes().unwrap(), None);
    c.enqueue_packet(query_extension_reply(1, 1, 133));
    // Second poll: the extension is present, the enabling request goes out.
    assert_eq!(c.poll_maximum_request_bytes().unwrap(), None);
    // The enabling reply carries the maximum request length in words.
    let mut reply = packet(1, 2);
    reply[8..12].copy_from_slice(&0x3f_ffffu32.to_ne_bytes());
    c.enqueue_packet(reply);
    let n = c.poll_maximum_request_bytes().unwrap().unwrap();
    assert_eq!(n, 0x3f_ffff * 4);
    assert_eq!(c.max_request_bytes_cached(), Some(n));
    // Known never regresses and needs no further round trip.
    c.take_output();
    assert_eq!(c.poll_maximum_request_bytes().unwrap(), Some(n));
    let (bytes, _) = c.take_output();
    assert!(bytes.is_empty());
}

#[test]
fn maximum_request_bytes_falls_back_without_extension() {
    let mut c = conn();
    assert_eq!(c.poll_maximum_request_bytes().unwrap(), None);
    // The big-requests extension is absent.
    c.enqueue_packet(query_extension_reply(1, 0, 0));
    let n = c.poll_maximum_request_bytes().unwrap().unwrap();
    // The handshake advertised 100 words.
    assert_eq!(n, 400);
    assert_eq!(c.max_request_bytes_cached(), Some(400));
}

#[test]
fn big_request_is_reframed_on_the_wire() {
    let mut c = conn();
    // Negotiate a large maximum first.
    c.poll_maximum_request_bytes().unwrap();
    c.enqueue_packet(query_extension_reply(1, 1, 133));
    c.poll_maximum_request_bytes().unwrap();
    let mut reply = packet(1, 2);
    reply[8..12].copy_from_slice(&0x3f_ffffu32.to_ne_bytes());
    c.enqueue_packet(reply);
    assert!(c.poll_maximum_request_bytes().unwrap().is_some());
    c.take_output();

    // A request of 0x10001 words cannot carry its length in 16 bits.
    let words: usize = 0x10001;
    let mut req = vec![0u8; words * 4];
    req[0] = 77;
    req[1] = 3;
    // The 16-bit length field of an oversized request is meaningless; the
    // encoder replaces it. Fill the payload recognizably.
    req[2] = 0;
    req[3] = 0;
    let last = req.len() - 1;
    req[last] = 0xee;
    let seq = c
        .send_request(vec![req.clone()], 0, RequestKind::NoReply)
        .unwrap();
    c.flush().unwrap();
    let (bytes, _) = c.take_output();
    assert_eq!(seq, 3);
    assert_eq!(bytes.len(), words * 4 + 4, "four extended-length bytes added");
    assert_eq!(&bytes[..4], &[77, 3, 0, 0], "zero length field marks a big request");
    let ext = u32::from_le_bytes([bytes[4], bytes[5], bytes[6], bytes[7]]);
    assert_eq!(ext as usize, words + 1);
    assert_eq!(&bytes[8..], &req[4..], "the payload is unchanged");
    assert_eq!(bytes[bytes.len() - 1], 0xee);
}

#[test]
fn oversized_request_is_refused() {
    let mut c = conn();
    // The extension is absent: the maximum falls back to 400 bytes.
    c.poll_maximum_request_bytes().unwrap();
    c.enqueue_packet(query_extension_reply(1, 0, 0));
    assert_eq!(c.poll_maximum_request_bytes().unwrap(), Some(400));

    let words: usize = 0x10001;
    let mut req = vec![0u8; words * 4];
    req[0] = 77;
    let r = c.send_request(vec![req], 0, RequestKind::NoReply);
    assert_eq!(r.unwrap_err(), ConnectionError::MaximumRequestLengthExceeded);
}

#[test]
fn discarded_reply_is_dropped() {
    let mut c = conn();
    let seq = c
        .send_request(small_request(43), 0, RequestKind::ReplyWithoutFds)
        .unwrap();
    c.discard_reply(seq, x11rb_async::proto::DiscardMode::DiscardReplyAndError);
    c.enqueue_packet(packet(1, seq));
    assert_eq!(c.poll_for_reply_or_raw_error(seq).unwrap(), None);
}

#[test]
fn ids_exhausted_without_extension() {
    // Base 0x420, mask 2: exactly the ids 0x420 and 0x422.
    let setup = Setup {
        resource_id_base: 0x420,
        resource_id_mask: 2,
        ..test_setup()
    };
    let mut c = RustConnection::for_connected_stream(setup).unwrap();
    assert_eq!(c.generate_id().unwrap(), Some(0x420));
    assert_eq!(c.generate_id().unwrap(), Some(0x422));
    // Exhausted: the engine asks for the dynamic-range extension.
    assert_eq!(c.generate_id().unwrap(), None);
    c.enqueue_packet(query_extension_reply(1, 0, 0));
    // The extension is absent: the very call that would have needed it
    // fails.
    assert_eq!(c.generate_id().unwrap_err(), ReplyOrIdError::IdsExhausted);
    // And so does every later call.
    assert_eq!(c.generate_id().unwrap_err(), ReplyOrIdError::IdsExhausted);
}

#[test]
fn id_range_extension_resumes_allocation() {
    let setup = Setup {
        resource_id_base: 0x420,
        resource_id_mask: 2,
        ..test_setup()
    };
    let mut c = RustConnection::for_connected_stream(setup).unwrap();
    assert_eq!(c.generate_id().unwrap(), Some(0x420));
    assert_eq!(c.generate_id().unwrap(), Some(0x422));
    // Exhausted: presence query goes out.
    assert_eq!(c.generate_id().unwrap(), None);
    c.enqueue_packet(query_extension_reply(1, 1, 140));
    // Present: the id-range request goes out (sequence number 2).
    assert_eq!(c.generate_id().unwrap(), None);
    c.flush().unwrap();
    let (bytes, _) = c.take_output();
    let n = bytes.len();
    assert_eq!(&bytes[n - 4..], &[140, 1, 1, 0], "the id-range request");
    // The reply hands over a fresh range: start 0x13370, count 3.
    let mut reply = packet(1, 2);
    reply[8..12].copy_from_slice(&0x13370u32.to_ne_bytes());
    reply[12..16].copy_from_slice(&3u32.to_ne_bytes());
    c.enqueue_packet(reply);
    // Allocation resumes from the new range only.
    assert_eq!(c.generate_id().unwrap(), Some(0x13370));
    assert_eq!(c.generate_id().unwrap(), Some(0x13372));
    assert_eq!(c.generate_id().unwrap(), Some(0x13374));
}

#[test]
fn max_request_bytes_states_are_distinct() {
    assert_ne!(MaxRequestBytes::Unknown, MaxRequestBytes::Known(4));
    assert_ne!(
        MaxRequestBytes::Requested(None),
        MaxRequestBytes::Requested(Some(1))
    );
}

#[test]
fn dispatch_wrappers_issue_fresh_numbers() {
    let mut c = conn();
    let s1 = c.send_request_with_reply(small_request(43), 0).unwrap();
    let s2 = c.send_request_without_reply(small_request(55), 0).unwrap();
    assert_eq!(s1, 1);
    assert_eq!(s2, 2);
    assert_eq!(c.last_issued(), 2);
    // The one with a reply can be correlated.
    c.enqueue_packet(packet(1, s1));
    match c.poll_for_reply_or_raw_error(s1).unwrap() {
        Some(ReplyOrError::Reply(_)) => {}
        other => panic!("expected the reply, got {:?}", other),
    }
}

#[test]
fn failed_negotiation_reply_surfaces() {
    let mut c = conn();
    c.poll_maximum_request_bytes().unwrap();
    c.enqueue_packet(query_extension_reply(1, 1, 133));
    c.poll_maximum_request_bytes().unwrap();
    // The enabling request (sequence number 2) is answered with an error.
    c.enqueue_packet(packet(0, 2));
    match c.poll_maximum_request_bytes() {
        Err(e) => assert_eq!(e, ConnectionError::UnknownError),
        other => panic!("a failed enabling request must surface, got {:?}", other),
    }
}

#[test]
fn failed_id_range_reply_surfaces() {
    let setup = Setup {
        resource_id_base: 0x420,
        resource_id_mask: 2,
        ..test_setup()
    };
    let mut c = RustConnection::for_connected_stream(setup).unwrap();
    assert_eq!(c.generate_id().unwrap(), Some(0x420));
    assert_eq!(c.generate_id().unwrap(), Some(0x422));
    assert_eq!(c.generate_id().unwrap(), None);
    c.enqueue_packet(query_extension_reply(1, 1, 140));
    assert_eq!(c.generate_id().unwrap(), None);
    // The id-range request (sequence number 2) is answered with an error.
    c.enqueue_packet(packet(0, 2));
    match c.generate_id() {
        Err(ReplyOrIdError::Connection(e)) => assert_eq!(e, ConnectionError::UnknownError),
        other => panic!("a failed id-range request must surface, got {:?}", other),
    }
}
