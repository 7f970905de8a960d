//! Unit exercises of the engine's pieces: the big-request encoder, the
//! write pipeline's corruption protocol, the id allocator, and the request
//! builders.

use x11rb_async::errors::{ConnectError, ConnectionError, ReplyOrIdError};
use x11rb_async::idalloc::IdAllocator;
use x11rb_async::length::compute_length_field;
use x11rb_async::requests;
use x11rb_async::writebuf::WriteBuffer;

#[test]
fn small_request_is_unchanged() {
    let bufs = vec![vec![12u8, 0, 2, 0], vec![1u8, 2, 3, 4]];
    let out = compute_length_field(bufs.clone(), 0).unwrap();
    assert_eq!(out, bufs);
}

#[test]
fn big_request_encoding_round_trips() {
    // 0x10000 words: too long for the 16-bit length field.
    let words: usize = 0x10000;
    let mut req = vec![0u8; words * 4];
    req[0] = 9;
    req[1] = 7;
    req[4] = 0xab;
    let out = compute_length_field(vec![req.clone()], usize::MAX).unwrap();
    assert_eq!(out.len(), 2);
    // Opcode and detail byte survive; the length field is zeroed.
    assert_eq!(&out[0][..4], &[9, 7, 0, 0]);
    // The 32-bit extended length is the word count plus one.
    let ext = u32::from_le_bytes([out[0][4], out[0][5], out[0][6], out[0][7]]);
    assert_eq!(ext as usize, words + 1);
    // Decoding recovers the original payload.
    assert_eq!(&out[1][..], &req[4..]);
}

#[test]
fn big_request_over_the_maximum_is_refused() {
    let words: usize = 0x10000;
    let req = vec![0u8; words * 4];
    assert_eq!(
        compute_length_field(vec![req], 1000).unwrap_err(),
        ConnectionError::MaximumRequestLengthExceeded
    );
}

#[test]
fn double_acquire_corrupts_the_pipeline() {
    let mut wb = WriteBuffer::with_capacity(64);
    wb.acquire().unwrap();
    // A second acquisition without a release: the first holder is treated
    // as abandoned and the buffer as corrupted.
    assert_eq!(wb.acquire().unwrap_err(), ConnectionError::WriteBufferCorrupted);
    // Idempotently broken: every further acquisition fails too.
    assert_eq!(wb.acquire().unwrap_err(), ConnectionError::WriteBufferCorrupted);
    assert_eq!(wb.acquire().unwrap_err(), ConnectionError::WriteBufferCorrupted);
    assert!(wb.is_corrupted());
}

#[test]
fn clean_release_keeps_the_pipeline_usable() {
    let mut wb = WriteBuffer::with_capacity(64);
    wb.acquire().unwrap();
    wb.release();
    wb.acquire().unwrap();
    wb.release();
    assert!(!wb.is_corrupted());
}

#[test]
fn write_buffered_keeps_byte_order() {
    let mut wb = WriteBuffer::with_capacity(8);
    let mut out: Vec<u8> = Vec::new();
    let mut out_fds: u64 = 0;
    wb.acquire().unwrap();
    // Fits the buffer: nothing reaches the outgoing channel yet.
    wb.write_buffered(&vec![vec![1, 2, 3, 4]], 1, &mut out, &mut out_fds);
    assert!(out.is_empty());
    assert_eq!(out_fds, 0);
    // Does not fit behind it: the buffer is flushed first, and a payload at
    // least as long as the capacity goes straight out.
    wb.write_buffered(&vec![vec![5, 6, 7, 8], vec![9, 10, 11, 12]], 2, &mut out, &mut out_fds);
    assert_eq!(out, vec![1, 2, 3, 4, 5, 6, 7, 8, 9, 10, 11, 12]);
    wb.flush_into(&mut out, &mut out_fds);
    wb.release();
    assert_eq!(out, vec![1, 2, 3, 4, 5, 6, 7, 8, 9, 10, 11, 12]);
    assert_eq!(out_fds, 3);
}

#[test]
fn allocator_walks_the_whole_range() {
    let mut a = IdAllocator::new(0x2800, 0x1ff).unwrap();
    for expected in 0x2800..=0x29ff {
        assert_eq!(a.generate_id(), Some(expected));
    }
    assert_eq!(a.generate_id(), None);
}

#[test]
fn allocator_steps_by_the_lowest_mask_bit() {
    let mut a = IdAllocator::new(0, 0b1100).unwrap();
    assert_eq!(a.generate_id(), Some(0b0000));
    assert_eq!(a.generate_id(), Some(0b0100));
    assert_eq!(a.generate_id(), Some(0b1000));
    assert_eq!(a.generate_id(), Some(0b1100));
    assert_eq!(a.generate_id(), None);
}

#[test]
fn allocator_resumes_from_a_new_range() {
    let mut a = IdAllocator::new(0x420, 2).unwrap();
    assert_eq!(a.generate_id(), Some(0x420));
    assert_eq!(a.generate_id(), Some(0x422));
    assert_eq!(a.generate_id(), None);
    a.update_xid_range(0x13370, 3).unwrap();
    assert_eq!(a.generate_id(), Some(0x13370));
    assert_eq!(a.generate_id(), Some(0x13372));
    assert_eq!(a.generate_id(), Some(0x13374));
    assert_eq!(a.generate_id(), None);
}

#[test]
fn allocator_rejects_a_zero_mask() {
    match IdAllocator::new(1234, 0) {
        Err(e) => assert_eq!(e, ConnectError::ZeroIdMask),
        Ok(_) => panic!("a zero mask must be rejected"),
    }
}

#[test]
fn allocator_rejects_an_empty_range_update() {
    let mut a = IdAllocator::new(0x420, 2).unwrap();
    // (0, 1) is the server's way of saying it is out of ids.
    assert_eq!(a.update_xid_range(0, 1).unwrap_err(), ReplyOrIdError::IdsExhausted);
    assert_eq!(a.update_xid_range(1, 0).unwrap_err(), ReplyOrIdError::IdsExhausted);
}

#[test]
fn sync_request_has_the_fixed_form() {
    let req = requests::get_input_focus_request();
    assert_eq!(req, vec![vec![43u8, 0, 1, 0]]);
}

#[test]
fn query_extension_request_is_padded() {
    let req = requests::query_extension_request(&b"BIG-REQUESTS".to_vec());
    assert_eq!(req.len(), 1);
    // 8-byte header + 12-byte name, 20 bytes = 5 words, no padding needed.
    assert_eq!(
        req[0],
        vec![98, 0, 5, 0, 12, 0, 0, 0, 66, 73, 71, 45, 82, 69, 81, 85, 69, 83, 84, 83]
    );
}

#[test]
fn reply_parsers_read_the_right_fields() {
    let mut buf = vec![0u8; 32];
    buf[8] = 1;
    buf[9] = 133;
    buf[10] = 64;
    buf[11] = 143;
    assert_eq!(
        requests::parse_query_extension_reply(&buf),
        Some((true, 133, 64, 143))
    );
    buf[8..12].copy_from_slice(&0x12345678u32.to_le_bytes());
    assert_eq!(requests::parse_bigreq_enable_reply(&buf), Some(0x12345678));
    buf[12..16].copy_from_slice(&77u32.to_le_bytes());
    assert_eq!(requests::parse_xid_range_reply(&buf), Some((0x12345678, 77)));
    // Truncated packets are malformed.
    assert_eq!(requests::parse_query_extension_reply(&vec![1u8; 31]), None);
}

#[test]
fn oversized_payload_bypasses_an_empty_buffer() {
    let mut wb = WriteBuffer::with_capacity(4);
    let mut out: Vec<u8> = Vec::new();
    let mut out_fds: u64 = 0;
    wb.acquire().unwrap();
    // Exactly a capacity's worth with an empty buffer: straight out, no
    // flush needed.
    wb.write_buffered(&vec![vec![7, 8, 9, 10]], 0, &mut out, &mut out_fds);
    wb.release();
    assert_eq!(out, vec![7, 8, 9, 10]);
    assert_eq!(out_fds, 0);
}
