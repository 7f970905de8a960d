//! Handshake exercises: a crafted server setup reply is fed to the
//! incremental parser, and screen validation decides whether the connection
//! comes up.

use x11rb_async::errors::ConnectError;
use x11rb_async::handshake::{validate_and_connect, Handshake, ReadOutcome};
use x11rb_async::setup::Setup;

use x11rb_protocol::protocol::xproto;
use x11rb_protocol::x11_utils::Serialize;

fn test_screen() -> xproto::Screen {
    xproto::Screen {
        root: 1,
        default_colormap: 1,
        white_pixel: 0xffffff,
        black_pixel: 0,
        current_input_masks: 0u32.into(),
        width_in_pixels: 1024,
        height_in_pixels: 768,
        width_in_millimeters: 300,
        height_in_millimeters: 220,
        min_installed_maps: 1,
        max_installed_maps: 1,
        root_visual: 1,
        backing_stores: 0u8.into(),
        save_unders: false,
        root_depth: 24,
        allowed_depths: Vec::new(),
    }
}

fn serialized_setup(roots: usize) -> Vec<u8> {
    let mut setup = xproto::Setup {
        status: 1,
        protocol_major_version: 11,
        protocol_minor_version: 0,
        length: 0,
        release_number: 0,
        resource_id_base: 0x2800,
        resource_id_mask: 0x1ff,
        motion_buffer_size: 0,
        maximum_request_length: 0xffff,
        image_byte_order: xproto::ImageOrder::LSB_FIRST,
        bitmap_format_bit_order: xproto::ImageOrder::LSB_FIRST,
        bitmap_format_scanline_unit: 32,
        bitmap_format_scanline_pad: 32,
        min_keycode: 8,
        max_keycode: 255,
        vendor: b"A test server".to_vec(),
        pixmap_formats: Vec::new(),
        roots: std::iter::repeat_with(test_screen).take(roots).collect(),
    };
    setup.length = ((setup.serialize().len() - 8 + 3) / 4) as u16;
    setup.serialize()
}

/// Drive the whole reply through the parser, a few bytes at a time.
fn feed_all(hs: &mut Handshake, mut bytes: Vec<u8>) {
    let mut guard = 0;
    loop {
        guard += 1;
        assert!(guard < 10000, "the parser never reported completion");
        let chunk: Vec<u8> = bytes.drain(..bytes.len().min(7)).collect();
        if hs.handle_read(ReadOutcome::Data(chunk)).unwrap() {
            break;
        }
    }
}

#[test]
fn connect_succeeds_on_valid_screen() {
    let (mut hs, request) = Handshake::new(Vec::new(), Vec::new());
    // The setup request starts with the byte-order byte.
    assert!(request.len() >= 12);
    feed_all(&mut hs, serialized_setup(1));
    let conn = match hs.finish(0) {
        Ok(c) => c,
        Err(e) => panic!("connect failed: {:?}", e),
    };
    assert_eq!(conn.setup().roots_len, 1);
    assert_eq!(conn.setup().resource_id_base, 0x2800);
    assert_eq!(conn.setup().resource_id_mask, 0x1ff);
    assert_eq!(conn.setup().maximum_request_length, 0xffff);
}

#[test]
fn connect_fails_on_invalid_screen() {
    let (mut hs, _request) = Handshake::new(Vec::new(), Vec::new());
    feed_all(&mut hs, serialized_setup(1));
    // Screen index 2 against one advertised root: refused before anything
    // is dispatched.
    match hs.finish(2) {
        Err(e) => assert_eq!(e, ConnectError::InvalidScreen),
        Ok(_) => panic!("an out-of-range screen must be refused"),
    }
}

#[test]
fn closed_stream_is_an_unexpected_end() {
    let (mut hs, _request) = Handshake::new(Vec::new(), Vec::new());
    assert_eq!(
        hs.handle_read(ReadOutcome::Closed).unwrap_err(),
        ConnectError::UnexpectedEndOfStream
    );
}

#[test]
fn would_block_makes_no_progress() {
    let (mut hs, _request) = Handshake::new(Vec::new(), Vec::new());
    assert_eq!(hs.handle_read(ReadOutcome::WouldBlock).unwrap(), false);
    assert!(!hs.is_complete());
}

#[test]
fn refused_setup_is_reported() {
    let mut failed = xproto::SetupFailed {
        status: 0,
        protocol_major_version: 11,
        protocol_minor_version: 0,
        length: 0,
        reason: b"refused!".to_vec(),
    };
    failed.length = ((failed.serialize().len() - 8) / 4) as u16;
    let (mut hs, _request) = Handshake::new(Vec::new(), Vec::new());
    feed_all(&mut hs, failed.serialize());
    match hs.finish(0) {
        Err(e) => assert_eq!(e, ConnectError::SetupFailed),
        Ok(_) => panic!("a refused setup must not connect"),
    }
}

#[test]
fn authentication_demand_is_reported() {
    let auth = xproto::SetupAuthenticate {
        status: 2,
        reason: b"Needs more auth.".to_vec(),
    };
    let (mut hs, _request) = Handshake::new(Vec::new(), Vec::new());
    feed_all(&mut hs, auth.serialize());
    match hs.finish(0) {
        Err(e) => assert_eq!(e, ConnectError::SetupAuthenticate),
        Ok(_) => panic!("an authentication demand must not connect"),
    }
}

#[test]
fn validation_ties_errors_to_their_causes() {
    let setup = Setup {
        resource_id_base: 0x2800,
        resource_id_mask: 0x1ff,
        maximum_request_length: 100,
        roots_len: 1,
    };
    // Screen out of range: invalid, whatever the mask.
    match validate_and_connect(setup, 1) {
        Err(e) => assert_eq!(e, ConnectError::InvalidScreen),
        Ok(_) => panic!("an out-of-range screen must be refused"),
    }
    // Valid screen, zero mask: the allocator's refusal.
    let zero_mask = Setup { resource_id_mask: 0, ..setup };
    match validate_and_connect(zero_mask, 0) {
        Err(e) => assert_eq!(e, ConnectError::ZeroIdMask),
        Ok(_) => panic!("a zero mask must be refused"),
    }
    // Valid screen and mask: connected.
    let conn = validate_and_connect(setup, 0).unwrap();
    assert_eq!(conn.setup().roots_len, 1);
}
