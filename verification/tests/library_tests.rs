//! Tests of the library's laws on concrete values, of the edge cases the
//! parser handles, of every error, and of the identifier and hex helpers.

use usb_can::backends::client_core::{meta_to_message, parsed_to_message, ClientCore};
use usb_can::backends::embedded_io::{AsyncCanUsbClient, CanUsbClient, EmbeddedIoError, TX_BUFFER_SIZE};
use usb_can::backends::rx_buffer::{RxBuffer, RX_BUFFER_SIZE};
use usb_can::backends::tokio_serial::TokioSerialConfig;
use usb_can::protocol::wareshare_usb_can_a::{
    CanMode, CanSpeed, Config, InvalidCanSpeed, WaveshareUsbCanA, CMD_FRAME_SIZE, DATA_FRAME_MAX_SIZE,
};
use usb_can::protocol::{build_data_frame, build_settings_frame, generate_checksum, parse_frames, parse_next_frame};
use usb_can::{
    hex_to_bytes, parse_can_id, CanFrameType, CanMessage, ExtendedId, Frame, Id, ParsedFrame, ParsedFrameMeta,
    Protocol, StandardId,
};

fn std_id(raw: u16) -> Id {
    Id::Standard(StandardId::new(raw).unwrap())
}

fn ext_id(raw: u32) -> Id {
    Id::Extended(ExtendedId::new(raw).unwrap())
}

const ALL_SPEEDS: [CanSpeed; 12] = [
    CanSpeed::Bps1000000,
    CanSpeed::Bps800000,
    CanSpeed::Bps500000,
    CanSpeed::Bps400000,
    CanSpeed::Bps250000,
    CanSpeed::Bps200000,
    CanSpeed::Bps125000,
    CanSpeed::Bps100000,
    CanSpeed::Bps50000,
    CanSpeed::Bps20000,
    CanSpeed::Bps10000,
    CanSpeed::Bps5000,
];

// ---------------------------------------------------------------------
// Identifiers
// ---------------------------------------------------------------------

#[test]
fn standard_id_range() {
    assert_eq!(StandardId::new(0x7FF).unwrap().as_raw(), 0x7FF);
    assert_eq!(StandardId::new(0).unwrap().as_raw(), 0);
    assert!(StandardId::new(0x800).is_none());
}

#[test]
fn extended_id_range() {
    assert_eq!(ExtendedId::new(0x1FFF_FFFF).unwrap().as_raw(), 0x1FFF_FFFF);
    assert_eq!(ExtendedId::new(0x1234).unwrap().as_raw(), 0x1234);
    assert!(ExtendedId::new(0x2000_0000).is_none());
}

#[test]
fn id_from_raw_picks_kind_by_range() {
    assert_eq!(CanMessage::id_from_raw(0x7FF), Some(std_id(0x7FF)));
    assert_eq!(CanMessage::id_from_raw(0x800), Some(ext_id(0x800)));
    assert_eq!(CanMessage::id_from_raw(0x1FFF_FFFF), Some(ext_id(0x1FFF_FFFF)));
    assert_eq!(CanMessage::id_from_raw(0x2000_0000), None);
    assert_eq!(CanMessage::raw_id(ext_id(0x800)), 0x800);
    assert_eq!(CanMessage::raw_id(std_id(0x12)), 0x12);
}

#[test]
fn frame_type_of_id() {
    assert_eq!(CanFrameType::from(std_id(1)), CanFrameType::Standard);
    assert_eq!(CanFrameType::from(ext_id(1)), CanFrameType::Extended);
    assert_eq!(CanFrameType::Standard.code(), 0x01);
    assert_eq!(CanFrameType::Extended.code(), 0x02);
}

// ---------------------------------------------------------------------
// Messages and frames
// ---------------------------------------------------------------------

#[test]
fn message_rejects_long_data_and_length() {
    assert!(CanMessage::new(std_id(1), &[0u8; 9]).is_none());
    assert!(CanMessage::new(std_id(1), &[0u8; 8]).is_some());
    assert!(CanMessage::new_remote(std_id(1), 9).is_none());
    let remote = CanMessage::new_remote(ext_id(0x100), 3).unwrap();
    assert!(remote.is_remote_frame());
    assert!(remote.is_extended());
    assert_eq!(remote.dlc(), 3);
    assert_eq!(remote.data(), &[] as &[u8]);
}

#[test]
fn message_from_parts_copies_either_kind() {
    let data = CanMessage::from_parts(std_id(5), false, 7, &[1, 2]).unwrap();
    assert!(!data.is_remote_frame());
    assert_eq!(data.dlc(), 2);
    assert_eq!(data.data(), &[1, 2]);
    let remote = CanMessage::from_parts(std_id(5), true, 4, &[1, 2]).unwrap();
    assert!(remote.is_remote_frame());
    assert_eq!(remote.dlc(), 4);
    assert!(CanMessage::from_parts(std_id(5), true, 9, &[]).is_none());
}

#[test]
fn message_frame_roundtrip() {
    let msg = CanMessage::new(ext_id(0x1ABCDE), &[9, 8, 7]).unwrap();
    let frame = Frame::from(msg);
    assert!(frame.is_extended());
    assert_eq!(frame.frame_type, CanFrameType::Extended);
    let back: CanMessage = frame.into();
    assert_eq!(back, msg);
}

#[test]
fn frame_accessors() {
    let frame = Frame::with_id(0x7FF, &[1, 2, 3]);
    assert_eq!(frame.raw_id(), 0x7FF);
    assert_eq!(frame.dlc(), 3);
    assert!(!frame.is_rtr());
    assert!(!frame.is_extended());
    let frame = Frame::with_id(0x800, &[]);
    assert!(frame.is_extended());
    assert_eq!(frame.id(), ext_id(0x800));
    let remote = Frame::rtr(ext_id(0x42));
    assert!(remote.is_rtr());
    assert!(remote.is_extended());
}

// ---------------------------------------------------------------------
// Hex helpers
// ---------------------------------------------------------------------

#[test]
fn hex_to_bytes_values() {
    assert_eq!(hex_to_bytes("a1ff00"), Some(vec![0xA1, 0xFF, 0x00]));
    assert_eq!(hex_to_bytes("De:aD-bE eF"), Some(vec![0xDE, 0xAD, 0xBE, 0xEF]));
    assert_eq!(hex_to_bytes(""), Some(vec![]));
    assert_eq!(hex_to_bytes("xyz"), Some(vec![]));
    assert_eq!(hex_to_bytes("abc"), None);
    assert_eq!(Frame::hex_to_bytes("0102"), Some(vec![0x01, 0x02]));
}

#[test]
fn parse_can_id_values() {
    assert_eq!(parse_can_id("1aB"), Some(std_id(0x1AB)));
    assert_eq!(parse_can_id("0x800"), Some(ext_id(0x800)));
    assert_eq!(parse_can_id("1FFFFFFF"), Some(ext_id(0x1FFF_FFFF)));
    assert_eq!(parse_can_id("20000000"), None);
    assert_eq!(parse_can_id("100000000"), None);
    assert_eq!(parse_can_id(""), None);
    assert_eq!(parse_can_id("zz"), None);
}

#[test]
fn from_hex_ignores_separators_in_id() {
    let frame = Frame::from_hex("0x1_23", "01").unwrap();
    assert_eq!(frame.raw_id(), 0x0123);
    assert_eq!(frame.data(), &[0x01]);
    assert!(Frame::from_hex("", "01").is_none());
}

// ---------------------------------------------------------------------
// Speeds, modes, configuration
// ---------------------------------------------------------------------

#[test]
fn speed_bps_roundtrip_for_every_speed() {
    for (i, speed) in ALL_SPEEDS.iter().enumerate() {
        assert_eq!(CanSpeed::try_from(speed.as_bps()), Ok(*speed));
        assert_eq!(speed.code() as usize, i + 1);
    }
}

#[test]
fn speed_invalid_carries_value() {
    assert_eq!(CanSpeed::try_from(123456u32), Err(InvalidCanSpeed(123456)));
    assert_eq!(CanSpeed::try_from(999_999u32), Err(InvalidCanSpeed(999_999)));
}

#[test]
fn config_default_values() {
    let config = Config::default();
    assert_eq!(config.can_speed, CanSpeed::Bps500000);
    assert_eq!(config.can_mode, CanMode::Normal);
    assert_eq!(config.frame_type, CanFrameType::Standard);
    assert_eq!(config.filter_id, 0);
    assert_eq!(config.mask_id, 0);
}

#[test]
fn tokio_serial_config_defaults() {
    let config = TokioSerialConfig::new("/dev/ttyUSB0");
    assert_eq!(config.device, "/dev/ttyUSB0");
    assert_eq!(config.baudrate, 2_000_000);
    assert_eq!(config.can, Config::default());
    assert!(!config.debug_traffic);
}

// ---------------------------------------------------------------------
// Settings frame and checksum
// ---------------------------------------------------------------------

#[test]
fn checksum_is_sum_masked_to_8_bits() {
    assert_eq!(generate_checksum(&[1, 2, 3, 250], 1, 3), 255);
    assert_eq!(generate_checksum(&[1, 2, 3, 251], 1, 3), 0);
    assert_eq!(generate_checksum(&[7, 9], 0, 0), 0);
    assert_eq!(WaveshareUsbCanA::generate_checksum(&[200, 100, 50], 0, 3), 94);
}

#[test]
fn settings_frame_default_config_exact() {
    let config = Config::default();
    let frame = build_settings_frame(
        config.can_speed.code(),
        config.can_mode.code(),
        config.frame_type.code(),
        config.filter_id,
        config.mask_id,
    );
    assert_eq!(
        frame,
        [0xAA, 0x55, 0x12, 0x03, 0x01, 0, 0, 0, 0, 0, 0, 0, 0, 0x00, 0x01, 0, 0, 0, 0, 0x17]
    );
}

#[test]
fn settings_frame_checksum_covers_bytes_2_to_18() {
    let frame = WaveshareUsbCanA::build_settings_frame(0x0c, 0x03, 0x02, 0xDEADBEEF, 0x01020304);
    let sum: u32 = frame[2..19].iter().map(|&b| b as u32).sum();
    assert_eq!(frame[19], (sum & 0xFF) as u8);
    assert_eq!(&frame[5..9], &[0xEF, 0xBE, 0xAD, 0xDE]);
    assert_eq!(&frame[9..13], &[0x04, 0x03, 0x02, 0x01]);
    assert_eq!(frame[13], 0x03);
}

#[test]
fn protocol_settings_frame_needs_room() {
    let protocol = WaveshareUsbCanA;
    let mut small = [0xEEu8; CMD_FRAME_SIZE - 1];
    assert_eq!(
        protocol.build_settings_frame(&Config::default(), &mut small),
        Err("Output buffer too small for settings frame")
    );
    assert_eq!(small, [0xEEu8; CMD_FRAME_SIZE - 1]);

    let mut out = [0xEEu8; TX_BUFFER_SIZE];
    let n = protocol.build_settings_frame(&Config::default(), &mut out).unwrap();
    assert_eq!(n, CMD_FRAME_SIZE);
    let expected = build_settings_frame(0x03, 0x00, 0x01, 0, 0);
    assert_eq!(&out[..n], &expected[..]);
    assert!(out[n..].iter().all(|&b| b == 0xEE));
}

// ---------------------------------------------------------------------
// Data frames
// ---------------------------------------------------------------------

#[test]
fn data_frame_exact_bytes() {
    assert_eq!(
        build_data_frame(CanFrameType::Extended, 0x12345, &[1, 2, 3]).unwrap(),
        vec![0xAA, 0xE3, 0x45, 0x23, 1, 2, 3, 0x55]
    );
    assert_eq!(build_data_frame(CanFrameType::Standard, 0x7FF, &[]).unwrap(), vec![0xAA, 0xC0, 0xFF, 0x07, 0x55]);
    assert_eq!(
        WaveshareUsbCanA::build_data_frame(CanFrameType::Standard, 1, &[0u8; 8]).unwrap().len(),
        DATA_FRAME_MAX_SIZE
    );
    assert_eq!(build_data_frame(CanFrameType::Standard, 1, &[0u8; 9]), Err("Data too long (max 8 bytes)"));
}

#[test]
fn data_frame_into_leaves_rest_of_buffer() {
    let mut out = [0x99u8; DATA_FRAME_MAX_SIZE];
    let n = WaveshareUsbCanA::build_data_frame_into(CanFrameType::Standard, 0x123, &[0x11], &mut out).unwrap();
    assert_eq!(n, 6);
    assert_eq!(&out[..6], &[0xAA, 0xC1, 0x23, 0x01, 0x11, 0x55]);
    assert!(out[6..].iter().all(|&b| b == 0x99));

    let mut untouched = [0x99u8; DATA_FRAME_MAX_SIZE];
    assert_eq!(
        WaveshareUsbCanA::build_data_frame_into(CanFrameType::Standard, 1, &[0u8; 9], &mut untouched),
        Err("Data too long (max 8 bytes)")
    );
    assert_eq!(untouched, [0x99u8; DATA_FRAME_MAX_SIZE]);
}

#[test]
fn protocol_data_frame_needs_room_and_short_data() {
    let protocol = WaveshareUsbCanA;
    let mut small = [0u8; DATA_FRAME_MAX_SIZE - 1];
    assert_eq!(
        protocol.build_data_frame(CanFrameType::Standard, 1, &[1], &mut small),
        Err("Output buffer too small for data frame")
    );
    let mut out = [0u8; TX_BUFFER_SIZE];
    assert_eq!(
        protocol.build_data_frame(CanFrameType::Standard, 1, &[0u8; 9], &mut out),
        Err("Data too long (max 8 bytes)")
    );
    let n = protocol.build_data_frame(CanFrameType::Standard, 0x321, &[0x55], &mut out).unwrap();
    assert_eq!(&out[..n], &[0xAA, 0xC1, 0x21, 0x03, 0x55, 0x55]);
}

// ---------------------------------------------------------------------
// Parsing
// ---------------------------------------------------------------------

#[test]
fn built_frame_is_parsed_back_whatever_follows() {
    let wire = build_data_frame(CanFrameType::Extended, 0x1ABCDE, &[4, 5, 6]).unwrap();
    let mut buffer = wire.clone();
    buffer.extend_from_slice(&[0xAA, 0xC8, 0x00]);
    let mut data = [0u8; 8];
    let (consumed, meta) = parse_next_frame(&buffer, &mut data, false);
    assert_eq!(consumed, wire.len());
    assert_eq!(meta, Some(ParsedFrameMeta { id: 0xBCDE, dlc: 3, is_extended: true }));
    assert_eq!(&data[..3], &[4, 5, 6]);
}

#[test]
fn stream_of_frames_is_parsed_back_in_order() {
    let frames: Vec<(CanFrameType, u32, Vec<u8>)> = vec![
        (CanFrameType::Standard, 0x001, vec![1]),
        (CanFrameType::Extended, 0x0ABC, vec![1, 2, 3, 4, 5, 6, 7, 8]),
        (CanFrameType::Standard, 0x7FF, vec![0x55, 0xAA]),
    ];
    let mut wire = Vec::new();
    for (kind, id, data) in &frames {
        wire.extend(build_data_frame(*kind, *id, data).unwrap());
    }
    let mut output = Vec::new();
    let consumed = parse_frames(&wire, &mut output, false);
    assert_eq!(consumed, wire.len());
    assert_eq!(output.len(), 3);
    for ((kind, id, data), parsed) in frames.iter().zip(&output) {
        assert_eq!(parsed.id as u32, *id);
        assert_eq!(&parsed.data, data);
        assert_eq!(parsed.is_extended, *kind == CanFrameType::Extended);
    }
}

#[test]
fn parse_frames_appends_to_output() {
    let mut output = vec![ParsedFrame { id: 7, data: vec![], is_extended: false }];
    let wire = build_data_frame(CanFrameType::Standard, 0x10, &[1, 2]).unwrap();
    let consumed = WaveshareUsbCanA.parse_frames(&wire, &mut output, false);
    assert_eq!(consumed, 7);
    assert_eq!(output.len(), 2);
    assert_eq!(output[0].id, 7);
    assert_eq!(output[1].id, 0x10);
}

#[test]
fn lone_empty_frame_is_found() {
    let wire = build_data_frame(CanFrameType::Standard, 0x123, &[]).unwrap();
    assert_eq!(wire, vec![0xAA, 0xC0, 0x23, 0x01, 0x55]);
    let mut data = [0u8; 8];
    assert_eq!(
        parse_next_frame(&wire, &mut data, false),
        (5, Some(ParsedFrameMeta { id: 0x123, dlc: 0, is_extended: false }))
    );
    let mut longer = wire.clone();
    longer.push(0x00);
    assert_eq!(
        parse_next_frame(&longer, &mut data, false),
        (5, Some(ParsedFrameMeta { id: 0x123, dlc: 0, is_extended: false }))
    );
}

#[test]
fn junk_only_keeps_last_four_bytes() {
    let buffer = [0u8; 20];
    let mut data = [0x77u8; 8];
    assert_eq!(parse_next_frame(&buffer, &mut data, false), (16, None));
    assert_eq!(data, [0x77u8; 8]);
    assert_eq!(parse_next_frame(&buffer[..5], &mut data, false), (1, None));
    assert_eq!(parse_next_frame(&buffer[..4], &mut data, false), (0, None));
}

#[test]
fn oversized_dlc_and_bad_footer_are_junk() {
    // DLC 9 is not classic CAN: the start byte is skipped.
    let mut buffer = vec![0xAA, 0xC9, 0, 0, 0, 0, 0, 0, 0, 0, 0, 0, 0, 0x55];
    buffer.extend(build_data_frame(CanFrameType::Standard, 0x22, &[0x33]).unwrap());
    let mut data = [0u8; 8];
    let (consumed, meta) = parse_next_frame(&buffer, &mut data, false);
    assert_eq!(consumed, buffer.len());
    assert_eq!(meta.unwrap().id, 0x22);

    // Wrong footer: skipped one byte at a time.
    let bad = [0xAA, 0xC1, 0x01, 0x00, 0x10, 0x54, 0x00];
    assert_eq!(parse_next_frame(&bad, &mut data, false), (3, None));
}

#[test]
fn incomplete_frame_after_junk_keeps_the_partial_frame() {
    let buffer = [0x01, 0x02, 0xAA, 0xC8, 0x00, 0x00, 0x01, 0x02];
    let mut data = [0u8; 8];
    assert_eq!(parse_next_frame(&buffer, &mut data, false), (2, None));
}

// ---------------------------------------------------------------------
// Receive buffer and client state
// ---------------------------------------------------------------------

#[test]
fn rx_buffer_appends_and_resets_on_overflow() {
    let mut rx = RxBuffer::new();
    assert_eq!(rx.len(), 0);
    rx.push_received(&[1, 2, 3]);
    assert_eq!(rx.as_slice(), &[1, 2, 3]);
    assert_eq!(rx.free_space(), RX_BUFFER_SIZE - 3);
    let big = vec![9u8; RX_BUFFER_SIZE - 2];
    rx.push_received(&big);
    assert_eq!(rx.as_slice(), &big[..]);
    rx.consume(2);
    assert_eq!(rx.len(), RX_BUFFER_SIZE - 4);
    rx.push_received(&[1, 2, 3, 4]);
    assert_eq!(rx.len(), RX_BUFFER_SIZE);
    rx.clear_if_full();
    assert_eq!(rx.len(), 0);
    rx.push_received(&[5]);
    rx.clear_if_full();
    assert_eq!(rx.as_slice(), &[5]);
}

#[test]
fn rx_buffer_next_frame_drops_what_was_parsed() {
    let mut rx = RxBuffer::new();
    let mut wire = vec![0x00, 0x01];
    wire.extend(build_data_frame(CanFrameType::Standard, 0x55, &[7, 8]).unwrap());
    wire.extend(&[0xAA, 0xC2]);
    rx.push_received(&wire);
    let mut data = [0u8; 8];
    let meta = rx.next_frame(&WaveshareUsbCanA, &mut data, false).unwrap();
    assert_eq!(meta, ParsedFrameMeta { id: 0x55, dlc: 2, is_extended: false });
    assert_eq!(&data[..2], &[7, 8]);
    assert_eq!(rx.as_slice(), &[0xAA, 0xC2]);
}

#[test]
fn frame_survives_the_wire() {
    let mut sender = ClientCore::new(WaveshareUsbCanA, Config::default(), false);
    let mut receiver = ClientCore::new(WaveshareUsbCanA, Config::default(), false);
    for frame in [
        Frame::standard(StandardId::new(0x123).unwrap(), &[0x11, 0x22]),
        Frame::extended(ExtendedId::new(0xBEEF).unwrap(), &[1, 2, 3, 4, 5, 6, 7, 8]),
        Frame::with_id(0x7FF, &[0]),
    ] {
        let mut out = [0u8; TX_BUFFER_SIZE];
        let n = sender.encode_frame(&frame, &mut out).unwrap();
        let room = receiver.prepare_receive();
        assert!(room >= n);
        receiver.receive(&out[..n]);
        let msg = receiver.try_read().unwrap();
        assert_eq!(msg.id(), frame.id());
        assert_eq!(msg.data(), frame.data());
        assert!(!msg.is_remote_frame());
        assert_eq!(receiver.pending_len(), 0);
    }
    sender.receive(&[]);
    assert!(sender.try_read().is_none());
}

#[test]
fn extended_id_above_16_bits_is_cut_on_the_wire() {
    let frame = Frame::extended(ExtendedId::new(0x12345).unwrap(), &[1]);
    let core = ClientCore::new(WaveshareUsbCanA, Config::default(), false);
    let mut out = [0u8; TX_BUFFER_SIZE];
    let n = core.encode_frame(&frame, &mut out).unwrap();
    let mut receiver = ClientCore::new(WaveshareUsbCanA, Config::default(), false);
    receiver.receive(&out[..n]);
    let msg = receiver.try_read().unwrap();
    assert_eq!(msg.id(), ext_id(0x2345));
}

#[test]
fn invalid_standard_id_is_dropped_or_skipped() {
    // 0x800 in a standard frame makes no message.
    let mut wire = vec![0xAA, 0xC1, 0x00, 0x08, 0x01, 0x55];
    wire.extend(build_data_frame(CanFrameType::Standard, 0x10, &[2]).unwrap());

    let mut core = ClientCore::new(WaveshareUsbCanA, Config::default(), false);
    core.receive(&wire);
    assert!(core.try_read().is_none());
    assert_eq!(core.pending_len(), 6);
    assert_eq!(core.try_read().unwrap().data(), &[2]);

    let mut core = ClientCore::new(WaveshareUsbCanA, Config::default(), false);
    core.receive(&wire);
    let msg = core.try_read_valid().unwrap();
    assert_eq!(msg.id(), std_id(0x10));
    assert_eq!(core.pending_len(), 0);
    assert!(core.try_read_valid().is_none());
}

#[test]
fn meta_and_parsed_frame_conversions() {
    let meta = ParsedFrameMeta { id: 0x7FF, dlc: 2, is_extended: false };
    let msg = meta_to_message(&meta, &[1, 2, 3]).unwrap();
    assert_eq!(msg.data(), &[1, 2]);
    assert_eq!(msg.id(), std_id(0x7FF));
    let bad = ParsedFrameMeta { id: 0x800, dlc: 0, is_extended: false };
    assert!(meta_to_message(&bad, &[]).is_none());
    let long = ParsedFrameMeta { id: 1, dlc: 9, is_extended: true };
    assert!(meta_to_message(&long, &[0u8; 9]).is_none());

    let parsed = ParsedFrame { id: 0x800, data: vec![1], is_extended: true };
    assert_eq!(parsed_to_message(&parsed).unwrap().id(), ext_id(0x800));
    let parsed = ParsedFrame { id: 0x800, data: vec![1], is_extended: false };
    assert!(parsed_to_message(&parsed).is_none());
}

#[test]
fn embedded_io_clients_hold_stream_and_state() {
    let mut client = CanUsbClient::from_parts(vec![1u8, 2], WaveshareUsbCanA, Config::default(), true);
    assert_eq!(client.io(), &vec![1u8, 2]);
    client.io_mut().push(3);
    assert_eq!(client.io().len(), 3);
    assert_eq!(client.config(), &Config::default());
    assert!(client.state().debug_traffic());
    let mut out = [0u8; TX_BUFFER_SIZE];
    assert_eq!(client.state().settings_frame(&mut out), Ok(CMD_FRAME_SIZE));
    assert!(client.try_read().is_none());
    let wire = build_data_frame(CanFrameType::Standard, 0x321, &[0x55]).unwrap();
    client.receive(&wire);
    assert_eq!(client.try_read().unwrap().id(), std_id(0x321));

    let mut client = AsyncCanUsbClient::from_parts((), WaveshareUsbCanA, Config::default(), false);
    assert_eq!(client.io(), &());
    client.receive(&wire);
    assert_eq!(client.try_read().unwrap().data(), &[0x55]);
    assert_eq!(client.state().pending_len(), 0);
    assert_eq!(client.config().can_speed, CanSpeed::Bps500000);
    assert!(client.io_mut() == &mut ());
}

#[test]
fn embedded_io_error_from_io_error() {
    let e: EmbeddedIoError<u32> = EmbeddedIoError::from(7u32);
    assert!(matches!(e, EmbeddedIoError::Io(7)));
}

#[test]
fn client_writes_settings_then_data_frames() {
    let config = Config { can_speed: CanSpeed::Bps500000, ..Default::default() };
    let client = CanUsbClient::from_parts(Vec::<u8>::new(), WaveshareUsbCanA, config, false);
    let mut out = [0u8; TX_BUFFER_SIZE];
    let n = client.state().settings_frame(&mut out).unwrap();
    assert_eq!(
        &out[..n],
        &[0xAA, 0x55, 0x12, 0x03, 0x01, 0, 0, 0, 0, 0, 0, 0, 0, 0x00, 0x01, 0, 0, 0, 0, 0x17]
    );

    let mut out = [0u8; TX_BUFFER_SIZE];
    let frame = Frame::standard(StandardId::new(0x123).unwrap(), &[0x11, 0x22]);
    let n = client.state().encode_frame(&frame, &mut out).unwrap();
    assert_eq!(&out[..n], &[0xAA, 0xC2, 0x23, 0x01, 0x11, 0x22, 0x55]);

    let mut out = [0u8; TX_BUFFER_SIZE];
    let frame = Frame::extended(ExtendedId::new(0x1ABCDE).unwrap(), &[1, 2, 3, 4]);
    let n = client.state().encode_frame(&frame, &mut out).unwrap();
    assert_eq!(&out[..n], &[0xAA, 0xE4, 0xDE, 0xBC, 0x01, 0x02, 0x03, 0x04, 0x55]);
}

#[test]
fn client_receive_keeps_configuration_and_stream() {
    let config = Config { can_speed: CanSpeed::Bps250000, ..Default::default() };
    let mut client = CanUsbClient::from_parts(vec![7u8], WaveshareUsbCanA, config, false);
    assert_eq!(client.prepare_receive(), RX_BUFFER_SIZE);
    assert!(client.try_read().is_none());
    let first = build_data_frame(CanFrameType::Standard, 0x101, &[1]).unwrap();
    let second = build_data_frame(CanFrameType::Extended, 0x202, &[2, 2]).unwrap();
    let mut wire = first.clone();
    wire.extend_from_slice(&second);
    client.receive(&wire);
    assert_eq!(client.prepare_receive(), RX_BUFFER_SIZE - wire.len());
    assert_eq!(client.try_read().unwrap().id(), std_id(0x101));
    assert_eq!(client.try_read().unwrap().id(), ext_id(0x202));
    assert!(client.try_read().is_none());
    assert_eq!(client.config(), &config);
    assert_eq!(client.io(), &vec![7u8]);

    let mut client = AsyncCanUsbClient::from_parts((), WaveshareUsbCanA, config, false);
    client.receive(&vec![0u8; RX_BUFFER_SIZE]);
    assert_eq!(client.prepare_receive(), RX_BUFFER_SIZE);
    assert_eq!(client.config(), &config);
}
