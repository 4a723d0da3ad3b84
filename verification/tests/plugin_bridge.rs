//! The handshake and the payload of the bridge.

use sonicbrew::alsa_plugin::bridge::{
    accept_echo, read_handshake, recv_frames_into, send_frames, write_handshake, Handshake,
    HandshakeError, OpenError, ShortRead, StreamDir, BRIDGE_MAGIC, BRIDGE_PROTO_VERSION,
    HANDSHAKE_LEN, MAX_CHANNELS, MAX_RATE,
};

fn bits(v: &[f32]) -> Vec<u32> {
    v.iter().map(|s| s.to_bits()).collect()
}

#[test]
fn handshake_roundtrip_cursor() {
    let hs = Handshake::new(StreamDir::Capture, 8, 96_000);
    let mut buf = Vec::new();
    write_handshake(&mut buf, &hs);
    assert_eq!(buf.len(), 20);
    // First word on the wire is the magic, little-endian.
    assert_eq!(&buf[0..4], &BRIDGE_MAGIC.to_le_bytes());
    let back = read_handshake(&buf[..]).expect("read");
    assert_eq!(back, hs);
}

#[test]
fn handshake_rejects_bad_magic() {
    let mut hs = Handshake::new(StreamDir::Playback, 2, 48_000);
    hs.magic = BRIDGE_MAGIC ^ 0xFFFF;
    let mut buf = Vec::new();
    write_handshake(&mut buf, &hs);
    match read_handshake(&buf[..]) {
        Err(HandshakeError::BadMagic(m)) => assert_eq!(m, hs.magic),
        other => panic!("expected BadMagic, got {other:?}"),
    }
}

#[test]
fn handshake_rejects_bad_version() {
    let mut hs = Handshake::new(StreamDir::Playback, 2, 48_000);
    hs.version = 99;
    let mut buf = Vec::new();
    write_handshake(&mut buf, &hs);
    assert!(matches!(
        read_handshake(&buf[..]),
        Err(HandshakeError::UnsupportedVersion(99))
    ));
}

#[test]
fn handshake_rejects_invalid_stream_dir_wire_value() {
    // Handshake::new always builds valid directions, so craft raw bytes.
    let mut buf = vec![0u8; 20];
    buf[0..4].copy_from_slice(&BRIDGE_MAGIC.to_le_bytes());
    buf[4..8].copy_from_slice(&BRIDGE_PROTO_VERSION.to_le_bytes());
    buf[8..12].copy_from_slice(&7u32.to_le_bytes());
    buf[12..16].copy_from_slice(&2u32.to_le_bytes());
    buf[16..20].copy_from_slice(&48_000u32.to_le_bytes());
    assert!(matches!(
        read_handshake(&buf[..]),
        Err(HandshakeError::Invalid("stream_dir"))
    ));
}

#[test]
fn handshake_rejects_out_of_range_channels_and_rate() {
    let cases: [(fn(&mut Handshake), &str); 4] = [
        (|h: &mut Handshake| h.channels = 0, "channels"),
        (
            |h: &mut Handshake| h.channels = MAX_CHANNELS + 1,
            "channels",
        ),
        (|h: &mut Handshake| h.rate = 0, "rate"),
        (|h: &mut Handshake| h.rate = MAX_RATE + 1, "rate"),
    ];
    for (patch, field) in cases {
        let mut hs = Handshake::new(StreamDir::Playback, 2, 48_000);
        patch(&mut hs);
        let mut buf = Vec::new();
        write_handshake(&mut buf, &hs);
        match read_handshake(&buf[..]) {
            Err(HandshakeError::Invalid(what)) => assert_eq!(what, field),
            other => panic!("expected Invalid({field:?}), got {other:?}"),
        }
    }
}

#[test]
fn frame_bytes_are_explicit_little_endian() {
    let mut buf = Vec::new();
    send_frames(&mut buf, &bits(&[1.0_f32]));
    // IEEE-754 1.0 = 0x3F800000: LE bytes 00 00 80 3F.
    assert_eq!(buf, vec![0x00, 0x00, 0x80, 0x3F]);
}

#[test]
fn send_recv_frames_roundtrip_cursor() {
    let samples: Vec<f32> = (-40_i32..40)
        .map(|i| i as f32 * 0.031_25 - 0.5)
        .chain([f32::NEG_INFINITY, f32::INFINITY])
        .collect();
    let mut buf = Vec::new();
    send_frames(&mut buf, &bits(&samples));
    let mut back = vec![0_u32; samples.len()];
    recv_frames_into(&buf[..], &mut back).unwrap();
    // Bit-exact through explicit LE encoding, including infinities.
    assert_eq!(back, bits(&samples));
}

/// The two ends of a connection: what one writes, the other reads.
#[test]
fn tcp_playback_loopback_roundtrip() {
    let offered = Handshake::new(StreamDir::Playback, 2, 48_000);
    let mut to_server = Vec::new();
    write_handshake(&mut to_server, &offered);
    let hs = read_handshake(&to_server).expect("server handshake");
    let mut to_client = Vec::new();
    write_handshake(&mut to_client, &hs);
    let echoed = accept_echo(&offered, &to_client).expect("connect");
    assert_eq!(echoed.stream_dir, StreamDir::Playback);
    assert_eq!(echoed.channels, 2);

    let sent: Vec<f32> = (0..16_i32).map(|i| i as f32 * 0.25 - 2.0).collect();
    let mut wire = Vec::new();
    send_frames(&mut wire, &bits(&sent));
    assert_eq!(wire.len(), 64);
    let mut got = vec![0_u32; sent.len()];
    recv_frames_into(&wire, &mut got).expect("recv");
    assert_eq!(got, bits(&sent));
    assert_eq!(hs.channels, 2);
    assert_eq!(hs.rate, 48_000);
}

#[test]
fn tcp_connect_rejects_mismatched_echo() {
    let offered = Handshake::new(StreamDir::Playback, 2, 48_000);
    let mut to_server = Vec::new();
    write_handshake(&mut to_server, &offered);
    let mut hs = read_handshake(&to_server).expect("server handshake");
    hs.channels = 8; // disagree on purpose
    let mut to_client = Vec::new();
    write_handshake(&mut to_client, &hs);
    let err = accept_echo(&offered, &to_client).expect_err("mismatch must fail");
    assert!(matches!(err, OpenError::Mismatch { .. }));
    assert_eq!(
        err.message(),
        "bridge echo mismatch: offered Handshake { magic: 1396854354, version: 1, stream_dir: \
         Playback, channels: 2, rate: 48000 }, echoed Handshake { magic: 1396854354, version: 1, \
         stream_dir: Playback, channels: 8, rate: 48000 }"
    );
}

#[test]
fn unix_capture_roundtrip() {
    let offered = Handshake::new(StreamDir::Capture, 1, 44_100);
    let mut to_server = Vec::new();
    write_handshake(&mut to_server, &offered);
    let hs = read_handshake(&to_server).expect("server handshake");
    let mut to_client = Vec::new();
    write_handshake(&mut to_client, &hs);
    let expect: Vec<f32> = (0..12_i32).map(|i| i as f32 / 12.0 - 0.5).collect();
    send_frames(&mut to_client, &bits(&expect));

    let echoed = accept_echo(&offered, &to_client).expect("connect");
    assert_eq!(echoed.stream_dir, StreamDir::Capture);
    assert_eq!(echoed.rate, 44_100);
    let mut got = vec![0_u32; 12];
    recv_frames_into(&to_client[HANDSHAKE_LEN..], &mut got).expect("recv");
    assert_eq!(got, bits(&expect));
}

#[test]
fn handshake_that_ends_early_is_an_io_error() {
    let mut buf = Vec::new();
    write_handshake(&mut buf, &Handshake::new(StreamDir::Playback, 2, 48_000));
    assert_eq!(buf.len(), HANDSHAKE_LEN);
    assert!(matches!(
        read_handshake(&buf[..19]),
        Err(HandshakeError::Io(_))
    ));
    assert!(matches!(
        accept_echo(&Handshake::new(StreamDir::Playback, 2, 48_000), &buf[..3]),
        Err(OpenError::Handshake(HandshakeError::Io(_)))
    ));
}

#[test]
fn short_payload_leaves_the_samples() {
    let mut out = vec![7_u32, 8];
    assert_eq!(
        recv_frames_into(&[1, 2, 3, 4, 5, 6, 7], &mut out),
        Err(ShortRead {
            samples: 2,
            bytes: 7
        })
    );
    assert_eq!(out, vec![7, 8]);
}

#[test]
fn stream_dir_wire_values() {
    assert_eq!(StreamDir::Playback.to_u32(), 0);
    assert_eq!(StreamDir::Capture.to_u32(), 1);
    assert_eq!(StreamDir::from_u32(0), Some(StreamDir::Playback));
    assert_eq!(StreamDir::from_u32(1), Some(StreamDir::Capture));
    assert_eq!(StreamDir::from_u32(2), None);
}

#[test]
fn handshake_error_texts() {
    assert_eq!(
        HandshakeError::BadMagic(0xABCD).message(),
        "bad handshake magic 0x0000abcd"
    );
    assert_eq!(
        HandshakeError::UnsupportedVersion(99).message(),
        "unsupported bridge version 99"
    );
    assert_eq!(
        HandshakeError::Invalid("rate").message(),
        "invalid handshake field: rate"
    );
    assert_eq!(
        HandshakeError::Io(String::from("eof")).message(),
        "handshake i/o: eof"
    );
    assert_eq!(
        OpenError::Io(String::from("refused")).message(),
        "bridge connect: refused"
    );
    assert_eq!(
        OpenError::Handshake(HandshakeError::Invalid("rate")).message(),
        "bridge handshake: invalid handshake field: rate"
    );
}

#[test]
fn limits_of_a_handshake_are_inclusive() {
    let hs = Handshake::new(StreamDir::Capture, MAX_CHANNELS, MAX_RATE);
    let mut buf = Vec::new();
    write_handshake(&mut buf, &hs);
    assert_eq!(read_handshake(&buf), Ok(hs));
}
