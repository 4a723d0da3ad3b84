//! The wire format of the browser gateway.

use audio_core_bsd::AudioFrame;
use sonicbrew::browser::codec;
use sonicbrew::browser::codec::{FrameSpec, GatewayError, HEADER_LEN, TAG_OPUS, TAG_PCM};
use sonicbrew::frame::PcmFrame;

/// The frame with its samples as bit patterns.
fn pcm(frame: &AudioFrame) -> PcmFrame {
    PcmFrame::from_planar(
        frame.channels,
        frame.sample_rate,
        frame.samples.iter().map(|s| s.to_bits()).collect(),
    )
}

/// The frame with its samples as floats.
fn audio(frame: &PcmFrame) -> AudioFrame {
    AudioFrame::from_planar(
        frame.channels,
        frame.sample_rate,
        frame.samples.iter().map(|b| f32::from_bits(*b)).collect(),
    )
}

fn encode_frame(frame: &AudioFrame) -> Result<Vec<u8>, GatewayError> {
    codec::encode_frame(&pcm(frame))
}

fn decode_frame(bytes: &[u8], spec: FrameSpec) -> Result<AudioFrame, GatewayError> {
    codec::decode_frame(bytes, spec).map(|f| audio(&f))
}

fn spec() -> FrameSpec {
    FrameSpec::new(2, 48_000)
}

fn is_bad(err: Result<AudioFrame, GatewayError>) -> bool {
    matches!(err, Err(GatewayError::BadFrame(_)))
}

fn is_bad_frame(result: Result<AudioFrame, GatewayError>) -> bool {
    is_bad(result)
}

fn round_trip(frame: &AudioFrame, spec: FrameSpec) -> AudioFrame {
    let bytes = encode_frame(frame).expect("encode_frame must succeed");
    decode_frame(&bytes, spec).expect("decode_frame must succeed")
}

fn assert_samples_eq(got: &[f32], want: &[f32]) {
    assert_eq!(got.len(), want.len(), "sample count mismatch");
    for (i, (g, w)) in got.iter().zip(want).enumerate() {
        assert!((g - w).abs() < 1e-6, "sample[{i}]: got {g}, want {w}");
    }
}

#[test]
fn round_trip_pcm_preserves_samples_and_metadata() {
    let original = AudioFrame::from_planar(2, 48_000, vec![0.1, -0.2, 0.3, -0.4]);
    let bytes = encode_frame(&original).unwrap();
    let decoded = decode_frame(&bytes, spec()).unwrap();
    assert_eq!(decoded.channels, original.channels);
    assert_eq!(decoded.sample_rate, original.sample_rate);
    assert_eq!(decoded.samples.len(), original.samples.len());
    for (got, want) in decoded.samples.iter().zip(&original.samples) {
        assert!(((got - want).abs()) < 1e-6);
    }
}

#[test]
fn encode_emits_documented_header_and_little_endian_payload() {
    // 1 channel, 48 kHz, one sample of 0.5.
    let frame = AudioFrame::from_planar(1, 48_000, vec![0.5]);
    let bytes = encode_frame(&frame).unwrap();
    // tag=0, ch=1, sr=48000 LE = 80 BB 00 00, 0.5f32 LE = 00 00 00 3F
    assert_eq!(
        bytes,
        vec![0x00, 0x01, 0x80, 0xBB, 0x00, 0x00, 0x00, 0x00, 0x00, 0x3F]
    );
}

#[test]
fn decode_mono_frame_on_mono_spec_round_trips() {
    let mono_spec = FrameSpec::new(1, 44_100);
    let frame = AudioFrame::from_planar(1, 44_100, vec![0.0, 1.0, -1.0]);
    let bytes = encode_frame(&frame).unwrap();
    let decoded = decode_frame(&bytes, mono_spec).unwrap();
    assert_eq!(decoded.channels, 1);
    assert_eq!(decoded.sample_rate, 44_100);
    assert_eq!(decoded.samples, vec![0.0, 1.0, -1.0]);
}

#[test]
fn decode_short_header_is_bad_frame() {
    assert!(is_bad(decode_frame(&[0u8, 1, 2, 3, 4], spec())));
}

#[test]
fn decode_unknown_tag_is_bad_frame() {
    let bytes = encode_frame(&AudioFrame::silence(2, 8, 48_000)).unwrap();
    let mut bad = bytes;
    bad[0] = 0x42; // unknown tag
    assert!(is_bad(decode_frame(&bad, spec())));
}

#[test]
fn decode_pcm_channel_mismatch_is_bad_frame() {
    // Header says 1 channel but spec wants 2.
    let bytes = encode_frame(&AudioFrame::silence(1, 8, 48_000)).unwrap();
    assert!(is_bad(decode_frame(&bytes, spec())));
}

#[test]
fn decode_pcm_sample_rate_mismatch_is_bad_frame() {
    let bytes = encode_frame(&AudioFrame::silence(2, 8, 44_100)).unwrap();
    assert!(is_bad(decode_frame(&bytes, spec())));
}

#[test]
fn decode_pcm_unaligned_payload_is_bad_frame() {
    // Build a valid header (2 ch, 48 kHz) then append a payload whose
    // length is not a multiple of channels*4 (= 8).
    let mut bytes = vec![TAG_PCM, 2];
    bytes.extend_from_slice(&48_000u32.to_le_bytes());
    bytes.extend_from_slice(&[0u8; 5]); // 5 bytes: not a multiple of 8
    assert!(is_bad(decode_frame(&bytes, spec())));
}

#[test]
fn decode_pcm_empty_payload_is_bad_frame() {
    let mut bytes = vec![TAG_PCM, 2];
    bytes.extend_from_slice(&48_000u32.to_le_bytes());
    // no payload
    assert!(is_bad(decode_frame(&bytes, spec())));
}

#[test]
fn decode_pcm_zero_channels_is_bad_frame() {
    let mut bytes = vec![TAG_PCM, 0];
    bytes.extend_from_slice(&48_000u32.to_le_bytes());
    bytes.extend_from_slice(&[0u8; 8]);
    assert!(is_bad(decode_frame(&bytes, spec())));
}

#[test]
fn decode_opus_tag_is_bad_frame_without_feature() {
    let mut bytes = vec![TAG_OPUS, 2];
    bytes.extend_from_slice(&48_000u32.to_le_bytes());
    bytes.extend_from_slice(&[0u8; 8]);
    let res = decode_frame(&bytes, spec());
    assert!(is_bad(res), "opus tag without feature must be BadFrame");
}

#[test]
fn header_and_tag_constants_are_stable() {
    assert_eq!(HEADER_LEN, 6);
    assert_eq!(TAG_PCM, 0);
    assert_eq!(TAG_OPUS, 1);
}

#[test]
fn round_trip_mono_44100() {
    let spec = FrameSpec::new(1, 44_100);
    let samples: Vec<f32> = (0..128).map(|i| i as f32 * 0.01).collect();
    let frame = AudioFrame::from_planar(1, 44_100, samples.clone());
    let decoded = round_trip(&frame, spec);
    assert_samples_eq(&decoded.samples, &samples);
}

#[test]
fn round_trip_stereo_48000() {
    let spec = FrameSpec::new(2, 48_000);
    // planar: [ch0_s0..ch0_sN, ch1_s0..ch1_sN]
    let samples: Vec<f32> = vec![0.1, 0.2, 0.3, 0.4, 0.5, 0.6];
    let frame = AudioFrame::from_planar(2, 48_000, samples.clone());
    let decoded = round_trip(&frame, spec);
    assert_samples_eq(&decoded.samples, &samples);
}

#[test]
fn round_trip_8_channel_96000() {
    let spec = FrameSpec::new(8, 96_000);
    let num_samples = 8 * 4; // 4 frames * 8 channels
    let samples: Vec<f32> = (0..num_samples).map(|i| (i as f32) * -0.1).collect();
    let frame = AudioFrame::from_planar(8, 96_000, samples.clone());
    let decoded = round_trip(&frame, spec);
    assert_samples_eq(&decoded.samples, &samples);
}

#[test]
fn round_trip_max_channels_255() {
    let spec = FrameSpec::new(255, 8_000);
    let num_samples = 255 * 2; // 2 frames * 255 channels
    let samples: Vec<f32> = vec![1.0; num_samples];
    let frame = AudioFrame::from_planar(255, 8_000, samples.clone());
    let decoded = round_trip(&frame, spec);
    assert_samples_eq(&decoded.samples, &samples);
}

#[test]
fn channels_255_header_fits_in_u8() {
    let frame = AudioFrame::from_planar(255, 48_000, vec![0.0; 255]);
    let bytes = encode_frame(&frame).unwrap();
    assert_eq!(bytes[1], 255);
}

#[test]
fn sample_rate_zero_round_trips() {
    let spec = FrameSpec::new(1, 0);
    let frame = AudioFrame::from_planar(1, 0, vec![42.0]);
    let decoded = round_trip(&frame, spec);
    assert_eq!(decoded.sample_rate, 0);
}

#[test]
fn sample_rate_max_u32_round_trips() {
    let spec = FrameSpec::new(1, u32::MAX);
    let frame = AudioFrame::from_planar(1, u32::MAX, vec![1.5]);
    let decoded = round_trip(&frame, spec);
    assert_eq!(decoded.sample_rate, u32::MAX);
}

#[test]
fn sample_rate_is_little_endian_in_wire_format() {
    let frame = AudioFrame::from_planar(1, 48_000, vec![0.0]);
    let bytes = encode_frame(&frame).unwrap();
    // 48_000 = 0xBB80; LE bytes at offset 2..6: 80 BB 00 00
    assert_eq!(bytes[2], 0x80);
    assert_eq!(bytes[3], 0xBB);
    assert_eq!(bytes[4], 0x00);
    assert_eq!(bytes[5], 0x00);
}

#[test]
fn f32_samples_are_little_endian_in_wire_format() {
    let frame = AudioFrame::from_planar(1, 48_000, vec![0.5_f32]);
    let bytes = encode_frame(&frame).unwrap();
    // 0.5f32 = 0x3F000000; LE bytes: 00 00 00 3F
    assert_eq!(bytes[6], 0x00);
    assert_eq!(bytes[7], 0x00);
    assert_eq!(bytes[8], 0x00);
    assert_eq!(bytes[9], 0x3F);
}

#[test]
fn large_payload_256_samples() {
    let spec = FrameSpec::new(2, 48_000);
    let samples: Vec<f32> = (0..512).map(|i| i as f32 * 0.001).collect();
    let frame = AudioFrame::from_planar(2, 48_000, samples.clone());
    let decoded = round_trip(&frame, spec);
    assert_samples_eq(&decoded.samples, &samples);
}

#[test]
fn large_payload_1024_samples() {
    let spec = FrameSpec::new(2, 48_000);
    let samples: Vec<f32> = (0..2048).map(|i| (i as f32).sin()).collect();
    let frame = AudioFrame::from_planar(2, 48_000, samples.clone());
    let decoded = round_trip(&frame, spec);
    assert_samples_eq(&decoded.samples, &samples);
}

#[test]
fn stereo_planar_order_preserved() {
    let spec = FrameSpec::new(2, 48_000);
    // ch0 = [1.0, 2.0, 3.0], ch1 = [4.0, 5.0, 6.0]
    let samples = vec![1.0, 2.0, 3.0, 4.0, 5.0, 6.0];
    let frame = AudioFrame::from_planar(2, 48_000, samples);
    let bytes = encode_frame(&frame).unwrap();
    let decoded = decode_frame(&bytes, spec).unwrap();

    // Reconstruct per-channel slices to verify ordering.
    // For 2ch with 3 frames each, planar layout = [ch0: 3 samples, ch1: 3 samples]
    assert_eq!(decoded.samples, vec![1.0, 2.0, 3.0, 4.0, 5.0, 6.0]);
}

#[test]
fn opus_tag_rejected_without_feature() {
    let mut bytes = vec![TAG_OPUS, 2];
    bytes.extend_from_slice(&48_000u32.to_le_bytes());
    bytes.extend_from_slice(&[0xAA; 32]);
    let result = decode_frame(&bytes, FrameSpec::new(2, 48_000));
    assert!(
        result.is_err(),
        "Opus tag must be rejected without opus feature"
    );
}

#[test]
fn header_len_constant_is_6() {
    assert_eq!(HEADER_LEN, 6);
}

#[test]
fn tag_constants_match_wire_spec() {
    assert_eq!(codec::TAG_PCM, TAG_PCM);
    assert_eq!(codec::TAG_OPUS, TAG_OPUS);
}

#[test]
fn empty_bytes_no_panic() {
    let result = decode_frame(&[], FrameSpec::new(2, 48_000));
    assert!(is_bad_frame(result));
}

#[test]
fn single_byte_no_panic() {
    let result = decode_frame(&[0x00], FrameSpec::new(2, 48_000));
    assert!(is_bad_frame(result));
}

#[test]
fn two_bytes_no_panic() {
    let result = decode_frame(&[0x00, 0x01], FrameSpec::new(2, 48_000));
    assert!(is_bad_frame(result));
}

#[test]
fn three_bytes_no_panic() {
    let result = decode_frame(&[0x00, 0x01, 0x02], FrameSpec::new(2, 48_000));
    assert!(is_bad_frame(result));
}

#[test]
fn four_bytes_no_panic() {
    let result = decode_frame(&[0x00, 0x01, 0x02, 0x03], FrameSpec::new(2, 48_000));
    assert!(is_bad_frame(result));
}

#[test]
fn five_bytes_no_panic() {
    let result = decode_frame(&[0x00, 0x01, 0x02, 0x03, 0x04], FrameSpec::new(2, 48_000));
    assert!(is_bad_frame(result));
}

#[test]
fn header_only_no_payload() {
    let mut bytes = vec![0x00, 0x02]; // TAG_PCM, 2 channels
    bytes.extend_from_slice(&48_000u32.to_le_bytes());
    let result = decode_frame(&bytes, FrameSpec::new(2, 48_000));
    assert!(
        is_bad_frame(result),
        "header-only with zero payload must be BadFrame"
    );
}

#[test]
fn single_byte_payload_no_panic() {
    let mut bytes = vec![0x00, 0x01]; // TAG_PCM, 1 ch, 48 kHz
    bytes.extend_from_slice(&48_000u32.to_le_bytes());
    bytes.push(0xFF); // 1 byte payload — not a multiple of 4
    let result = decode_frame(&bytes, FrameSpec::new(1, 48_000));
    assert!(is_bad_frame(result));
}

#[test]
fn truncated_payload_no_panic() {
    // Valid header (2ch, 48kHz) but payload is 3 bytes (needs multiple of 8).
    let mut bytes = vec![0x00, 0x02];
    bytes.extend_from_slice(&48_000u32.to_le_bytes());
    bytes.extend_from_slice(&[0xAA, 0xBB, 0xCC]);
    let result = decode_frame(&bytes, FrameSpec::new(2, 48_000));
    assert!(is_bad_frame(result));
}

#[test]
fn all_tag_values_no_panic() {
    let spec = FrameSpec::new(2, 48_000);
    for tag in 0u8..=255 {
        let mut bytes = vec![tag, 0x02];
        bytes.extend_from_slice(&48_000u32.to_le_bytes());
        bytes.extend_from_slice(&[0u8; 8]);
        let result = decode_frame(&bytes, spec);
        // Either BadFrame (unknown tag or mismatch) or valid — just no panic.
        let _ = result;
    }
}

#[test]
fn large_garbage_payload_no_panic() {
    let mut bytes = vec![0x00, 0x02]; // TAG_PCM, 2ch
    bytes.extend_from_slice(&48_000u32.to_le_bytes());
    bytes.extend_from_slice(&vec![0xAB; 1024]);
    let result = decode_frame(&bytes, FrameSpec::new(2, 48_000));
    let _ = result; // must not panic
}

#[test]
fn one_megabyte_payload_no_panic() {
    let mut bytes = vec![0x00, 0x02]; // TAG_PCM, 2ch
    bytes.extend_from_slice(&48_000u32.to_le_bytes());
    bytes.extend_from_slice(&vec![0x00; 1_048_576]);
    let result = decode_frame(&bytes, FrameSpec::new(2, 48_000));
    // 1 MiB payload is a multiple of 8 (channels * 4), so this should
    // decode successfully — but must never panic regardless.
    let _ = result;
}

#[test]
fn error_paths_are_bad_frame_variant() {
    let spec = FrameSpec::new(2, 48_000);

    // Short header
    let r = decode_frame(&[0u8; 3], spec);
    assert!(is_bad_frame(r));

    // Unknown tag
    let mut bytes = vec![0xFF, 0x02];
    bytes.extend_from_slice(&48_000u32.to_le_bytes());
    bytes.extend_from_slice(&[0u8; 8]);
    let r = decode_frame(&bytes, spec);
    assert!(is_bad_frame(r));

    // Channel mismatch
    let mut bytes = vec![0x00, 0x01]; // 1ch but spec wants 2ch
    bytes.extend_from_slice(&48_000u32.to_le_bytes());
    bytes.extend_from_slice(&[0u8; 4]);
    let r = decode_frame(&bytes, spec);
    assert!(is_bad_frame(r));

    // Sample rate mismatch
    let mut bytes = vec![0x00, 0x02];
    bytes.extend_from_slice(&44_100u32.to_le_bytes()); // 44100 but spec wants 48000
    bytes.extend_from_slice(&[0u8; 8]);
    let r = decode_frame(&bytes, spec);
    assert!(is_bad_frame(r));
}

fn reason(bytes: &[u8], spec: FrameSpec) -> String {
    match codec::decode_frame(bytes, spec) {
        Err(GatewayError::BadFrame(text)) => text,
        _ => panic!("a bad frame is expected"),
    }
}

#[test]
fn every_rejection_has_its_reason() {
    let good = encode_frame(&AudioFrame::silence(2, 8, 48_000)).unwrap();
    assert_eq!(reason(&good[..5], spec()), "header shorter than 6 bytes");
    let mut bad = good.clone();
    bad[0] = 9;
    assert_eq!(reason(&bad, spec()), "unknown codec tag 9");
    assert_eq!(
        reason(&good, FrameSpec::new(1, 48_000)),
        "channel mismatch: header=2 expected=1"
    );
    assert_eq!(
        reason(&good, FrameSpec::new(2, 44_100)),
        "sample-rate mismatch: header=48000 expected=44100"
    );
    assert_eq!(
        reason(&good[..6], spec()),
        "pcm payload is empty"
    );
    let mut none = good.clone();
    none[1] = 0;
    assert_eq!(reason(&none, spec()), "pcm frame has zero channels");
    assert_eq!(
        reason(&good[..10], spec()),
        "pcm payload length 4 is not a multiple of 8"
    );
}

#[test]
fn too_many_channels_cannot_be_sent() {
    let frame = AudioFrame::from_planar(256, 48_000, vec![0.0; 256]);
    match encode_frame(&frame) {
        Err(GatewayError::BadFrame(text)) => {
            assert_eq!(text, "channel count overloads header byte");
        }
        _ => panic!("a bad frame is expected"),
    }
}

#[test]
fn garbage_never_panics() {
    let mut state = 0x2545_f491_u32;
    for len in 0..200 {
        let bytes: Vec<u8> = (0..len)
            .map(|_| {
                state = state.wrapping_mul(1_664_525).wrapping_add(1_013_904_223);
                (state >> 24) as u8 & 3
            })
            .collect();
        let _ = codec::decode_frame(&bytes, FrameSpec::new(2, 48_000));
    }
}

#[test]
fn bit_patterns_survive() {
    let frame = PcmFrame::from_planar(1, 48_000, vec![0x7fc0_1234, 0xff80_0000, 0x8000_0000]);
    let bytes = codec::encode_frame(&frame).unwrap();
    assert_eq!(
        codec::decode_frame(&bytes, FrameSpec::new(1, 48_000)),
        Ok(frame)
    );
}

#[test]
fn codec_error_texts() {
    assert_eq!(
        GatewayError::Unimplemented("hls").message(),
        "not implemented: hls"
    );
    assert_eq!(
        GatewayError::WebSocket(String::from("reset")).message(),
        "websocket: reset"
    );
    assert_eq!(
        GatewayError::BadFrame(String::from("x")).message(),
        "bad frame: x"
    );
}
