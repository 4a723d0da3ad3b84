//! Playback, routing, mixing, delaying, holding and metering.

use sonicbrew::nodes::channel_map::{ChannelMapNode, ChannelMode};
use sonicbrew::nodes::delay_line::DelayLine;
use sonicbrew::nodes::file_source::{join_chunks, source_of_chunks, Block, FileSource};
use sonicbrew::nodes::gate::HoldGate;
use sonicbrew::nodes::hold::{depth, levels, SampleHold};
use sonicbrew::nodes::kinds::{clamp_count, DistortionMode, FilterType, NoiseColor, Waveform};
use sonicbrew::nodes::meter::{block_peak, louder, LevelHold, Levels};
use sonicbrew::nodes::mixer::MixerNode;
use sonicbrew::nodes::noise::Xorshift;
use sonicbrew::nodes::planar::{
    copy_samples, fill, generate_planar, map_samples, map_stereo, process_planar, ChannelProcessor,
};

fn run_mono(node: &mut FileSource<f32>, n: usize) -> Vec<f32> {
    let mut out = Block {
        channels: 1,
        sample_rate: 48_000,
        samples: vec![0.0; n],
    };
    node.process(&mut out, 0.0);
    out.samples
}

#[test]
fn plays_buffer() {
    let mut node = FileSource::new(vec![0.1, 0.2, 0.3, 0.4], 1, 48_000, false);
    assert_eq!(node.total_frames(), 4);
    let s = run_mono(&mut node, 256);
    assert_eq!(s.len(), 256);
    assert!((s[0] - 0.1).abs() < 1e-6);
    assert!((s[1] - 0.2).abs() < 1e-6);
    assert!((s[2] - 0.3).abs() < 1e-6);
    assert!((s[3] - 0.4).abs() < 1e-6);
    // Remaining samples are silence.
    for (i, &v) in s.iter().enumerate().skip(4) {
        assert!(v.abs() < 1e-9, "sample {i} should be silent, got {v}");
    }
}

#[test]
fn loops_buffer() {
    let mut node = FileSource::new(vec![0.1, 0.2, 0.3, 0.4], 1, 48_000, true);
    assert!(!node.is_ended());
    let s = run_mono(&mut node, 512);
    assert_eq!(s.len(), 512);
    for (i, &got) in s.iter().enumerate() {
        let expected = match i % 4 {
            0 => 0.1,
            1 => 0.2,
            2 => 0.3,
            _ => 0.4,
        };
        assert!(
            (got - expected).abs() < 1e-6,
            "sample {i}: got {got}, expected {expected}"
        );
    }
    // Looping never ends.
    assert!(!node.is_ended());
}

#[test]
fn empty_buffer_silence() {
    let mut node = FileSource::new(Vec::<f32>::new(), 1, 48_000, false);
    assert!(node.is_ended(), "empty buffer should report ended");
    assert_eq!(node.total_frames(), 0);
    let s = run_mono(&mut node, 256);
    assert!(s.iter().all(|&v| v.abs() < 1e-9));
}

#[test]
fn stereo_plays_both_channels() {
    // Planar stereo: ch0=[0.1,0.2,0.3,0.4], ch1=[0.5,0.6,0.7,0.8].
    let buf: Vec<f32> = vec![0.1, 0.2, 0.3, 0.4, 0.5, 0.6, 0.7, 0.8];
    let mut node = FileSource::new(buf, 2, 48_000, false);
    assert_eq!(node.total_frames(), 4);
    // Request 8 output samples = 4 frames x 2 channels.
    let mut out = Block {
        channels: 0,
        sample_rate: 0,
        samples: vec![0.0; 8],
    };
    node.process(&mut out, 0.0);
    let s = &out.samples;
    // Channel 0.
    assert!((s[0] - 0.1).abs() < 1e-6);
    assert!((s[1] - 0.2).abs() < 1e-6);
    assert!((s[2] - 0.3).abs() < 1e-6);
    assert!((s[3] - 0.4).abs() < 1e-6);
    // Channel 1.
    assert!((s[4] - 0.5).abs() < 1e-6);
    assert!((s[5] - 0.6).abs() < 1e-6);
    assert!((s[6] - 0.7).abs() < 1e-6);
    assert!((s[7] - 0.8).abs() < 1e-6);
    assert_eq!(out.channels, 2);
    assert_eq!(out.sample_rate, 48_000);
}

#[test]
fn is_ended_after_playback() {
    let mut node = FileSource::new(vec![0.1, 0.2, 0.3, 0.4], 1, 48_000, false);
    assert!(!node.is_ended());
    // Process more samples than the buffer holds.
    let _ = run_mono(&mut node, 256);
    assert!(
        node.is_ended(),
        "should be ended after consuming full buffer"
    );
    // Further processing stays silent.
    let s = run_mono(&mut node, 64);
    assert!(s.iter().all(|&v| v.abs() < 1e-9));
}

#[test]
fn position_tracks_playback() {
    let mut node = FileSource::new(vec![0.5; 100], 1, 48_000, false);
    assert_eq!(node.position(), 0);
    let _ = run_mono(&mut node, 40);
    assert_eq!(node.position(), 40);
    let _ = run_mono(&mut node, 40);
    assert_eq!(node.position(), 80);
    // Consume the remaining frames — position clamps at the buffer end.
    let _ = run_mono(&mut node, 40);
    assert!(node.is_ended());
}

#[test]
fn into_parts_roundtrip() {
    let (samples, channels, sample_rate, looping) =
        FileSource::new(vec![0.1, 0.2, 0.3, 0.4], 1, 48_000, true).into_parts();
    assert_eq!(samples, vec![0.1, 0.2, 0.3, 0.4]);
    assert_eq!(channels, 1);
    assert_eq!(sample_rate, 48_000);
    assert!(looping);
    // Rebuild from the parts — playback still works.
    let mut rebuilt = FileSource::new(samples, channels, sample_rate, looping);
    let s = run_mono(&mut rebuilt, 4);
    assert!((s[0] - 0.1).abs() < 1e-6);
}

#[test]
fn position_stops_at_the_end() {
    let mut node = FileSource::new(vec![0.5; 100], 1, 48_000, false);
    run_mono(&mut node, 70);
    run_mono(&mut node, 70);
    assert_eq!(node.position(), 100);
    run_mono(&mut node, 70);
    assert_eq!(node.position(), 100);
}

#[test]
fn blocks_in_a_row_play_like_one_block() {
    let buffer: Vec<f32> = (0..7).map(|i| i as f32).collect();
    for looping in [false, true] {
        let mut a = FileSource::new(buffer.clone(), 1, 48_000, looping);
        let mut b = FileSource::new(buffer.clone(), 1, 48_000, looping);
        let mut parts = run_mono(&mut a, 3);
        parts.extend(run_mono(&mut a, 10));
        parts.extend(run_mono(&mut a, 4));
        assert_eq!(parts, run_mono(&mut b, 17));
        assert_eq!(a.position(), b.position());
        assert_eq!(a.is_ended(), b.is_ended());
    }
}

#[test]
fn looping_keeps_the_channels_apart() {
    let mut node = FileSource::new(vec![1.0, 2.0, 3.0, 10.0, 20.0, 30.0], 2, 8_000, true);
    let mut out = Block {
        channels: 2,
        sample_rate: 8_000,
        samples: vec![0.0; 9],
    };
    node.process(&mut out, 0.0);
    assert_eq!(
        out.samples,
        vec![1.0, 2.0, 3.0, 1.0, 10.0, 20.0, 30.0, 10.0, 0.0]
    );
    assert_eq!(node.position(), 1);
}

#[test]
fn a_buffer_without_a_frame_is_silent() {
    let mut node = FileSource::new(vec![0.5], 2, 48_000, false);
    assert_eq!(node.total_frames(), 0);
    assert!(!node.is_ended());
    let mut out = Block {
        channels: 2,
        sample_rate: 48_000,
        samples: vec![1.0; 4],
    };
    node.process(&mut out, 0.0);
    assert_eq!(out.samples, vec![0.0; 4]);
}

#[test]
fn chunks_are_joined_channel_by_channel() {
    let chunks = vec![vec![1, 2, 11, 12], vec![3, 13], vec![], vec![4, 5, 14, 15]];
    assert_eq!(
        join_chunks(&chunks, 2),
        vec![1, 2, 3, 4, 5, 11, 12, 13, 14, 15]
    );
    assert_eq!(join_chunks(&chunks, 1).len(), 10);
    let source = source_of_chunks(&chunks, 2, 44_100, false).expect("frames");
    assert_eq!(source.total_frames(), 5);
    assert_eq!(source.channels(), 2);
    assert!(source_of_chunks(&vec![Vec::<f32>::new()], 2, 44_100, false).is_none());
}

fn route(mode: ChannelMode<f32>, channels: u16, input: &[f32]) -> Vec<f32> {
    let node = ChannelMapNode::new(channels, mode);
    let mut out = vec![0.0; input.len()];
    node.process(
        channels,
        input,
        &mut out,
        0.0,
        |p: f32, l: f32, r: f32| {
            let (s, c) = ((p + 1.0) * std::f32::consts::FRAC_PI_4).sin_cos();
            (l * c, r * s)
        },
        |l: f32, r: f32| (l + r) * 0.5,
    );
    out
}

#[test]
fn swap_exchanges_channels() {
    assert_eq!(
        route(ChannelMode::Swap, 2, &[0.1, 0.2, 0.3, 0.4]),
        vec![0.2, 0.1, 0.4, 0.3]
    );
}

#[test]
fn stereo_to_mono_averages() {
    let out = route(ChannelMode::StereoToMono, 2, &[0.8, 0.2, 0.6, 0.4]);
    assert!((out[0] - 0.5).abs() < 1e-6);
    assert!((out[1] - 0.5).abs() < 1e-6);
}

#[test]
fn passthrough_preserves_samples() {
    assert_eq!(
        route(ChannelMode::Passthrough, 1, &[0.1, -0.2, 0.3]),
        vec![0.1, -0.2, 0.3]
    );
}

#[test]
fn other_modes_route_the_first_two_channels() {
    let input = [1.0, 2.0, 3.0, 4.0, 5.0, 6.0, 7.0];
    assert_eq!(
        route(ChannelMode::MuteLeft, 3, &input),
        vec![0.0, 2.0, 3.0, 0.0, 5.0, 6.0, 7.0]
    );
    assert_eq!(
        route(ChannelMode::MuteRight, 3, &input),
        vec![1.0, 0.0, 3.0, 4.0, 0.0, 6.0, 7.0]
    );
    assert_eq!(
        route(ChannelMode::MonoToStereo, 3, &input),
        vec![1.0, 1.0, 3.0, 4.0, 4.0, 6.0, 7.0]
    );
    let hard_left = route(ChannelMode::Pan(-1.0), 2, &[1.0, 1.0]);
    assert!((hard_left[0] - 1.0).abs() < 1e-6 && hard_left[1].abs() < 1e-6);
    // There is nothing to route in a mono frame.
    assert_eq!(route(ChannelMode::Swap, 1, &[1.0, 2.0]), vec![1.0, 2.0]);
}

#[test]
fn swapping_twice_changes_nothing() {
    let input = [1.0, 2.0, 3.0, 4.0];
    let once = route(ChannelMode::Swap, 2, &input);
    assert_eq!(route(ChannelMode::Swap, 2, &once), input.to_vec());
    let mut node = ChannelMapNode::new(2, ChannelMode::Pan(0.5));
    node.set_mode(ChannelMode::Swap);
    assert_eq!(node.channels(), 2);
}

fn mix(mixer: &MixerNode<f32>, inputs: &[Vec<f32>], n: usize) -> Vec<f32> {
    let mut out = vec![9.0; n];
    fill(&mut out, 0.0);
    for (i, input) in inputs.iter().enumerate() {
        mixer.add_input(i, input, &mut out, |a: f32, x: f32, g: f32| a + x * g);
    }
    out
}

#[test]
fn mixes_two_inputs_with_gain() {
    let mixer = MixerNode::new(2, vec![0.5, 0.25], 1, 0.0);
    // 0.8*0.5 + 0.4*0.25 = 0.4 + 0.1 = 0.5
    for s in mix(&mixer, &[vec![0.8; 4], vec![0.4; 4]], 4) {
        assert!((s - 0.5).abs() < 1e-6);
    }
}

#[test]
fn zero_gain_mutes_input() {
    let mixer = MixerNode::new(1, vec![0.0], 1, 0.0);
    for s in mix(&mixer, &[vec![1.0; 4]], 4) {
        assert!(s.abs() < 1e-9);
    }
}

#[test]
fn gains_are_brought_to_the_number_of_inputs() {
    let mut mixer = MixerNode::new(3, vec![0.5], 2, 0.0);
    assert_eq!(mixer.inputs(), 3);
    assert_eq!(mixer.channels(), 2);
    assert_eq!((mixer.gain(0), mixer.gain(1), mixer.gain(7)), (0.5, 0.0, 0.0));
    mixer.set_gain(1, 0.25);
    mixer.set_gain(3, 1.0);
    assert_eq!((mixer.gain(1), mixer.gain(3)), (0.25, 0.0));
    assert_eq!(MixerNode::new(1, vec![1.0, 2.0], 1, 0.0).inputs(), 1);
}

/// The main and the aux output of a send at a level.
fn send(level: f32, input: &[f32]) -> (Vec<f32>, Vec<f32>) {
    let mut main = vec![0.0; input.len()];
    let mut aux = vec![0.0; input.len()];
    copy_samples(input, &mut main);
    map_samples(input, &mut aux, |x: f32| x * level);
    (main, aux)
}

#[test]
fn main_is_passthrough() {
    assert_eq!(send(0.5, &[0.5, -0.3, 0.8]).0, vec![0.5, -0.3, 0.8]);
}

#[test]
fn aux_is_scaled() {
    let aux = send(0.5, &[0.8, 0.4]).1;
    assert!((aux[0] - 0.4).abs() < 1e-6);
    assert!((aux[1] - 0.2).abs() < 1e-6);
}

#[test]
fn zero_send_mutes_aux() {
    let (main, aux) = send(0.0, &[0.7, -0.5]);
    assert_eq!(aux, vec![0.0, 0.0]);
    assert_eq!(main, vec![0.7, -0.5]);
}

#[test]
fn full_send_equals_main() {
    let (main, aux) = send(1.0, &[0.6, -0.2, 0.9]);
    assert_eq!(main, aux);
}

/// A block with the width of its stereo image changed.
fn widen(width: f32, channels: u16, input: &[f32]) -> Vec<f32> {
    let mut out = vec![0.0; input.len()];
    map_stereo(channels, input, &mut out, |l: f32, r: f32| {
        let mid = (l + r) * 0.5;
        let side = (l - r) * 0.5 * width;
        (mid + side, mid - side)
    });
    out
}

#[test]
fn width_one_is_passthrough() {
    let input = [0.8, -0.3, 0.5, 0.2, 0.4, -0.1];
    let s = widen(1.0, 2, &input);
    for i in 0..6 {
        assert!((s[i] - input[i]).abs() < 1e-6, "sample[{i}]");
    }
}

#[test]
fn width_zero_is_mono() {
    let s = widen(0.0, 2, &[0.8, -0.2, 0.2, 0.4]);
    assert!((s[0] - 0.5).abs() < 1e-6);
    assert!((s[1] - 0.1).abs() < 1e-6);
    assert!((s[2] - 0.5).abs() < 1e-6);
    assert!((s[3] - 0.1).abs() < 1e-6);
}

#[test]
fn width_two_doubles_side() {
    let s = widen(2.0, 2, &[0.7, 0.3]);
    assert!((s[0] - 0.9).abs() < 1e-6, "newLeft = {}", s[0]);
    assert!((s[1] - 0.1).abs() < 1e-6, "newRight = {}", s[1]);
    assert!(((s[0] - s[1]) - 2.0 * (0.7 - 0.3)).abs() < 1e-6);
}

#[test]
fn mono_passthrough() {
    assert_eq!(widen(1.5, 1, &[0.3, -0.5, 0.8]), vec![0.3, -0.5, 0.8]);
}

/// An echo on a delay line.
struct Echo {
    line: DelayLine<f32>,
    feedback: f32,
    mix: f32,
}

impl ChannelProcessor<f32> for Echo {
    type State = ();

    // Ghost: never called.
    fn wf(&self) -> bool {
        unreachable!()
    }

    fn state(&self) {
        unreachable!()
    }

    fn channels_of(_s: ()) -> usize {
        unreachable!()
    }

    fn next(_s: (), _ch: usize, _x: f32) -> ((), f32) {
        unreachable!()
    }

    fn process_sample(&mut self, x: f32, ch: usize) -> f32 {
        let wet = x + self.line.tap(ch) * self.feedback;
        self.line.write(ch, wet);
        x * (1.0 - self.mix) + wet * self.mix
    }
}

fn echo(max: usize, delay: usize, mix: f32, channels: u16, input: &[f32]) -> Vec<f32> {
    let mut node = Echo {
        line: DelayLine::new(max, delay, channels, 0.0),
        feedback: 0.5,
        mix,
    };
    let mut out = vec![0.0; input.len()];
    process_planar(&mut node, channels, input, &mut out);
    out
}

#[test]
fn delay_produces_echo() {
    let mut input = vec![0.0_f32; 16];
    input[0] = 1.0;
    let s = echo(16, 4, 1.0, 1, &input);
    assert!((s[4] - 0.5).abs() < 1e-6, "first echo at [4]: {}", s[4]);
    assert!((s[8] - 0.25).abs() < 1e-6, "second echo at [8]: {}", s[8]);
    assert!(
        (s[0] - 1.0).abs() < 1e-6,
        "initial wet tap at [0]: {}",
        s[0]
    );
}

#[test]
fn dry_mix_passes_signal() {
    let input: Vec<f32> = (0..16).map(|i| i as f32 * 0.01).collect();
    for (got, want) in echo(8, 4, 0.0, 1, &input).iter().zip(input.iter()) {
        assert!(
            (got - want).abs() < 1e-7,
            "dry passthrough mismatch: {got} vs {want}"
        );
    }
}

#[test]
fn stereo_channels_independent() {
    let mut input = vec![0.0_f32; 16];
    input[0] = 1.0; // ch0 impulse
    input[8] = 1.0; // ch1 impulse
    let s = echo(8, 4, 1.0, 2, &input);
    assert!((s[4] - 0.5).abs() < 1e-6, "ch0 echo: {}", s[4]);
    assert!((s[12] - 0.5).abs() < 1e-6, "ch1 echo: {}", s[12]);
}

#[test]
fn writes_come_back_after_the_delay() {
    for (max, delay) in [(5, 3), (5, 5), (1, 9), (4, 0)] {
        let mut line = DelayLine::new(max, delay, 2, 0);
        let want = delay.clamp(1, max.max(1));
        assert_eq!(line.channels(), 2);
        assert_eq!(line.capacity(), max);
        let mut got = Vec::new();
        for i in 1..20 {
            got.push(line.process_sample(i, 1));
        }
        for (i, x) in got.iter().enumerate() {
            assert_eq!(*x, if i < want { 0 } else { (i - want + 1) as i32 });
        }
        // The other channel is untouched.
        assert_eq!(line.tap(0), 0);
    }
}

#[test]
fn neighbours_go_round_the_ring() {
    let mut line = DelayLine::new(3, 1, 1, 0);
    assert_eq!(line.cursor(0), 0);
    for i in 1..=7 {
        line.write(0, i);
    }
    // The slots hold 7, 5 and 6, and the next write goes to the second one.
    assert_eq!(line.cursor(0), 1);
    assert_eq!(line.neighbours(0, 0), Some((7, 5)));
    assert_eq!(line.neighbours(0, 1), Some((5, 6)));
    assert_eq!(line.neighbours(0, 2), Some((6, 7)));
    assert_eq!(line.neighbours(0, 3), None);
}

fn held(hold: usize, channels: u16, input: &[f32]) -> Vec<f32> {
    let mut out = vec![0.0; input.len()];
    process_planar(
        &mut SampleHold::new(hold, channels, 0.0),
        channels,
        input,
        &mut out,
    );
    out
}

#[test]
fn hold_factor_repeats() {
    let sig: Vec<f32> = (0..16).map(|i| i as f32 * 0.01).collect();
    let out = held(4, 1, &sig);
    assert_eq!(out[0..4], [sig[0]; 4]);
    assert_eq!(out[4..8], [sig[4]; 4]);
    assert!((out[0] - out[4]).abs() > 1e-3);
}

#[test]
fn bitcrusher_stereo_independent() {
    // 7 samples per channel (odd count: detects a counter that channels share).
    let ch0 = [0.3_f32, 0.0, 0.5, 0.0, 0.7, 0.0, 0.9];
    let ch1 = [0.8_f32, 0.0, 0.6, 0.0, 0.4, 0.0, 0.2];
    let mut planar = ch0.to_vec();
    planar.extend_from_slice(&ch1);
    let out = held(2, 2, &planar);
    let out0 = &out[0..7];
    let out1 = &out[7..14];
    assert!((out1[0] - 0.8).abs() < 1e-3);
    assert!((out0[0] - 0.3).abs() < 1e-3);
    assert!((out0[0] - out0[1]).abs() < 1e-6);
    assert!((out1[0] - out1[1]).abs() < 1e-6);
}

#[test]
fn holds_and_depths_are_bounded() {
    assert_eq!(held(0, 1, &[1.0, 2.0]), vec![1.0, 2.0]);
    let long: Vec<f32> = (0..300).map(|i| i as f32).collect();
    let out = held(10_000, 1, &long);
    assert_eq!((out[255], out[256]), (0.0, 256.0));
    assert_eq!((depth(0), depth(8), depth(99)), (1, 8, 16));
    assert_eq!((levels(1), levels(2), levels(16)), (2, 4, 65_536));
    assert_eq!(clamp_count(9, 2, 8), 8);
    assert_eq!(clamp_count(1, 2, 8), 2);
    assert_eq!(clamp_count(5, 2, 8), 5);
}

#[test]
fn blocks_keep_what_does_not_divide() {
    let mut out = vec![9.0; 7];
    process_planar(
        &mut SampleHold::new(1, 2, 0.0),
        2,
        &[1.0, 2.0, 3.0, 4.0, 5.0],
        &mut out,
    );
    assert_eq!(out, vec![1.0, 2.0, 3.0, 4.0, 9.0, 9.0, 9.0]);
    process_planar(&mut SampleHold::new(1, 2, 0.0), 0, &[0.0; 4], &mut out);
    assert_eq!(out[0], 1.0);
}

#[test]
fn gate_is_held_open() {
    let mut gate = HoldGate::new(3, 2);
    assert!(!gate.step(0, false));
    assert!(gate.step(0, true));
    assert!(gate.step(0, false));
    assert!(gate.step(0, false));
    assert!(!gate.step(1, false));
    assert!(gate.step(0, false));
    assert!(!gate.step(0, false));
}

#[test]
fn seed_reproducibility() {
    let mut a = Xorshift::new(12_345);
    let mut b = Xorshift::new(12_345);
    for _ in 0..64 {
        assert_eq!(a.next(), b.next(), "same seed must produce identical output");
    }
}

#[test]
fn zero_seed_uses_default() {
    let mut a = Xorshift::new(0);
    let mut b = Xorshift::new(1);
    // 1 ^ 1<<13 = 0x2001; ^ >>7 = 0x2041; ^ <<17 = 0x40822041.
    assert_eq!(a.next(), 0x4082_2041);
    assert_eq!(b.next(), 0x4082_2041);
    assert_ne!(a.next(), 0);
}

#[test]
fn peaks_ignore_signs_and_what_is_no_number() {
    let block: Vec<u32> = [0.3_f32, -0.6, 0.9, -0.2]
        .iter()
        .map(|s| s.to_bits())
        .collect();
    assert_eq!(f32::from_bits(block_peak(&block)), 0.9);
    let mut hold = LevelHold::new();
    assert_eq!(hold.levels(), Levels { peak: 0, rms: 0 });
    hold.note(&block, 0.57_f32.to_bits());
    hold.note(&[(-0.5_f32).to_bits(), f32::NAN.to_bits()], 0.5_f32.to_bits());
    hold.note(&[], 0.1_f32.to_bits());
    let levels = hold.snapshot();
    assert_eq!(f32::from_bits(levels.peak), 0.9);
    assert_eq!(f32::from_bits(levels.rms), 0.5);
    let again = hold.snapshot();
    assert_eq!((again.peak, again.rms), (0, levels.rms));
    let mut loud = LevelHold::of(levels);
    loud.note(&[(-0.95_f32).to_bits()], 0.95_f32.to_bits());
    assert_eq!(f32::from_bits(loud.levels().peak), 0.95);
    assert_eq!(louder(1.0_f32.to_bits(), (-2.0_f32).to_bits()), 2.0_f32.to_bits());
    assert_eq!(block_peak(&[f32::NEG_INFINITY.to_bits()]), f32::INFINITY.to_bits());
}

#[test]
fn choices_differ() {
    assert_ne!(FilterType::LowPass, FilterType::HighPass);
    assert_ne!(FilterType::BandPass, FilterType::Peaking);
    assert_ne!(FilterType::LowShelf, FilterType::HighShelf);
    assert_ne!(NoiseColor::White, NoiseColor::Pink);
    assert_ne!(Waveform::Sine, Waveform::Square);
    assert_ne!(Waveform::Saw, Waveform::Triangle);
    assert_ne!(DistortionMode::SoftClip, DistortionMode::HardClip);
    assert_ne!(DistortionMode::Foldback, DistortionMode::Overdrive);
}

#[test]
fn a_source_fills_whole_frames_and_leaves_the_rest() {
    let mut line: DelayLine<u32> = DelayLine::new(2, 2, 2, 0);
    let mut out = vec![0; 4];
    process_planar(&mut line, 2, &[1, 2, 3, 4], &mut out);
    assert_eq!(out, vec![0, 0, 0, 0]);
    let mut drained = vec![9; 5];
    generate_planar(&mut line, 2, 7, &mut drained);
    assert_eq!(drained, vec![1, 2, 3, 4, 9]);
    generate_planar(&mut line, 2, 0, &mut drained);
    assert_eq!(drained, vec![7, 7, 7, 7, 9]);
    generate_planar(&mut line, 0, 0, &mut drained);
    assert_eq!(drained, vec![7, 7, 7, 7, 9]);
}

#[test]
fn a_mix_starts_from_silence_and_adds_each_input_with_its_gain() {
    let mixer = MixerNode::new(2, vec![2, 3], 1, 0);
    let inputs: [Vec<u32>; 3] = [vec![1, 1, 1], vec![10, 20], vec![100, 100, 100]];
    let mut out = vec![7, 7, 7, 7];
    mixer.mix(
        3,
        |i| &inputs[i][..],
        &mut out,
        1000,
        |acc: u32, x: u32, g: u32| acc + x * g,
    );
    // The third input has no gain of its own.
    assert_eq!(out, vec![1032, 1062, 1002, 1000]);
    mixer.mix(0, |i| &inputs[i][..], &mut out, 5, |acc, x, g| acc + x * g);
    assert_eq!(out, vec![5, 5, 5, 5]);
}
