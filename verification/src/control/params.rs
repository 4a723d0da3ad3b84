//! Parameters of nodes, kind by kind.

use vstd::prelude::*;

verus! {

/// A real parameter, as the bit pattern of a 32-bit float.
pub type Real = u32;

/// Parameters of a node. Each variant belongs to one node kind.
#[derive(Debug, PartialEq, Eq)]
pub enum NodeParams {
    /// A fixed gain.
    Gain { gain: Real },
    /// A mixing bus.
    Mixer { inputs: usize, gains: Vec<Real> },
    /// A biquad equaliser.
    Eq { filter_type: String, freq: Real, gain_db: Real, q: Real },
    /// A dynamic range compressor.
    Compressor { threshold_db: Real, ratio: Real, attack_ms: Real, release_ms: Real, makeup_db: Real },
    /// A brick-wall limiter.
    Limiter { threshold_db: Real },
    /// A level meter.
    Meter,
    /// A channel router.
    ChannelMap { mode: String, pan: Option<Real> },
    /// A delay line; times in milliseconds.
    Delay { max_delay_ms: Real, delay_ms: Real, feedback: Real, mix: Real },
    /// A noise gate.
    NoiseGate { threshold_db: Real, attack_ms: Real, hold_ms: Real, release_ms: Real },
    /// A noise source.
    Noise { color: String, amp: Real, seed: u64 },
    /// A tone generator.
    Tone { waveform: String, freq: Real, amp: Real },
    /// A reverb.
    Reverb { room_size: Real, damping: Real, wet: Real, dry: Real },
    /// A chorus.
    Chorus { rate_hz: Real, depth_ms: Real, center_delay_ms: Real, mix: Real },
    /// A waveshaper.
    Distortion { mode: String, drive: Real, threshold: Real, output_level: Real },
    /// A flanger.
    Flanger { rate_hz: Real, depth_ms: Real, center_delay_ms: Real, feedback: Real, mix: Real },
    /// An auxiliary send.
    AuxSend { send_level: Real },
    /// A phaser.
    Phaser { rate_hz: Real, base_freq: Real, depth: Real, feedback: Real, mix: Real, stages: u32 },
    /// A bitcrusher.
    Bitcrusher { bits: u32, hold_factor: u32 },
    /// A tremolo.
    Tremolo { rate_hz: Real, depth: Real },
    /// A stereo width control.
    StereoWidener { width: Real },
}

/// The contents of a [`NodeParams`]: the kind, and the fields in their order,
/// by their type.
pub struct NodeParamsView {
    /// The kind that the parameters belong to.
    pub kind: Seq<char>,
    /// Fields that are texts.
    pub texts: Seq<Seq<char>>,
    /// Fields that are real.
    pub reals: Seq<Real>,
    /// Fields that are counts.
    pub counts: Seq<int>,
}

impl View for NodeParams {
    type V = NodeParamsView;

    open spec fn view(&self) -> NodeParamsView {
        NodeParamsView {
            kind: self.kind(),
            texts: self.texts(),
            reals: self.reals(),
            counts: self.counts(),
        }
    }
}

impl NodeParams {
    /// The kind that the parameters belong to.
    pub open spec fn kind(self) -> Seq<char> {
        match self {
            NodeParams::Gain { .. } => "gain"@,
            NodeParams::Mixer { .. } => "mixer"@,
            NodeParams::Eq { .. } => "eq"@,
            NodeParams::Compressor { .. } => "compressor"@,
            NodeParams::Limiter { .. } => "limiter"@,
            NodeParams::Meter => "meter"@,
            NodeParams::ChannelMap { .. } => "channel_map"@,
            NodeParams::Delay { .. } => "delay"@,
            NodeParams::NoiseGate { .. } => "noise_gate"@,
            NodeParams::Noise { .. } => "noise"@,
            NodeParams::Tone { .. } => "tone"@,
            NodeParams::Reverb { .. } => "reverb"@,
            NodeParams::Chorus { .. } => "chorus"@,
            NodeParams::Distortion { .. } => "distortion"@,
            NodeParams::Flanger { .. } => "flanger"@,
            NodeParams::AuxSend { .. } => "aux_send"@,
            NodeParams::Phaser { .. } => "phaser"@,
            NodeParams::Bitcrusher { .. } => "bitcrusher"@,
            NodeParams::Tremolo { .. } => "tremolo"@,
            NodeParams::StereoWidener { .. } => "stereo_widener"@,
        }
    }

    /// Fields that are texts.
    pub open spec fn texts(self) -> Seq<Seq<char>> {
        match self {
            NodeParams::Eq { filter_type, .. } => seq![filter_type@],
            NodeParams::ChannelMap { mode, .. } => seq![mode@],
            NodeParams::Noise { color, .. } => seq![color@],
            NodeParams::Tone { waveform, .. } => seq![waveform@],
            NodeParams::Distortion { mode, .. } => seq![mode@],
            _ => Seq::empty(),
        }
    }

    /// Fields that are real; an optional one is a list of one or none.
    pub open spec fn reals(self) -> Seq<Real> {
        match self {
            NodeParams::Gain { gain } => seq![gain],
            NodeParams::Mixer { gains, .. } => gains@,
            NodeParams::Eq { freq, gain_db, q, .. } => seq![freq, gain_db, q],
            NodeParams::Compressor { threshold_db, ratio, attack_ms, release_ms, makeup_db } => seq![threshold_db, ratio, attack_ms, release_ms, makeup_db],
            NodeParams::Limiter { threshold_db } => seq![threshold_db],
            NodeParams::ChannelMap { pan, .. } => match pan {
                Some(p) => seq![p],
                None => Seq::empty(),
            },
            NodeParams::Delay { max_delay_ms, delay_ms, feedback, mix } => seq![max_delay_ms, delay_ms, feedback, mix],
            NodeParams::NoiseGate { threshold_db, attack_ms, hold_ms, release_ms } => seq![threshold_db, attack_ms, hold_ms, release_ms],
            NodeParams::Noise { amp, .. } => seq![amp],
            NodeParams::Tone { freq, amp, .. } => seq![freq, amp],
            NodeParams::Reverb { room_size, damping, wet, dry } => seq![room_size, damping, wet, dry],
            NodeParams::Chorus { rate_hz, depth_ms, center_delay_ms, mix } => seq![rate_hz, depth_ms, center_delay_ms, mix],
            NodeParams::Distortion { drive, threshold, output_level, .. } => seq![drive, threshold, output_level],
            NodeParams::Flanger { rate_hz, depth_ms, center_delay_ms, feedback, mix } => seq![rate_hz, depth_ms, center_delay_ms, feedback, mix],
            NodeParams::AuxSend { send_level } => seq![send_level],
            NodeParams::Phaser { rate_hz, base_freq, depth, feedback, mix, .. } => seq![rate_hz, base_freq, depth, feedback, mix],
            NodeParams::Tremolo { rate_hz, depth } => seq![rate_hz, depth],
            NodeParams::StereoWidener { width } => seq![width],
            _ => Seq::empty(),
        }
    }

    /// Fields that are counts.
    pub open spec fn counts(self) -> Seq<int> {
        match self {
            NodeParams::Mixer { inputs, .. } => seq![inputs as int],
            NodeParams::Noise { seed, .. } => seq![seed as int],
            NodeParams::Phaser { stages, .. } => seq![stages as int],
            NodeParams::Bitcrusher { bits, hold_factor } => seq![bits as int, hold_factor as int],
            _ => Seq::empty(),
        }
    }

    /// The kind that the parameters belong to.
    pub fn kind_name(&self) -> (k: &'static str)
        ensures
            k@ == self@.kind,
    {
        match self {
            NodeParams::Gain { .. } => "gain",
            NodeParams::Mixer { .. } => "mixer",
            NodeParams::Eq { .. } => "eq",
            NodeParams::Compressor { .. } => "compressor",
            NodeParams::Limiter { .. } => "limiter",
            NodeParams::Meter => "meter",
            NodeParams::ChannelMap { .. } => "channel_map",
            NodeParams::Delay { .. } => "delay",
            NodeParams::NoiseGate { .. } => "noise_gate",
            NodeParams::Noise { .. } => "noise",
            NodeParams::Tone { .. } => "tone",
            NodeParams::Reverb { .. } => "reverb",
            NodeParams::Chorus { .. } => "chorus",
            NodeParams::Distortion { .. } => "distortion",
            NodeParams::Flanger { .. } => "flanger",
            NodeParams::AuxSend { .. } => "aux_send",
            NodeParams::Phaser { .. } => "phaser",
            NodeParams::Bitcrusher { .. } => "bitcrusher",
            NodeParams::Tremolo { .. } => "tremolo",
            NodeParams::StereoWidener { .. } => "stereo_widener",
        }
    }
}

impl Clone for NodeParams {
    /// A copy with the same contents.
    fn clone(&self) -> (r: Self)
        ensures
            r@ == self@,
    {
        let r = match self {
            NodeParams::Gain { gain } => NodeParams::Gain { gain: *gain },
            NodeParams::Mixer { inputs, gains } => NodeParams::Mixer { inputs: *inputs, gains: gains.clone() },
            NodeParams::Eq { filter_type, freq, gain_db, q } => NodeParams::Eq { filter_type: filter_type.clone(), freq: *freq, gain_db: *gain_db, q: *q },
            NodeParams::Compressor { threshold_db, ratio, attack_ms, release_ms, makeup_db } => NodeParams::Compressor { threshold_db: *threshold_db, ratio: *ratio, attack_ms: *attack_ms, release_ms: *release_ms, makeup_db: *makeup_db },
            NodeParams::Limiter { threshold_db } => NodeParams::Limiter { threshold_db: *threshold_db },
            NodeParams::Meter => NodeParams::Meter,
            NodeParams::ChannelMap { mode, pan } => NodeParams::ChannelMap { mode: mode.clone(), pan: *pan },
            NodeParams::Delay { max_delay_ms, delay_ms, feedback, mix } => NodeParams::Delay { max_delay_ms: *max_delay_ms, delay_ms: *delay_ms, feedback: *feedback, mix: *mix },
            NodeParams::NoiseGate { threshold_db, attack_ms, hold_ms, release_ms } => NodeParams::NoiseGate { threshold_db: *threshold_db, attack_ms: *attack_ms, hold_ms: *hold_ms, release_ms: *release_ms },
            NodeParams::Noise { color, amp, seed } => NodeParams::Noise { color: color.clone(), amp: *amp, seed: *seed },
            NodeParams::Tone { waveform, freq, amp } => NodeParams::Tone { waveform: waveform.clone(), freq: *freq, amp: *amp },
            NodeParams::Reverb { room_size, damping, wet, dry } => NodeParams::Reverb { room_size: *room_size, damping: *damping, wet: *wet, dry: *dry },
            NodeParams::Chorus { rate_hz, depth_ms, center_delay_ms, mix } => NodeParams::Chorus { rate_hz: *rate_hz, depth_ms: *depth_ms, center_delay_ms: *center_delay_ms, mix: *mix },
            NodeParams::Distortion { mode, drive, threshold, output_level } => NodeParams::Distortion { mode: mode.clone(), drive: *drive, threshold: *threshold, output_level: *output_level },
            NodeParams::Flanger { rate_hz, depth_ms, center_delay_ms, feedback, mix } => NodeParams::Flanger { rate_hz: *rate_hz, depth_ms: *depth_ms, center_delay_ms: *center_delay_ms, feedback: *feedback, mix: *mix },
            NodeParams::AuxSend { send_level } => NodeParams::AuxSend { send_level: *send_level },
            NodeParams::Phaser { rate_hz, base_freq, depth, feedback, mix, stages } => NodeParams::Phaser { rate_hz: *rate_hz, base_freq: *base_freq, depth: *depth, feedback: *feedback, mix: *mix, stages: *stages },
            NodeParams::Bitcrusher { bits, hold_factor } => NodeParams::Bitcrusher { bits: *bits, hold_factor: *hold_factor },
            NodeParams::Tremolo { rate_hz, depth } => NodeParams::Tremolo { rate_hz: *rate_hz, depth: *depth },
            NodeParams::StereoWidener { width } => NodeParams::StereoWidener { width: *width },
        };
        proof {
            assert(r.texts() =~= self.texts());
            assert(r.reals() =~= self.reals());
            assert(r.counts() =~= self.counts());
        }
        r
    }
}

/// Inputs of a mixer where none are asked for.
pub fn default_mixer_inputs() -> (n: usize)
    ensures
        n == 2,
{
    2
}

/// Filter of an equaliser where none is asked for.
pub fn default_filter_type() -> (s: String)
    ensures
        s@ == "peaking"@,
{
    "peaking".to_owned()
}

/// Mode of a channel router where none is asked for.
pub fn default_channel_mode() -> (s: String)
    ensures
        s@ == "passthrough"@,
{
    "passthrough".to_owned()
}

/// Colour of a noise source where none is asked for.
pub fn default_noise_color() -> (s: String)
    ensures
        s@ == "white"@,
{
    "white".to_owned()
}

/// Seed of a noise source where none is asked for.
pub fn default_seed() -> (n: u64)
    ensures
        n == 12_345,
{
    12_345
}

/// Waveform of a tone generator where none is asked for.
pub fn default_waveform() -> (s: String)
    ensures
        s@ == "sine"@,
{
    "sine".to_owned()
}

/// Mode of a waveshaper where none is asked for.
pub fn default_distortion_mode() -> (s: String)
    ensures
        s@ == "soft_clip"@,
{
    "soft_clip".to_owned()
}

/// Stages of a phaser where none are asked for.
pub fn default_phaser_stages() -> (n: u32)
    ensures
        n == 4,
{
    4
}

/// Bits of a bitcrusher where none are asked for.
pub fn default_bits() -> (n: u32)
    ensures
        n == 8,
{
    8
}

/// Hold factor of a bitcrusher where none is asked for.
pub fn default_hold_factor() -> (n: u32)
    ensures
        n == 1,
{
    1
}

/// The kind of parameters depends on their variant alone.
pub proof fn law_kinds_of_parameters(p: NodeParams)
    ensures
        p is Gain ==> p@.kind == "gain"@,
        p is Mixer ==> p@.kind == "mixer"@,
        p is Eq ==> p@.kind == "eq"@,
        p is Compressor ==> p@.kind == "compressor"@,
        p is Limiter ==> p@.kind == "limiter"@,
        p is Meter ==> p@.kind == "meter"@,
        p is ChannelMap ==> p@.kind == "channel_map"@,
        p is Delay ==> p@.kind == "delay"@,
        p is NoiseGate ==> p@.kind == "noise_gate"@,
        p is Noise ==> p@.kind == "noise"@,
        p is Tone ==> p@.kind == "tone"@,
        p is Reverb ==> p@.kind == "reverb"@,
        p is Chorus ==> p@.kind == "chorus"@,
        p is Distortion ==> p@.kind == "distortion"@,
        p is Flanger ==> p@.kind == "flanger"@,
        p is AuxSend ==> p@.kind == "aux_send"@,
        p is Phaser ==> p@.kind == "phaser"@,
        p is Bitcrusher ==> p@.kind == "bitcrusher"@,
        p is Tremolo ==> p@.kind == "tremolo"@,
        p is StereoWidener ==> p@.kind == "stereo_widener"@,
{
}

/// A number that tells the names of the kinds apart: the length and the first two letters.
spec fn stamp(name: Seq<char>) -> int {
    name.len() * 100_000_000 + (name[0] as int) * 10_000 + name[1] as int
}

/// The number of each kind.
proof fn lemma_stamps(p: NodeParams)
    ensures
        p is Gain ==> stamp(p.kind()) == 401_030_097,
        p is Mixer ==> stamp(p.kind()) == 501_090_105,
        p is Eq ==> stamp(p.kind()) == 201_010_113,
        p is Compressor ==> stamp(p.kind()) == 1_000_990_111,
        p is Limiter ==> stamp(p.kind()) == 701_080_105,
        p is Meter ==> stamp(p.kind()) == 501_090_101,
        p is ChannelMap ==> stamp(p.kind()) == 1_100_990_104,
        p is Delay ==> stamp(p.kind()) == 501_000_101,
        p is NoiseGate ==> stamp(p.kind()) == 1_001_100_111,
        p is Noise ==> stamp(p.kind()) == 501_100_111,
        p is Tone ==> stamp(p.kind()) == 401_160_111,
        p is Reverb ==> stamp(p.kind()) == 601_140_101,
        p is Chorus ==> stamp(p.kind()) == 600_990_104,
        p is Distortion ==> stamp(p.kind()) == 1_001_000_105,
        p is Flanger ==> stamp(p.kind()) == 701_020_108,
        p is AuxSend ==> stamp(p.kind()) == 800_970_117,
        p is Phaser ==> stamp(p.kind()) == 601_120_104,
        p is Bitcrusher ==> stamp(p.kind()) == 1_000_980_105,
        p is Tremolo ==> stamp(p.kind()) == 701_160_114,
        p is StereoWidener ==> stamp(p.kind()) == 1_401_150_116,
{
    reveal_strlit("gain");
    reveal_strlit("mixer");
    reveal_strlit("eq");
    reveal_strlit("compressor");
    reveal_strlit("limiter");
    reveal_strlit("meter");
    reveal_strlit("channel_map");
    reveal_strlit("delay");
    reveal_strlit("noise_gate");
    reveal_strlit("noise");
    reveal_strlit("tone");
    reveal_strlit("reverb");
    reveal_strlit("chorus");
    reveal_strlit("distortion");
    reveal_strlit("flanger");
    reveal_strlit("aux_send");
    reveal_strlit("phaser");
    reveal_strlit("bitcrusher");
    reveal_strlit("tremolo");
    reveal_strlit("stereo_widener");
}

/// No two variants share a kind.
proof fn lemma_kinds_differ(a: NodeParams, b: NodeParams)
    requires
        a.kind() == b.kind(),
    ensures
        a is Gain <==> b is Gain,
        a is Mixer <==> b is Mixer,
        a is Eq <==> b is Eq,
        a is Compressor <==> b is Compressor,
        a is Limiter <==> b is Limiter,
        a is Meter <==> b is Meter,
        a is ChannelMap <==> b is ChannelMap,
        a is Delay <==> b is Delay,
        a is NoiseGate <==> b is NoiseGate,
        a is Noise <==> b is Noise,
        a is Tone <==> b is Tone,
        a is Reverb <==> b is Reverb,
        a is Chorus <==> b is Chorus,
        a is Distortion <==> b is Distortion,
        a is Flanger <==> b is Flanger,
        a is AuxSend <==> b is AuxSend,
        a is Phaser <==> b is Phaser,
        a is Bitcrusher <==> b is Bitcrusher,
        a is Tremolo <==> b is Tremolo,
        a is StereoWidener <==> b is StereoWidener,
{
    lemma_stamps(a);
    lemma_stamps(b);
}

/// Parameters with the same contents are the same in every field: the contents leave
/// nothing out.
#[verifier::spinoff_prover]
pub proof fn law_contents_tell_parameters_apart(a: NodeParams, b: NodeParams)
    requires
        a@ == b@,
    ensures
        a is Gain ==> b is Gain && a->Gain_gain == b->Gain_gain,
        a is Mixer ==> b is Mixer && a->Mixer_inputs == b->Mixer_inputs && a->Mixer_gains@ == b->Mixer_gains@,
        a is Eq ==> b is Eq && a->Eq_filter_type@ == b->Eq_filter_type@ && a->Eq_freq == b->Eq_freq && a->Eq_gain_db == b->Eq_gain_db && a->Eq_q == b->Eq_q,
        a is Compressor ==> b is Compressor && a->Compressor_threshold_db == b->Compressor_threshold_db && a->Compressor_ratio == b->Compressor_ratio && a->Compressor_attack_ms == b->Compressor_attack_ms && a->Compressor_release_ms == b->Compressor_release_ms && a->Compressor_makeup_db == b->Compressor_makeup_db,
        a is Limiter ==> b is Limiter && a->Limiter_threshold_db == b->Limiter_threshold_db,
        a is Meter <==> b is Meter,
        a is ChannelMap ==> b is ChannelMap && a->ChannelMap_mode@ == b->ChannelMap_mode@ && a->ChannelMap_pan == b->ChannelMap_pan,
        a is Delay ==> b is Delay && a->Delay_max_delay_ms == b->Delay_max_delay_ms && a->Delay_delay_ms == b->Delay_delay_ms && a->Delay_feedback == b->Delay_feedback && a->Delay_mix == b->Delay_mix,
        a is NoiseGate ==> b is NoiseGate && a->NoiseGate_threshold_db == b->NoiseGate_threshold_db && a->NoiseGate_attack_ms == b->NoiseGate_attack_ms && a->NoiseGate_hold_ms == b->NoiseGate_hold_ms && a->NoiseGate_release_ms == b->NoiseGate_release_ms,
        a is Noise ==> b is Noise && a->Noise_color@ == b->Noise_color@ && a->Noise_amp == b->Noise_amp && a->Noise_seed == b->Noise_seed,
        a is Tone ==> b is Tone && a->Tone_waveform@ == b->Tone_waveform@ && a->Tone_freq == b->Tone_freq && a->Tone_amp == b->Tone_amp,
        a is Reverb ==> b is Reverb && a->Reverb_room_size == b->Reverb_room_size && a->Reverb_damping == b->Reverb_damping && a->Reverb_wet == b->Reverb_wet && a->Reverb_dry == b->Reverb_dry,
        a is Chorus ==> b is Chorus && a->Chorus_rate_hz == b->Chorus_rate_hz && a->Chorus_depth_ms == b->Chorus_depth_ms && a->Chorus_center_delay_ms == b->Chorus_center_delay_ms && a->Chorus_mix == b->Chorus_mix,
        a is Distortion ==> b is Distortion && a->Distortion_mode@ == b->Distortion_mode@ && a->Distortion_drive == b->Distortion_drive && a->Distortion_threshold == b->Distortion_threshold && a->Distortion_output_level == b->Distortion_output_level,
        a is Flanger ==> b is Flanger && a->Flanger_rate_hz == b->Flanger_rate_hz && a->Flanger_depth_ms == b->Flanger_depth_ms && a->Flanger_center_delay_ms == b->Flanger_center_delay_ms && a->Flanger_feedback == b->Flanger_feedback && a->Flanger_mix == b->Flanger_mix,
        a is AuxSend ==> b is AuxSend && a->AuxSend_send_level == b->AuxSend_send_level,
        a is Phaser ==> b is Phaser && a->Phaser_rate_hz == b->Phaser_rate_hz && a->Phaser_base_freq == b->Phaser_base_freq && a->Phaser_depth == b->Phaser_depth && a->Phaser_feedback == b->Phaser_feedback && a->Phaser_mix == b->Phaser_mix && a->Phaser_stages == b->Phaser_stages,
        a is Bitcrusher ==> b is Bitcrusher && a->Bitcrusher_bits == b->Bitcrusher_bits && a->Bitcrusher_hold_factor == b->Bitcrusher_hold_factor,
        a is Tremolo ==> b is Tremolo && a->Tremolo_rate_hz == b->Tremolo_rate_hz && a->Tremolo_depth == b->Tremolo_depth,
        a is StereoWidener ==> b is StereoWidener && a->StereoWidener_width == b->StereoWidener_width,
{
    lemma_kinds_differ(a, b);
    assert(a.texts() == b.texts());
    assert(a.reals() == b.reals());
    assert(a.counts() == b.counts());
    assert(a.texts().len() == b.texts().len());
    assert(a.reals().len() == b.reals().len());
    assert(a.texts()[0] == b.texts()[0]);
    assert(a.reals()[0] == b.reals()[0]);
    assert(a.reals()[1] == b.reals()[1]);
    assert(a.reals()[2] == b.reals()[2]);
    assert(a.reals()[3] == b.reals()[3]);
    assert(a.reals()[4] == b.reals()[4]);
    assert(a.counts()[0] == b.counts()[0]);
    assert(a.counts()[1] == b.counts()[1]);
}

} // verus!
