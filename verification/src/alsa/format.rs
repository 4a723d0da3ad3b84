//! ALSA sample formats.
//!
//! The linear formats of `snd_pcm_format_t` that professional audio uses.

use crate::port::SampleFormat;
use vstd::prelude::*;

verus! {

/// A sample format of `snd_pcm_format_t`.
#[derive(Debug, Clone, Copy, PartialEq, Eq, Structural)]
pub enum AlsaFormat {
    /// Signed 16-bit, `SND_PCM_FORMAT_S16_LE`.
    S16Le,
    /// Signed 24-bit in a 4-byte container, `SND_PCM_FORMAT_S24_LE`.
    S24Le,
    /// Signed 24-bit packed into 3 bytes, `SND_PCM_FORMAT_S24_3LE`.
    S24_3Le,
    /// Signed 32-bit, `SND_PCM_FORMAT_S32_LE`.
    S32Le,
    /// 32-bit float, `SND_PCM_FORMAT_FLOAT_LE`.
    Float32Le,
    /// 64-bit float, `SND_PCM_FORMAT_FLOAT64_LE`.
    Float64Le,
}

impl AlsaFormat {
    /// The `snd_pcm_format_t` value.
    pub open spec fn wire_value(self) -> u32 {
        match self {
            AlsaFormat::S16Le => 2,
            AlsaFormat::S24Le => 6,
            AlsaFormat::S24_3Le => 32,
            AlsaFormat::S32Le => 10,
            AlsaFormat::Float32Le => 14,
            AlsaFormat::Float64Le => 15,
        }
    }

    /// Bytes of a sample that carry audio.
    pub open spec fn payload_bytes(self) -> u8 {
        match self {
            AlsaFormat::S16Le => 2,
            AlsaFormat::S24Le => 3,
            AlsaFormat::S24_3Le => 3,
            AlsaFormat::S32Le => 4,
            AlsaFormat::Float32Le => 4,
            AlsaFormat::Float64Le => 8,
        }
    }

    /// Bytes of the slot that a sample occupies.
    pub open spec fn slot_bytes(self) -> u8 {
        if self == AlsaFormat::S24Le {
            4
        } else {
            self.payload_bytes()
        }
    }

    /// The `snd_pcm_format_t` value.
    pub fn to_alsa_value(self) -> (v: u32)
        ensures
            v == self.wire_value(),
    {
        match self {
            AlsaFormat::S16Le => 2,
            AlsaFormat::S24Le => 6,
            AlsaFormat::S24_3Le => 32,
            AlsaFormat::S32Le => 10,
            AlsaFormat::Float32Le => 14,
            AlsaFormat::Float64Le => 15,
        }
    }

    /// Bytes of a sample that carry audio, without padding.
    pub fn physical_width_bytes(self) -> (n: u8)
        ensures
            n == self.payload_bytes(),
    {
        match self {
            AlsaFormat::S16Le => 2,
            AlsaFormat::S24Le | AlsaFormat::S24_3Le => 3,
            AlsaFormat::S32Le | AlsaFormat::Float32Le => 4,
            AlsaFormat::Float64Le => 8,
        }
    }

    /// Bytes of the slot that a sample occupies, padding included.
    pub fn container_width_bytes(self) -> (n: u8)
        ensures
            n == self.slot_bytes(),
    {
        match self {
            AlsaFormat::S24Le => 4,
            _ => self.physical_width_bytes(),
        }
    }
}

/// The form that the graph has for samples of format `f`; 24-bit samples have
/// none.
pub open spec fn core_format_of(f: AlsaFormat) -> Option<SampleFormat> {
    match f {
        AlsaFormat::S16Le => Some(SampleFormat::I16),
        AlsaFormat::S32Le => Some(SampleFormat::F32),
        AlsaFormat::Float32Le => Some(SampleFormat::F32),
        AlsaFormat::Float64Le => Some(SampleFormat::F64),
        AlsaFormat::S24Le => None,
        AlsaFormat::S24_3Le => None,
    }
}

/// The form that the graph has for samples of format `f`.
///
/// 24-bit samples have none. 32-bit integers become 32-bit floats, which loses
/// the lowest bits.
pub fn to_core_sample_format(f: AlsaFormat) -> (r: Option<SampleFormat>)
    ensures
        r == core_format_of(f),
{
    match f {
        AlsaFormat::S16Le => Some(SampleFormat::I16),
        AlsaFormat::S32Le | AlsaFormat::Float32Le => Some(SampleFormat::F32),
        AlsaFormat::Float64Le => Some(SampleFormat::F64),
        AlsaFormat::S24Le | AlsaFormat::S24_3Le => None,
    }
}

/// No two formats share a wire value.
pub proof fn law_wire_values_are_distinct(a: AlsaFormat, b: AlsaFormat)
    ensures
        a.wire_value() == b.wire_value() <==> a == b,
{
}

/// A slot holds the payload, and only the padded 24-bit format has room left.
pub proof fn law_slots_hold_payloads(f: AlsaFormat)
    ensures
        f.payload_bytes() <= f.slot_bytes(),
        f.payload_bytes() < f.slot_bytes() <==> f == AlsaFormat::S24Le,
{
}

/// How wide a sample is in each format: its payload and the slot that it occupies.
pub proof fn law_widths_of_formats(f: AlsaFormat)
    ensures
        f.payload_bytes() == 2 <==> f == AlsaFormat::S16Le,
        f.payload_bytes() == 3 <==> f == AlsaFormat::S24Le || f == AlsaFormat::S24_3Le,
        f.payload_bytes() == 4 <==> f == AlsaFormat::S32Le || f == AlsaFormat::Float32Le,
        f.payload_bytes() == 8 <==> f == AlsaFormat::Float64Le,
        f.slot_bytes() == 2 <==> f == AlsaFormat::S16Le,
        f.slot_bytes() == 3 <==> f == AlsaFormat::S24_3Le,
        f.slot_bytes() == 4 <==> f == AlsaFormat::S24Le || f == AlsaFormat::S32Le || f
            == AlsaFormat::Float32Le,
        f.slot_bytes() == 8 <==> f == AlsaFormat::Float64Le,
{
}

/// The value that stands for each format in `snd_pcm_format_t`.
pub proof fn law_wire_values_of_formats(f: AlsaFormat)
    ensures
        f.wire_value() == 2 <==> f == AlsaFormat::S16Le,
        f.wire_value() == 6 <==> f == AlsaFormat::S24Le,
        f.wire_value() == 10 <==> f == AlsaFormat::S32Le,
        f.wire_value() == 14 <==> f == AlsaFormat::Float32Le,
        f.wire_value() == 15 <==> f == AlsaFormat::Float64Le,
        f.wire_value() == 32 <==> f == AlsaFormat::S24_3Le,
{
}

/// Exactly the samples of three bytes have no form in the graph. Two bytes become 16-bit
/// integers, four bytes 32-bit floats and eight bytes 64-bit floats.
pub proof fn law_formats_in_the_graph(f: AlsaFormat)
    ensures
        core_format_of(f) is None <==> f.payload_bytes() == 3,
        core_format_of(f) == Some(SampleFormat::I16) <==> f.payload_bytes() == 2,
        core_format_of(f) == Some(SampleFormat::F32) <==> f.payload_bytes() == 4,
        core_format_of(f) == Some(SampleFormat::F64) <==> f.payload_bytes() == 8,
{
}

} // verus!
