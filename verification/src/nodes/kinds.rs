//! Choices that nodes are made with.

use vstd::prelude::*;

verus! {

/// Shape of a biquad filter.
#[derive(Debug, Clone, Copy, PartialEq, Eq, Structural)]
pub enum FilterType {
    /// Passes what is below the cutoff.
    LowPass,
    /// Passes what is above the cutoff.
    HighPass,
    /// Passes what is around the centre.
    BandPass,
    /// Raises or lowers what is around the centre.
    Peaking,
    /// Raises or lowers what is below the corner.
    LowShelf,
    /// Raises or lowers what is above the corner.
    HighShelf,
}

/// Colour of noise.
#[derive(Debug, Clone, Copy, PartialEq, Eq, Structural)]
pub enum NoiseColor {
    /// A flat spectrum.
    White,
    /// A spectrum that falls with the frequency.
    Pink,
}

/// Waveform of a tone.
#[derive(Debug, Clone, Copy, PartialEq, Eq, Structural)]
pub enum Waveform {
    /// A sine.
    Sine,
    /// A square wave.
    Square,
    /// A rising ramp.
    Saw,
    /// A triangle.
    Triangle,
}

/// Transfer function of a waveshaper.
#[derive(Debug, Clone, Copy, PartialEq, Eq, Structural)]
pub enum DistortionMode {
    /// Soft saturation.
    SoftClip,
    /// Hard clipping.
    HardClip,
    /// Folds back what is over the limit.
    Foldback,
    /// Saturates each half of the wave on its own.
    Overdrive,
}

/// `n`, brought into the range from `lo` to `hi`.
pub open spec fn clamped(n: int, lo: int, hi: int) -> int {
    if n < lo {
        lo
    } else if n > hi {
        hi
    } else {
        n
    }
}

/// `n`, brought into the range from `lo` to `hi`.
pub fn clamp_count(n: usize, lo: usize, hi: usize) -> (r: usize)
    requires
        lo <= hi,
    ensures
        r == clamped(n as int, lo as int, hi as int),
        lo <= r <= hi,
{
    if n < lo {
        lo
    } else if n > hi {
        hi
    } else {
        n
    }
}

/// A number within the range stays, one below becomes the lower bound and one above the
/// upper bound.
pub proof fn law_clamping(n: int, lo: int, hi: int)
    requires
        lo <= hi,
    ensures
        lo <= clamped(n, lo, hi) <= hi,
        lo <= n <= hi ==> clamped(n, lo, hi) == n,
        n <= lo ==> clamped(n, lo, hi) == lo,
        n >= hi ==> clamped(n, lo, hi) == hi,
{
}

} // verus!
