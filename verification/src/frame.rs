//! Blocks of planar audio.

use vstd::prelude::*;

verus! {

/// A block of planar audio: every sample of channel 0, then every sample of
/// channel 1, and so on. A sample is the bit pattern of a 32-bit float.
#[derive(Debug, Clone, PartialEq, Eq)]
pub struct PcmFrame {
    /// Channel count.
    pub channels: u16,
    /// Sample rate in Hz.
    pub sample_rate: u32,
    /// The samples.
    pub samples: Vec<u32>,
}

/// The contents of an [`PcmFrame`].
pub struct PcmFrameView {
    /// Channel count.
    pub channels: u16,
    /// Sample rate in Hz.
    pub sample_rate: u32,
    /// The samples.
    pub samples: Seq<u32>,
}

impl View for PcmFrame {
    type V = PcmFrameView;

    open spec fn view(&self) -> PcmFrameView {
        PcmFrameView {
            channels: self.channels,
            sample_rate: self.sample_rate,
            samples: self.samples@,
        }
    }
}

impl PcmFrameView {
    /// Whether the samples divide evenly among the channels, and there are some.
    pub open spec fn is_whole(self) -> bool {
        &&& self.channels > 0
        &&& self.samples.len() > 0
        &&& self.samples.len() % (self.channels as nat) == 0
    }
}

impl PcmFrame {
    /// A frame of samples that are planar already.
    pub fn from_planar(channels: u16, sample_rate: u32, samples: Vec<u32>) -> (f: Self)
        ensures
            f@ == (PcmFrameView { channels, sample_rate, samples: samples@ }),
    {
        PcmFrame { channels, sample_rate, samples }
    }
}

} // verus!
