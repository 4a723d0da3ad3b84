//! Ports of the audio graph.

use vstd::prelude::*;

verus! {

/// Numeric form of one sample.
#[derive(Debug, Clone, Copy, PartialEq, Eq, Structural)]
pub enum SampleFormat {
    /// 32-bit float, the form that the graph works in.
    F32,
    /// 64-bit float.
    F64,
    /// 16-bit signed integer.
    I16,
    /// 32-bit signed integer.
    I32,
}

/// Whether a port takes audio or gives it.
#[derive(Debug, Clone, Copy, PartialEq, Eq, Structural)]
pub enum PortDir {
    /// The port takes audio from an upstream node.
    Input,
    /// The port gives audio to a downstream node.
    Output,
}

/// What a node says about one of its ports.
#[derive(Debug, Clone, Copy, PartialEq, Eq, Structural)]
pub struct PortMeta {
    /// Whether the port takes audio or gives it.
    pub direction: PortDir,
    /// Channels that the port carries.
    pub channels: u16,
    /// Numeric form of its samples.
    pub sample_format: SampleFormat,
}

} // verus!
