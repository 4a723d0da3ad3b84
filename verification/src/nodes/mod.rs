//! What the audio nodes do besides arithmetic on samples: walking planar blocks,
//! routing channels, delaying, holding, gating and playing back.
//!
//! Samples are of any type that can be copied. A node that computes on samples
//! brings its computation along.

pub mod channel_map;
pub mod delay_line;
pub mod file_source;
pub mod gate;
pub mod hold;
pub mod kinds;
pub mod meter;
pub mod mixer;
pub mod noise;
pub mod planar;
