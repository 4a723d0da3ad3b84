//! The ALSA side of the server: sample formats, the negotiation of hardware
//! parameters, and the gateway.

pub mod format;
pub mod gateway;
pub mod params;
