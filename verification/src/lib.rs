//! A verified audio-server library: the wire protocols, negotiation rules,
//! topology control, graph building and sample routing of the sonicbrew server.

pub mod address;
pub mod alsa;
pub mod alsa_plugin;
pub mod browser;
pub mod control;
pub mod engine;
pub mod frame;
pub mod gateway;
pub mod graph;
pub mod nodes;
pub mod port;
pub mod text;
pub mod wire;
