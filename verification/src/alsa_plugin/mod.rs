//! The ALSA PCM plugin: the bridge protocol it speaks, its configuration, the
//! course of opening it, and the transfers behind its callbacks.

pub mod bridge;
pub mod conf;
pub mod config;
pub mod ioplug;
pub mod open;
