//! The engine around the real-time graph: building a graph from a topology,
//! running it cycle by cycle, replacing it while it runs, and the bridge between
//! gateways and its rings.

pub mod assemble;
pub mod bridge;
pub mod run;
