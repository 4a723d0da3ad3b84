//! The control surface: nodes, links and presets, and the session store that
//! they live in.

pub mod controller;
pub mod laws;
pub mod model;
pub mod outcomes;
pub mod params;
pub mod rest;
pub mod store;
pub mod topology;
