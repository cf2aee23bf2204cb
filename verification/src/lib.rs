//! Verified core of a procedural world generator's host binding: configuration
//! checks, stage sequencing, layer validation and output assembly.

pub mod coast;
pub mod config;
pub mod connectivity;
pub mod elevation;
pub mod graph;
pub mod greeting;
pub mod grid;
pub mod laws;
pub mod pipeline;
pub mod province;
pub mod region;
pub mod seeds;
pub mod stage;
pub mod water;
