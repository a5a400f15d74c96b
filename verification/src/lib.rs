//! Server core for a persistent tile-grid world: terrain evolution, adjacency
//! gated growth, collision-aware soul placement, a lifecycle state machine,
//! intent stamping, and a field-of-view query engine.

pub mod actions;
pub mod cell_def;
pub mod growth;
pub mod intent;
pub mod lifecycle;
pub mod rng;
pub mod spawn;
pub mod terrain;
pub mod tick;
pub mod visual_pkg_generator;
pub mod world;
