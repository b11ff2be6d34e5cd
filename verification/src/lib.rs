//! Verified core of the scalar time-series plot: the `Scalar` archetype, the
//! per-row construction of scatter-plot points, and the decisions of the
//! entity-instance inspector.

pub mod components;
pub mod archetypes;
pub mod point_visualizer;
pub mod instance;
pub mod name_set;
