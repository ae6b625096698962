//! Geometric oracle for 2-D line segments, suitable for driving a generic
//! kd-tree-style spatial partitioning engine.
//!
//! The oracle supplies the four primitives such an engine needs: bounding
//! volume computation, cut-coordinate selection, fragment splitting at a cut,
//! and the distance metrics used for nearest-neighbour pruning.  All geometry
//! is carried out in exact rational arithmetic, so every primitive comes with
//! a precise contract over mathematical rationals.

pub mod cutting;
pub mod distance;
pub mod geometry;
pub mod modes;
pub mod rational;
pub mod splitting;
