//! Axis-aligned rectangle collision detection and positional resolution.
//!
//! The crate provides the overlap / minimum-translation-vector computation for
//! pairs of axis-aligned rectangles together with the two positional
//! correction passes built on it: pushing movable bodies out of immovable
//! obstacles, and separating pairs of movable bodies in proportion to their
//! masses.
//!
//! All coordinates are fixed-point integers: the caller picks a unit scale
//! (for instance 1/20 of a world unit) and supplies centers, sizes and the
//! returned displacements in that scale. Every function is specified and
//! verified over the exact integer semantics.

pub mod body;
pub mod mtv;
pub mod resolve;
pub mod vec2;
