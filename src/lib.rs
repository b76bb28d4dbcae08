//! Spatial and viewport engine for an interactive two-dimensional map.
//!
//! Positions are integers in world units, zoom factors are integers in
//! thousandths, and viewport coordinates are integers in thousandths of a
//! pixel, so that every computation here is exact.

pub mod geometry;
pub mod index;
pub mod animation;
pub mod objects;
pub mod map;
