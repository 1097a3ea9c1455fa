//! Grid-based isometric terrain: deterministic classification of noise
//! samples into terrain categories, and a pointer-picking pipeline that maps
//! screen coordinates through camera and surface transforms to grid cells,
//! honoring depth ordering and cross-layer occlusion.
//!
//! All continuous quantities (world units, noise samples) are carried as
//! fixed-point integers in micro-units: one world unit is `SCALE` micro-units.
use vstd::prelude::*;

pub mod grid;
pub mod iso;
pub mod picking;
pub mod terrain;
pub mod worldgen;

verus! {

/// Micro-units per world unit: every continuous quantity in this crate is a
/// fixed-point integer at this scale.
pub const SCALE: i64 = 1_000_000;

/// Largest grid dimension (columns or rows) a surface may declare.
pub const MAX_DIM: u32 = 32768;

/// Largest tile extent, in micro-units (1000 world units).
pub const MAX_TILE: i64 = 1_000_000_000;

/// Largest magnitude, in micro-units, of a coordinate or translation that the
/// transforms accept.
pub const MAX_COORD: i64 = 1_000_000_000_000_000;

/// Largest magnitude of a linear transform entry or projection scale
/// (a scale factor of one million).
pub const MAX_LINEAR: i64 = 1_000_000_000_000;

} // verus!
