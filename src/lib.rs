//! Hopf fibration surfaces: the combinatorial core.
//!
//! Fibres over seeds on the base sphere are sampled at equal arc length and
//! stitched into a triangle mesh over deduplicated vertices. Coordinates are
//! carried as the bit patterns of their `f32` values, so that deduplication is
//! bit-exact; the floating-point evaluation of curves stays with the caller.

pub mod binary_search;
pub mod fibre;
pub mod lut;
pub mod mesh;
pub mod obj;
pub mod sp;
pub mod store;
pub mod vertex;

