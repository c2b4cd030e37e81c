//! Geometric kernel for an octree-style spatial index.
//!
//! Coordinates live on the integer lattice, so every operation is exact:
//! sums, cross products and the winding test carry no rounding error, and a
//! line intersection is returned as a rational point (numerators over one
//! shared denominator). The cubic bounding volume grows by doubling so that
//! each earlier cube stays one octant of its successor.

pub mod scalar;
pub mod vec2;
pub mod vec3;
pub mod bbox;
