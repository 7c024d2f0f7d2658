//! Combinatorial core of convex-polygon clipping.
//!
//! A polygon is a ring of apexes. Everything here works on positions in that
//! ring: the directed boundary edges, the cyclic walk over them, the
//! orientation of the ring, and the rotating dual-boundary traversal that
//! assembles the intersection of two convex polygons. Coordinates never enter
//! this crate; the caller evaluates the geometric predicates on its own
//! coordinates and hands their outcomes in as plain values.

pub mod convex_hull;
pub mod edge;
pub mod intersection;
pub mod traversal;
