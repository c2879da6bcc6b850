//! Ear-clipping triangulation of polygons with integer vertices.
//!
//! The polygon is given as its boundary, vertex after vertex; the result is
//! the list of triangles that were cut off, in the order in which they were
//! cut, together with whatever part of the boundary could not be cut.
//!
//! - [`geometry`]: points, triangles, the orientation test and the
//!   membership test.
//! - [`clipping`]: ears, and [`clipping::ear_clipping`] itself.
//! - [`outline`]: the segments that outline a polygon in a picture.
//! - [`edges`], [`area`], [`crossing`], [`winding`]: what is proved of a
//!   triangulation, and the sums over edges that the proofs rest on.

pub mod geometry;
pub mod clipping;
pub mod outline;
pub mod edges;
pub mod area;
pub mod crossing;
pub mod winding;
