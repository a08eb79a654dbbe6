//! Exact geometry of a piano keyboard drawn flat or warped onto a
//! quadrilateral, and the timing of a performance replayed on it.

pub mod arith;
pub mod convert;
pub mod geometry;
pub mod homography;
pub mod layout;
pub mod pattern;
pub mod piano;
pub mod projector;
pub mod timeline;
