//! Cubic Bézier curves over exact rational coordinates.
//!
//! Points are homogeneous: `Vector2 { x, y, w }` stands for the point
//! `(x / w, y / w)` with `w > 0`, and a curve parameter is the ratio
//! `num / den` with `den > 0`. All arithmetic is exact, so evaluation and
//! De Casteljau subdivision agree with each other without any tolerance.
use vstd::prelude::*;

pub mod ratio;
pub mod vector2;
pub mod bezier_curve;
pub mod laws;
pub mod ring;

verus! {

} // verus!
