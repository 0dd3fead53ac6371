use vstd::prelude::*;
use crate::ratio::{Frac, Ratio};

verus! {

/// Whether `v` fits in an `i64`.
pub open spec fn fits(v: int) -> bool {
    i64::MIN <= v <= i64::MAX
}

/// A point of the plane in homogeneous form: `(x / w, y / w)`, well formed
/// when `w > 0`.
pub struct Point {
    pub x: int,
    pub y: int,
    pub w: int,
}

impl Point {
    pub open spec fn wf(self) -> bool {
        self.w > 0
    }

    /// `self` and `other` stand for the same point of the plane.
    pub open spec fn same(self, other: Point) -> bool {
        self.x * other.w == other.x * self.w && self.y * other.w == other.y * self.w
    }
}

/// The point `a + (b - a) * t`, over the denominator `a.w * b.w * t.den`.
pub open spec fn lerp_point(a: Point, b: Point, t: Frac) -> Point {
    Point {
        x: a.x * b.w * t.complement() + b.x * a.w * t.num,
        y: a.y * b.w * t.complement() + b.y * a.w * t.num,
        w: a.w * b.w * t.den,
    }
}

/// Every value that `Vector2::lerp` computes on the way fits in an `i64`.
pub open spec fn lerp_fits(a: Point, b: Point, t: Frac) -> bool {
    &&& fits(t.complement())
    &&& fits(a.x * b.w) && fits(a.x * b.w * t.complement())
    &&& fits(b.x * a.w) && fits(b.x * a.w * t.num)
    &&& fits(lerp_point(a, b, t).x)
    &&& fits(a.y * b.w) && fits(a.y * b.w * t.complement())
    &&& fits(b.y * a.w) && fits(b.y * a.w * t.num)
    &&& fits(lerp_point(a, b, t).y)
    &&& fits(a.w * b.w) && fits(lerp_point(a, b, t).w)
}

/// A point of the plane, `(x / w, y / w)` with `w > 0`.
#[derive(Debug, Clone, Copy)]
pub struct Vector2 {
    pub x: i64,
    pub y: i64,
    pub w: i64,
}

impl View for Vector2 {
    type V = Point;

    open spec fn view(&self) -> Point {
        Point { x: self.x as int, y: self.y as int, w: self.w as int }
    }
}

impl Vector2 {
    pub open spec fn wf(self) -> bool {
        self.w > 0
    }

    /// The point `(x, y)`.
    pub fn new(x: i64, y: i64) -> (r: Vector2)
        ensures
            r@ == (Point { x: x as int, y: y as int, w: 1 }),
            r.wf(),
    {
        Vector2 { x, y, w: 1 }
    }

    /// The point `(x / w, y / w)`.
    pub fn from_fraction(x: i64, y: i64, w: i64) -> (r: Vector2)
        requires
            w > 0,
        ensures
            r@ == (Point { x: x as int, y: y as int, w: w as int }),
            r.wf(),
    {
        Vector2 { x, y, w }
    }

    /// Whether `self` and `other` stand for the same point of the plane.
    pub fn same_point(&self, other: &Vector2) -> (r: bool)
        ensures
            r == self@.same(other@),
    {
        let (ax, ay, aw) = (self.x as i128, self.y as i128, self.w as i128);
        let (bx, by, bw) = (other.x as i128, other.y as i128, other.w as i128);
        assert(-0x4000_0000_0000_0000_0000_0000_0000_0000 <= ax * bw
            <= 0x4000_0000_0000_0000_0000_0000_0000_0000) by (nonlinear_arith)
            requires
                -0x8000_0000_0000_0000 <= ax < 0x8000_0000_0000_0000,
                -0x8000_0000_0000_0000 <= bw < 0x8000_0000_0000_0000,
        ;
        assert(-0x4000_0000_0000_0000_0000_0000_0000_0000 <= bx * aw
            <= 0x4000_0000_0000_0000_0000_0000_0000_0000) by (nonlinear_arith)
            requires
                -0x8000_0000_0000_0000 <= bx < 0x8000_0000_0000_0000,
                -0x8000_0000_0000_0000 <= aw < 0x8000_0000_0000_0000,
        ;
        assert(-0x4000_0000_0000_0000_0000_0000_0000_0000 <= ay * bw
            <= 0x4000_0000_0000_0000_0000_0000_0000_0000) by (nonlinear_arith)
            requires
                -0x8000_0000_0000_0000 <= ay < 0x8000_0000_0000_0000,
                -0x8000_0000_0000_0000 <= bw < 0x8000_0000_0000_0000,
        ;
        assert(-0x4000_0000_0000_0000_0000_0000_0000_0000 <= by * aw
            <= 0x4000_0000_0000_0000_0000_0000_0000_0000) by (nonlinear_arith)
            requires
                -0x8000_0000_0000_0000 <= by < 0x8000_0000_0000_0000,
                -0x8000_0000_0000_0000 <= aw < 0x8000_0000_0000_0000,
        ;
        ax * bw == bx * aw && ay * bw == by * aw
    }

    /// Linear interpolation `a + (b - a) * t`, exact for every `t`
    /// (outside `[0, 1]` it extrapolates).
    pub fn lerp(a: Vector2, b: Vector2, t: Ratio) -> (r: Vector2)
        requires
            a.wf(),
            b.wf(),
            t.wf(),
            lerp_fits(a@, b@, t@),
        ensures
            r@ == lerp_point(a@, b@, t@),
            r.wf(),
    {
        let u = t.den - t.num;
        let x = a.x * b.w * u + b.x * a.w * t.num;
        let y = a.y * b.w * u + b.y * a.w * t.num;
        let w = a.w * b.w * t.den;
        assert(w > 0) by (nonlinear_arith)
            requires
                w == a.w * b.w * t.den,
                a.w > 0,
                b.w > 0,
                t.den > 0,
        ;
        Vector2 { x, y, w }
    }
}

} // verus!
