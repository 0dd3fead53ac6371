use vstd::prelude::*;
use crate::ratio::{Frac, Ratio};
use crate::vector2::{fits, lerp_fits, lerp_point, Point, Vector2};
use crate::ring::{
    lemma_sum_of_four,
};

verus! {

/// A cubic Bézier curve given by four control points.
pub struct Curve {
    pub p0: Point,
    pub p1: Point,
    pub p2: Point,
    pub p3: Point,
}

impl Curve {
    pub open spec fn wf(self) -> bool {
        self.p0.wf() && self.p1.wf() && self.p2.wf() && self.p3.wf()
    }
}

/// The Bernstein weights `u³, 3u²t, 3ut², t³` of a parameter `t = n / d`
/// with `u = 1 - t`, each scaled by `d³`.
pub open spec fn bernstein(t: Frac, i: int) -> int {
    let u = t.complement();
    let n = t.num;
    if i == 0 {
        u * u * u
    } else if i == 1 {
        3 * (u * u) * n
    } else if i == 2 {
        3 * u * (n * n)
    } else {
        n * n * n
    }
}

/// The point of `c` at parameter `t`:
/// `u³·p0 + 3u²t·p1 + 3ut²·p2 + t³·p3` with `u = 1 - t`, written over the
/// common denominator `w0·w1·w2·w3·d³`.
pub open spec fn bezier_point(c: Curve, t: Frac) -> Point {
    let (w0, w1, w2, w3) = (c.p0.w, c.p1.w, c.p2.w, c.p3.w);
    Point {
        x: bernstein(t, 0) * c.p0.x * (w1 * w2 * w3) + bernstein(t, 1) * c.p1.x * (w0 * w2 * w3)
            + bernstein(t, 2) * c.p2.x * (w0 * w1 * w3) + bernstein(t, 3) * c.p3.x * (w0 * w1
            * w2),
        y: bernstein(t, 0) * c.p0.y * (w1 * w2 * w3) + bernstein(t, 1) * c.p1.y * (w0 * w2 * w3)
            + bernstein(t, 2) * c.p2.y * (w0 * w1 * w3) + bernstein(t, 3) * c.p3.y * (w0 * w1
            * w2),
        w: w0 * w1 * w2 * w3 * (t.den * t.den * t.den),
    }
}

/// The two halves of `c` split at `t` by De Casteljau's construction.
pub open spec fn split_curve(c: Curve, t: Frac) -> (Curve, Curve) {
    let p01 = lerp_point(c.p0, c.p1, t);
    let p12 = lerp_point(c.p1, c.p2, t);
    let p23 = lerp_point(c.p2, c.p3, t);
    let p012 = lerp_point(p01, p12, t);
    let p123 = lerp_point(p12, p23, t);
    let p0123 = lerp_point(p012, p123, t);
    (
        Curve { p0: c.p0, p1: p01, p2: p012, p3: p0123 },
        Curve { p0: p0123, p1: p123, p2: p23, p3: c.p3 },
    )
}

/// Every interpolation that `split_at` makes stays within `i64`.
pub open spec fn split_fits(c: Curve, t: Frac) -> bool {
    let p01 = lerp_point(c.p0, c.p1, t);
    let p12 = lerp_point(c.p1, c.p2, t);
    let p23 = lerp_point(c.p2, c.p3, t);
    let p012 = lerp_point(p01, p12, t);
    let p123 = lerp_point(p12, p23, t);
    &&& lerp_fits(c.p0, c.p1, t)
    &&& lerp_fits(c.p1, c.p2, t)
    &&& lerp_fits(c.p2, c.p3, t)
    &&& lerp_fits(p01, p12, t)
    &&& lerp_fits(p12, p23, t)
    &&& lerp_fits(p012, p123, t)
}

/// The weighted sum `acc + k·p` of homogeneous points.
pub open spec fn add_term(acc: Point, k: int, p: Point) -> Point {
    Point { x: acc.x * p.w + k * p.x * acc.w, y: acc.y * p.w + k * p.y * acc.w, w: acc.w * p.w }
}

/// Every value computed by one `add_term` step fits in an `i64`.
pub open spec fn add_term_fits(acc: Point, k: int, p: Point) -> bool {
    &&& fits(acc.x * p.w) && fits(k * p.x) && fits(k * p.x * acc.w)
    &&& fits(add_term(acc, k, p).x)
    &&& fits(acc.y * p.w) && fits(k * p.y) && fits(k * p.y * acc.w)
    &&& fits(add_term(acc, k, p).y)
    &&& fits(add_term(acc, k, p).w)
}

/// The partial sums that `evaluate` builds: `k0·p0`, then `+ k1·p1`, and so on.
pub open spec fn partial_sum(c: Curve, t: Frac, i: int) -> Point
    decreases i,
{
    if i <= 0 {
        Point { x: bernstein(t, 0) * c.p0.x, y: bernstein(t, 0) * c.p0.y, w: c.p0.w }
    } else if i == 1 {
        add_term(partial_sum(c, t, 0), bernstein(t, 1), c.p1)
    } else if i == 2 {
        add_term(partial_sum(c, t, 1), bernstein(t, 2), c.p2)
    } else {
        add_term(partial_sum(c, t, 2), bernstein(t, 3), c.p3)
    }
}

/// Every value that `evaluate` computes on the way fits in an `i64`.
pub open spec fn evaluate_fits(c: Curve, t: Frac) -> bool {
    let u = t.complement();
    let n = t.num;
    let d = t.den;
    &&& fits(u) && fits(u * u) && fits(u * u * u)
    &&& fits(n * n) && fits(n * n * n)
    &&& fits(3 * (u * u)) && fits(3 * (u * u) * n)
    &&& fits(3 * u) && fits(3 * u * (n * n))
    &&& fits(d * d) && fits(d * d * d)
    &&& fits(partial_sum(c, t, 0).x) && fits(partial_sum(c, t, 0).y)
    &&& add_term_fits(partial_sum(c, t, 0), bernstein(t, 1), c.p1)
    &&& add_term_fits(partial_sum(c, t, 1), bernstein(t, 2), c.p2)
    &&& add_term_fits(partial_sum(c, t, 2), bernstein(t, 3), c.p3)
    &&& fits(bezier_point(c, t).w)
}

/// The partial sums add up to the closed Bernstein form.
pub proof fn lemma_partial_sums(c: Curve, t: Frac)
    ensures
        partial_sum(c, t, 3).x == bezier_point(c, t).x,
        partial_sum(c, t, 3).y == bezier_point(c, t).y,
        partial_sum(c, t, 3).w * (t.den * t.den * t.den) == bezier_point(c, t).w,
{
    let (k0, k1, k2, k3) = (bernstein(t, 0), bernstein(t, 1), bernstein(t, 2), bernstein(t, 3));
    let (w0, w1, w2, w3) = (c.p0.w, c.p1.w, c.p2.w, c.p3.w);
    reveal_with_fuel(partial_sum, 4);
    lemma_sum_of_four(k0 * c.p0.x, k1 * c.p1.x, k2 * c.p2.x, k3 * c.p3.x, w0, w1, w2, w3);
    lemma_sum_of_four(k0 * c.p0.y, k1 * c.p1.y, k2 * c.p2.y, k3 * c.p3.y, w0, w1, w2, w3);
}

/// A cubic Bézier curve: `p0` is the start, `p3` the end, `p1` and `p2`
/// the handles.
#[derive(Debug, Clone, Copy)]
pub struct BezierCurve {
    pub p0: Vector2,
    pub p1: Vector2,
    pub p2: Vector2,
    pub p3: Vector2,
}

impl View for BezierCurve {
    type V = Curve;

    open spec fn view(&self) -> Curve {
        Curve { p0: self.p0@, p1: self.p1@, p2: self.p2@, p3: self.p3@ }
    }
}

/// `acc + k·p`, over the denominator `acc.w * p.w`.
fn add_weighted(acc: Vector2, k: i64, p: Vector2) -> (r: Vector2)
    requires
        add_term_fits(acc@, k as int, p@),
    ensures
        r@ == add_term(acc@, k as int, p@),
{
    Vector2 { x: acc.x * p.w + k * p.x * acc.w, y: acc.y * p.w + k * p.y * acc.w, w: acc.w * p.w }
}

impl BezierCurve {
    pub open spec fn wf(self) -> bool {
        self@.wf()
    }

    /// The curve with control points `p0, p1, p2, p3`.
    pub fn new(p0: Vector2, p1: Vector2, p2: Vector2, p3: Vector2) -> (r: BezierCurve)
        ensures
            r.p0 == p0 && r.p1 == p1 && r.p2 == p2 && r.p3 == p3,
            r@ == (Curve { p0: p0@, p1: p1@, p2: p2@, p3: p3@ }),
    {
        BezierCurve { p0, p1, p2, p3 }
    }

    /// The point of the curve at `t`, by the closed Bernstein form; outside
    /// `[0, 1]` it extrapolates.
    pub fn evaluate(&self, t: Ratio) -> (r: Vector2)
        requires
            self.wf(),
            t.wf(),
            evaluate_fits(self@, t@),
        ensures
            r@ == bezier_point(self@, t@),
    {
        let n = t.num;
        let u = t.den - t.num;
        let uu = u * u;
        let nn = n * n;
        let k0 = uu * u;
        let k1 = 3 * uu * n;
        let k2 = 3 * u * nn;
        let k3 = nn * n;
        let ddd = t.den * t.den * t.den;
        let acc = Vector2 { x: k0 * self.p0.x, y: k0 * self.p0.y, w: self.p0.w };
        let acc = add_weighted(acc, k1, self.p1);
        let acc = add_weighted(acc, k2, self.p2);
        let acc = add_weighted(acc, k3, self.p3);
        proof {
            lemma_partial_sums(self@, t@);
        }
        Vector2 { x: acc.x, y: acc.y, w: acc.w * ddd }
    }

    /// Splits the curve at `t` by De Casteljau's construction: the first
    /// half runs over `[0, t]` of this curve and the second over `[t, 1]`,
    /// each reparameterized to `[0, 1]`.
    pub fn split_at(&self, t: Ratio) -> (r: (BezierCurve, BezierCurve))
        requires
            self.wf(),
            t.wf(),
            split_fits(self@, t@),
        ensures
            (r.0@, r.1@) == split_curve(self@, t@),
            r.0.wf(),
            r.1.wf(),
    {
        let p01 = Vector2::lerp(self.p0, self.p1, t);
        let p12 = Vector2::lerp(self.p1, self.p2, t);
        let p23 = Vector2::lerp(self.p2, self.p3, t);
        let p012 = Vector2::lerp(p01, p12, t);
        let p123 = Vector2::lerp(p12, p23, t);
        let p0123 = Vector2::lerp(p012, p123, t);
        let first = BezierCurve::new(self.p0, p01, p012, p0123);
        let second = BezierCurve::new(p0123, p123, p23, self.p3);
        (first, second)
    }
}

} // verus!
