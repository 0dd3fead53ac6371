use vstd::prelude::*;
use crate::bezier_curve::{bernstein, bezier_point, split_curve, Curve};
use crate::ratio::Frac;
use crate::vector2::{lerp_point, Point};
use crate::ring::{
    lemma_mul_swap,
    lemma_three,
    lemma_four,
    lemma_zero_product,
    lemma_cross_term,
    lemma_cross_term_swapped,
    lemma_factor_weight,
    lemma_de_casteljau_poly,
    lemma_positive_product,
    lemma_common_weight,
    lemma_de_casteljau_weight,
    lemma_blossom,
    lemma_rotate_coefficients,
    lemma_rotate_left,
    lemma_expand_quad,
    lemma_first_half_weights,
    lemma_blossom_second,
    lemma_second_half_weights,
    lemma_distribute,
    lemma_associate,
};

verus! {

/// `p` with every coordinate, weight included, multiplied by `k`.
pub open spec fn scaled(p: Point, k: int) -> Point {
    Point { x: k * p.x, y: k * p.y, w: k * p.w }
}

/// Multiplying all homogeneous coordinates by the same factor keeps the point.
pub proof fn lemma_scaled_same(p: Point, k: int)
    ensures
        scaled(p, k).same(p),
        p.same(scaled(p, k)),
{
    lemma_mul_swap(k, p.x, p.w);
    lemma_mul_swap(k, p.y, p.w);
}

/// Two points that stand for a third stand for each other.
pub proof fn lemma_same_trans(p: Point, q: Point, r: Point)
    requires
        q.w != 0,
        p.same(q),
        q.same(r),
    ensures
        p.same(r),
{
    assert(q.w * (p.x * r.w) == q.w * (r.x * p.w)) by (nonlinear_arith)
        requires
            p.x * q.w == q.x * p.w,
            q.x * r.w == r.x * q.w,
    ;
    assert(q.w * (p.y * r.w) == q.w * (r.y * p.w)) by (nonlinear_arith)
        requires
            p.y * q.w == q.y * p.w,
            q.y * r.w == r.y * q.w,
    ;
    vstd::arithmetic::mul::lemma_mul_equality_converse(q.w, p.x * r.w, r.x * p.w);
    vstd::arithmetic::mul::lemma_mul_equality_converse(q.w, p.y * r.w, r.y * p.w);
}

/// Standing for the same point is symmetric.
pub proof fn lemma_same_symmetric(p: Point, q: Point)
    requires
        p.same(q),
    ensures
        q.same(p),
{
}

/// Interpolation at zero gives the start point, and at one the end point.
pub proof fn lemma_lerp_ends(a: Point, b: Point, t: Frac)
    requires
        t.wf(),
    ensures
        t.num == 0 ==> lerp_point(a, b, t).same(a),
        t.num == t.den ==> lerp_point(a, b, t).same(b),
{
    let d = t.den;
    lemma_three(a.x, b.w, d);
    lemma_three(a.y, b.w, d);
    lemma_three(a.w, b.w, d);
    lemma_three(b.x, a.w, d);
    lemma_three(b.y, a.w, d);
    if t.num == 0 {
        assert(lerp_point(a, b, t) == scaled(a, b.w * d));
        lemma_scaled_same(a, b.w * d);
    }
    if t.num == t.den {
        assert(lerp_point(a, b, t) == scaled(b, a.w * d));
        lemma_scaled_same(b, a.w * d);
    }
}

proof fn lemma_bernstein_ends(t: Frac)
    ensures
        t.num == 0 ==> bernstein(t, 0) == t.den * t.den * t.den && bernstein(t, 1) == 0
            && bernstein(t, 2) == 0 && bernstein(t, 3) == 0,
        t.num == t.den ==> bernstein(t, 3) == t.den * t.den * t.den && bernstein(t, 0) == 0
            && bernstein(t, 1) == 0 && bernstein(t, 2) == 0,
{
    let (n, d, u) = (t.num, t.den, t.complement());
    assert(n == 0 ==> 3 * (u * u) * n == 0 && 3 * u * (n * n) == 0 && n * n * n == 0)
        by (nonlinear_arith);
    assert(u == 0 ==> 3 * (u * u) * n == 0 && 3 * u * (n * n) == 0 && u * u * u == 0)
        by (nonlinear_arith);
}

/// A curve starts at its first control point and ends at its last one.
pub proof fn lemma_evaluate_ends(c: Curve, t: Frac)
    requires
        t.wf(),
    ensures
        t.num == 0 ==> bezier_point(c, t).same(c.p0),
        t.num == t.den ==> bezier_point(c, t).same(c.p3),
{
    let ddd = t.den * t.den * t.den;
    lemma_bernstein_ends(t);
    if t.num == 0 {
        let k = ddd * (c.p1.w * c.p2.w * c.p3.w);
        lemma_zero_product(bernstein(t, 1), c.p1.x, c.p0.w * c.p2.w * c.p3.w);
        lemma_zero_product(bernstein(t, 2), c.p2.x, c.p0.w * c.p1.w * c.p3.w);
        lemma_zero_product(bernstein(t, 3), c.p3.x, c.p0.w * c.p1.w * c.p2.w);
        lemma_zero_product(bernstein(t, 1), c.p1.y, c.p0.w * c.p2.w * c.p3.w);
        lemma_zero_product(bernstein(t, 2), c.p2.y, c.p0.w * c.p1.w * c.p3.w);
        lemma_zero_product(bernstein(t, 3), c.p3.y, c.p0.w * c.p1.w * c.p2.w);
        assert(bezier_point(c, t).x == k * c.p0.x) by {
            lemma_four(ddd, c.p0.x, c.p1.w, c.p2.w, c.p3.w);
        }
        assert(bezier_point(c, t).y == k * c.p0.y) by {
            lemma_four(ddd, c.p0.y, c.p1.w, c.p2.w, c.p3.w);
        }
        assert(bezier_point(c, t).w == k * c.p0.w) by {
            lemma_four(ddd, c.p0.w, c.p1.w, c.p2.w, c.p3.w);
        }
        assert(bezier_point(c, t) == scaled(c.p0, k));
        lemma_scaled_same(c.p0, k);
    }
    if t.num == t.den {
        let k = ddd * (c.p0.w * c.p1.w * c.p2.w);
        lemma_zero_product(bernstein(t, 0), c.p0.x, c.p1.w * c.p2.w * c.p3.w);
        lemma_zero_product(bernstein(t, 1), c.p1.x, c.p0.w * c.p2.w * c.p3.w);
        lemma_zero_product(bernstein(t, 2), c.p2.x, c.p0.w * c.p1.w * c.p3.w);
        lemma_zero_product(bernstein(t, 0), c.p0.y, c.p1.w * c.p2.w * c.p3.w);
        lemma_zero_product(bernstein(t, 1), c.p1.y, c.p0.w * c.p2.w * c.p3.w);
        lemma_zero_product(bernstein(t, 2), c.p2.y, c.p0.w * c.p1.w * c.p3.w);
        assert(bezier_point(c, t).x == k * c.p3.x) by {
            lemma_four(ddd, c.p3.x, c.p0.w, c.p1.w, c.p2.w);
        }
        assert(bezier_point(c, t).y == k * c.p3.y) by {
            lemma_four(ddd, c.p3.y, c.p0.w, c.p1.w, c.p2.w);
        }
        assert(bezier_point(c, t).w == k * c.p3.w) by {
            lemma_four(ddd, c.p3.w, c.p0.w, c.p1.w, c.p2.w);
        }
        assert(bezier_point(c, t) == scaled(c.p3, k));
        lemma_scaled_same(c.p3, k);
    }
}

/// Interpolating between well-formed points gives a well-formed point.
pub proof fn lemma_lerp_wf(a: Point, b: Point, t: Frac)
    requires
        a.wf(),
        b.wf(),
        t.wf(),
    ensures
        lerp_point(a, b, t).wf(),
{
    assert(a.w * b.w * t.den > 0) by (nonlinear_arith)
        requires
            a.w > 0,
            b.w > 0,
            t.den > 0,
    ;
}

/// Both halves of a split are well-formed curves.
pub proof fn lemma_split_wf(c: Curve, t: Frac)
    requires
        c.wf(),
        t.wf(),
    ensures
        split_curve(c, t).0.wf(),
        split_curve(c, t).1.wf(),
{
    let p01 = lerp_point(c.p0, c.p1, t);
    let p12 = lerp_point(c.p1, c.p2, t);
    let p23 = lerp_point(c.p2, c.p3, t);
    lemma_lerp_wf(c.p0, c.p1, t);
    lemma_lerp_wf(c.p1, c.p2, t);
    lemma_lerp_wf(c.p2, c.p3, t);
    lemma_lerp_wf(p01, p12, t);
    lemma_lerp_wf(p12, p23, t);
    lemma_lerp_wf(lerp_point(p01, p12, t), lerp_point(p12, p23, t), t);
}

/// The two halves of a split meet: the first ends where the second starts.
pub proof fn lemma_split_halves_meet(c: Curve, t: Frac, zero: Frac, one: Frac)
    requires
        c.wf(),
        t.wf(),
        zero.wf() && zero.num == 0,
        one.wf() && one.num == one.den,
    ensures
        bezier_point(split_curve(c, t).0, one).same(bezier_point(split_curve(c, t).1, zero)),
{
    let (first, second) = split_curve(c, t);
    lemma_split_wf(c, t);
    lemma_evaluate_ends(first, one);
    lemma_evaluate_ends(second, zero);
    lemma_same_symmetric(bezier_point(second, zero), second.p0);
    lemma_same_trans(bezier_point(first, one), first.p3, bezier_point(second, zero));
}

/// Interpolation depends only on the points that its ends stand for.
pub proof fn lemma_lerp_congruent(a: Point, b: Point, a2: Point, b2: Point, t: Frac)
    requires
        a.same(a2),
        b.same(b2),
    ensures
        lerp_point(a, b, t).same(lerp_point(a2, b2, t)),
{
    let (u, n, d) = (t.complement(), t.num, t.den);
    let r2 = a2.w * b2.w * d;
    let r = a.w * b.w * d;
    lemma_cross_term(a.x, a2.x, a.w, a2.w, u, b.w, b2.w, d);
    lemma_cross_term_swapped(b.x, b2.x, b.w, b2.w, n, a.w, a2.w, d);
    lemma_cross_term(a.y, a2.y, a.w, a2.w, u, b.w, b2.w, d);
    lemma_cross_term_swapped(b.y, b2.y, b.w, b2.w, n, a.w, a2.w, d);
    lemma_distribute(a.x * b.w * u, b.x * a.w * n, r2);
    lemma_distribute(a2.x * b2.w * u, b2.x * a2.w * n, r);
    lemma_distribute(a.y * b.w * u, b.y * a.w * n, r2);
    lemma_distribute(a2.y * b2.w * u, b2.y * a2.w * n, r);
}

/// Interpolation between two points of the same weight, without the
/// common factor: `(a·(1 - t) + b·t)` over `w·d`.
pub open spec fn lerp_common(a: Point, b: Point, t: Frac) -> Point {
    Point {
        x: a.x * t.complement() + b.x * t.num,
        y: a.y * t.complement() + b.y * t.num,
        w: a.w * t.den,
    }
}

/// Between points of the same weight, interpolation is `lerp_common`
/// scaled by that weight.
pub proof fn lemma_lerp_same_weight(a: Point, b: Point, t: Frac)
    requires
        a.w == b.w,
    ensures
        lerp_point(a, b, t) == scaled(lerp_common(a, b, t), a.w),
{
    lemma_factor_weight(a.x, b.x, a.w, t.complement(), t.num);
    lemma_factor_weight(a.y, b.y, a.w, t.complement(), t.num);
    lemma_associate(a.w, a.w, t.den);
}

/// Interpolation between `a` and `b` stands for `lerp_common` of any two
/// points of one weight that stand for `a` and `b`.
pub proof fn lemma_lerp_normal(a: Point, b: Point, a2: Point, b2: Point, t: Frac)
    requires
        a.wf(),
        b.wf(),
        a2.wf(),
        a2.w == b2.w,
        t.wf(),
        a.same(a2),
        b.same(b2),
    ensures
        lerp_point(a, b, t).same(lerp_common(a2, b2, t)),
{
    lemma_lerp_congruent(a, b, a2, b2, t);
    lemma_lerp_same_weight(a2, b2, t);
    lemma_scaled_same(lerp_common(a2, b2, t), a2.w);
    lemma_lerp_wf(a2, b2, t);
    lemma_same_trans(lerp_point(a, b, t), lerp_point(a2, b2, t), lerp_common(a2, b2, t));
}

/// The control points of `c` brought to the common weight `w0·w1·w2·w3`.
pub open spec fn normalized(c: Curve) -> Curve {
    let (w0, w1, w2, w3) = (c.p0.w, c.p1.w, c.p2.w, c.p3.w);
    Curve {
        p0: scaled(c.p0, w1 * w2 * w3),
        p1: scaled(c.p1, w0 * w2 * w3),
        p2: scaled(c.p2, w0 * w1 * w3),
        p3: scaled(c.p3, w0 * w1 * w2),
    }
}

/// The normalized control points stand for the original ones and share one
/// positive weight.
proof fn lemma_normalized(c: Curve)
    requires
        c.wf(),
    ensures
        normalized(c).p0.w == c.p0.w * c.p1.w * c.p2.w * c.p3.w,
        normalized(c).p1.w == normalized(c).p0.w,
        normalized(c).p2.w == normalized(c).p0.w,
        normalized(c).p3.w == normalized(c).p0.w,
        normalized(c).wf(),
        c.p0.same(normalized(c).p0),
        c.p1.same(normalized(c).p1),
        c.p2.same(normalized(c).p2),
        c.p3.same(normalized(c).p3),
{
    let (w0, w1, w2, w3) = (c.p0.w, c.p1.w, c.p2.w, c.p3.w);
    lemma_common_weight(w0, w1, w2, w3);
    lemma_positive_product(w0, w1);
    lemma_positive_product(w0 * w1, w2);
    lemma_positive_product(w0 * w1 * w2, w3);
    lemma_scaled_same(c.p0, w1 * w2 * w3);
    lemma_scaled_same(c.p1, w0 * w2 * w3);
    lemma_scaled_same(c.p2, w0 * w1 * w3);
    lemma_scaled_same(c.p3, w0 * w1 * w2);
}

/// The point where a split joins its halves is the point of the curve at
/// the split parameter.
pub proof fn lemma_split_point_on_curve(c: Curve, t: Frac)
    requires
        c.wf(),
        t.wf(),
    ensures
        bezier_point(c, t).same(split_curve(c, t).0.p3),
{
    let (u, n, d) = (t.complement(), t.num, t.den);
    let nc = normalized(c);
    let joint = split_curve(c, t).0.p3;
    let normal_joint = normal_halves(c, t).0.p3;
    lemma_normalized(c);
    lemma_split_normal(c, t);
    lemma_bezier_common(c, nc, t);
    lemma_de_casteljau_poly(nc.p0.x, nc.p1.x, nc.p2.x, nc.p3.x, u, n);
    lemma_de_casteljau_poly(nc.p0.y, nc.p1.y, nc.p2.y, nc.p3.y, u, n);
    lemma_rotate_coefficients(nc.p0.x, nc.p1.x, nc.p2.x, nc.p3.x, u, n);
    lemma_rotate_coefficients(nc.p0.y, nc.p1.y, nc.p2.y, nc.p3.y, u, n);
    lemma_de_casteljau_weight(nc.p0.w, d);
    assert(common_form(nc, t) == normal_joint);
    lemma_same_symmetric(joint, normal_joint);
    lemma_same_trans(bezier_point(c, t), normal_joint, joint);
}

/// The halves of a split, computed on the normalized control points with
/// the common factors left out; the control points of the first half have
/// weights `W`, `W·d`, `W·d²`, `W·d³`.
pub open spec fn normal_halves(c: Curve, t: Frac) -> (Curve, Curve) {
    let nc = normalized(c);
    let m01 = lerp_common(nc.p0, nc.p1, t);
    let m12 = lerp_common(nc.p1, nc.p2, t);
    let m23 = lerp_common(nc.p2, nc.p3, t);
    let m012 = lerp_common(m01, m12, t);
    let m123 = lerp_common(m12, m23, t);
    let m0123 = lerp_common(m012, m123, t);
    (
        Curve { p0: nc.p0, p1: m01, p2: m012, p3: m0123 },
        Curve { p0: m0123, p1: m123, p2: m23, p3: nc.p3 },
    )
}

/// Each control point of a split stands for the matching point of
/// `normal_halves`.
proof fn lemma_split_normal(c: Curve, t: Frac)
    requires
        c.wf(),
        t.wf(),
    ensures
        ({
            let (f, s) = split_curve(c, t);
            let (nf, ns) = normal_halves(c, t);
            &&& f.p0.same(nf.p0) && f.p1.same(nf.p1) && f.p2.same(nf.p2) && f.p3.same(nf.p3)
            &&& s.p0.same(ns.p0) && s.p1.same(ns.p1) && s.p2.same(ns.p2) && s.p3.same(ns.p3)
            &&& nf.wf() && ns.wf()
        }),
{
    let (u, n, d) = (t.complement(), t.num, t.den);
    let nc = normalized(c);
    lemma_normalized(c);
    let w = nc.p0.w;
    let p01 = lerp_point(c.p0, c.p1, t);
    let p12 = lerp_point(c.p1, c.p2, t);
    let p23 = lerp_point(c.p2, c.p3, t);
    let m01 = lerp_common(nc.p0, nc.p1, t);
    let m12 = lerp_common(nc.p1, nc.p2, t);
    let m23 = lerp_common(nc.p2, nc.p3, t);
    lemma_lerp_normal(c.p0, c.p1, nc.p0, nc.p1, t);
    lemma_lerp_normal(c.p1, c.p2, nc.p1, nc.p2, t);
    lemma_lerp_normal(c.p2, c.p3, nc.p2, nc.p3, t);
    lemma_lerp_wf(c.p0, c.p1, t);
    lemma_lerp_wf(c.p1, c.p2, t);
    lemma_lerp_wf(c.p2, c.p3, t);
    lemma_positive_product(w, d);
    let p012 = lerp_point(p01, p12, t);
    let p123 = lerp_point(p12, p23, t);
    let m012 = lerp_common(m01, m12, t);
    let m123 = lerp_common(m12, m23, t);
    lemma_lerp_normal(p01, p12, m01, m12, t);
    lemma_lerp_normal(p12, p23, m12, m23, t);
    lemma_lerp_wf(p01, p12, t);
    lemma_lerp_wf(p12, p23, t);
    lemma_positive_product(w * d, d);
    lemma_lerp_normal(p012, p123, m012, m123, t);
    lemma_positive_product(w * d * d, d);
}

/// The closed Bernstein form on control points that share one weight, with
/// that weight taken once: `Σ bᵢ·xᵢ` over `w·d³`.
pub open spec fn common_form(q: Curve, s: Frac) -> Point {
    Point {
        x: bernstein(s, 0) * q.p0.x + bernstein(s, 1) * q.p1.x + bernstein(s, 2) * q.p2.x
            + bernstein(s, 3) * q.p3.x,
        y: bernstein(s, 0) * q.p0.y + bernstein(s, 1) * q.p1.y + bernstein(s, 2) * q.p2.y
            + bernstein(s, 3) * q.p3.y,
        w: q.p0.w * (s.den * s.den * s.den),
    }
}

/// All control points of `q` have the weight of `p0`.
pub open spec fn one_weight(q: Curve) -> bool {
    q.p1.w == q.p0.w && q.p2.w == q.p0.w && q.p3.w == q.p0.w
}

/// The closed form of a curve is the common form of its normalized points.
proof fn lemma_bezier_normalized(c: Curve, s: Frac)
    requires
        c.wf(),
    ensures
        bezier_point(c, s) == common_form(normalized(c), s),
{
    let (w0, w1, w2, w3) = (c.p0.w, c.p1.w, c.p2.w, c.p3.w);
    lemma_normalized(c);
    lemma_rotate_left(w1 * w2 * w3, c.p0.x, bernstein(s, 0));
    lemma_rotate_left(w0 * w2 * w3, c.p1.x, bernstein(s, 1));
    lemma_rotate_left(w0 * w1 * w3, c.p2.x, bernstein(s, 2));
    lemma_rotate_left(w0 * w1 * w2, c.p3.x, bernstein(s, 3));
    lemma_rotate_left(w1 * w2 * w3, c.p0.y, bernstein(s, 0));
    lemma_rotate_left(w0 * w2 * w3, c.p1.y, bernstein(s, 1));
    lemma_rotate_left(w0 * w1 * w3, c.p2.y, bernstein(s, 2));
    lemma_rotate_left(w0 * w1 * w2, c.p3.y, bernstein(s, 3));
}

/// The common form depends only on the points that the control points
/// stand for.
proof fn lemma_common_form_congruent(p: Curve, q: Curve, s: Frac)
    requires
        one_weight(p),
        one_weight(q),
        p.p0.same(q.p0) && p.p1.same(q.p1) && p.p2.same(q.p2) && p.p3.same(q.p3),
    ensures
        common_form(p, s).same(common_form(q, s)),
{
    let (b0, b1, b2, b3) = (bernstein(s, 0), bernstein(s, 1), bernstein(s, 2), bernstein(s, 3));
    let (vp, vq) = (p.p0.w, q.p0.w);
    let e = s.den * s.den * s.den;
    lemma_expand_quad(b0, b1, b2, b3, p.p0.x, p.p1.x, p.p2.x, p.p3.x, vq);
    lemma_expand_quad(b0, b1, b2, b3, q.p0.x, q.p1.x, q.p2.x, q.p3.x, vp);
    lemma_expand_quad(b0, b1, b2, b3, p.p0.y, p.p1.y, p.p2.y, p.p3.y, vq);
    lemma_expand_quad(b0, b1, b2, b3, q.p0.y, q.p1.y, q.p2.y, q.p3.y, vp);
    let (xp, xq) = (common_form(p, s).x, common_form(q, s).x);
    let (yp, yq) = (common_form(p, s).y, common_form(q, s).y);
    assert(xp * vq == xq * vp);
    assert(yp * vq == yq * vp);
    lemma_associate(xp, vq, e);
    lemma_associate(xq, vp, e);
    lemma_associate(yp, vq, e);
    lemma_associate(yq, vp, e);
}

/// A curve's point at `s` stands for the common form of any points of one
/// weight that stand for its control points.
proof fn lemma_bezier_common(c: Curve, q: Curve, s: Frac)
    requires
        c.wf(),
        q.wf(),
        one_weight(q),
        c.p0.same(q.p0) && c.p1.same(q.p1) && c.p2.same(q.p2) && c.p3.same(q.p3),
    ensures
        bezier_point(c, s).same(common_form(q, s)),
{
    let nc = normalized(c);
    lemma_normalized(c);
    lemma_bezier_normalized(c, s);
    lemma_same_symmetric(c.p0, nc.p0);
    lemma_same_symmetric(c.p1, nc.p1);
    lemma_same_symmetric(c.p2, nc.p2);
    lemma_same_symmetric(c.p3, nc.p3);
    lemma_same_trans(nc.p0, c.p0, q.p0);
    lemma_same_trans(nc.p1, c.p1, q.p1);
    lemma_same_trans(nc.p2, c.p2, q.p2);
    lemma_same_trans(nc.p3, c.p3, q.p3);
    lemma_common_form_congruent(nc, q, s);
}

/// The first half of a split at `t`, evaluated at `s`, is the curve at
/// `s·t`: the first half traces `[0, t]` of the curve.
pub proof fn lemma_first_half_follows(c: Curve, t: Frac, s: Frac)
    requires
        c.wf(),
        t.wf(),
        s.wf(),
    ensures
        bezier_point(split_curve(c, t).0, s).same(bezier_point(c, s.times(t))),
{
    let (f, _) = split_curve(c, t);
    let (nf, _) = normal_halves(c, t);
    let nc = normalized(c);
    let d = t.den;
    let w = nc.p0.w;
    lemma_split_normal(c, t);
    lemma_normalized(c);
    let g = Curve {
        p0: scaled(nf.p0, d * d * d),
        p1: scaled(nf.p1, d * d),
        p2: scaled(nf.p2, d),
        p3: nf.p3,
    };
    lemma_first_half_weights(w, d, s.den);
    lemma_positive_product(d, d);
    lemma_positive_product(d * d, d);
    lemma_positive_product(d * d * d, w);
    lemma_scaled_same(nf.p0, d * d * d);
    lemma_scaled_same(nf.p1, d * d);
    lemma_scaled_same(nf.p2, d);
    lemma_same_trans(f.p0, nf.p0, g.p0);
    lemma_same_trans(f.p1, nf.p1, g.p1);
    lemma_same_trans(f.p2, nf.p2, g.p2);
    lemma_split_wf(c, t);
    lemma_bezier_common(f, g, s);
    let st = s.times(t);
    lemma_positive_product(s.den, d);
    lemma_bezier_common(c, nc, st);
    lemma_blossom(nc.p0.x, nc.p1.x, nc.p2.x, nc.p3.x, t.num, d, s.num, s.den);
    lemma_blossom(nc.p0.y, nc.p1.y, nc.p2.y, nc.p3.y, t.num, d, s.num, s.den);
    assert(common_form(g, s) == common_form(nc, st));
    lemma_positive_product(s.den, s.den);
    lemma_positive_product(s.den * s.den, s.den);
    lemma_positive_product(g.p0.w, s.den * s.den * s.den);
    lemma_same_symmetric(bezier_point(c, st), common_form(nc, st));
    lemma_same_trans(bezier_point(f, s), common_form(g, s), bezier_point(c, st));
}

/// The second half of a split at `t`, evaluated at `s`, is the curve at
/// `t + s·(1 - t)`: the second half traces `[t, 1]` of the curve.
pub proof fn lemma_second_half_follows(c: Curve, t: Frac, s: Frac)
    requires
        c.wf(),
        t.wf(),
        s.wf(),
    ensures
        bezier_point(split_curve(c, t).1, s).same(bezier_point(c, t.advance(s))),
{
    let (_, h) = split_curve(c, t);
    let (_, nh) = normal_halves(c, t);
    let nc = normalized(c);
    let d = t.den;
    let w = nc.p0.w;
    lemma_split_normal(c, t);
    lemma_normalized(c);
    let g = Curve {
        p0: nh.p0,
        p1: scaled(nh.p1, d),
        p2: scaled(nh.p2, d * d),
        p3: scaled(nh.p3, d * d * d),
    };
    lemma_second_half_weights(w, d, s.den);
    lemma_positive_product(d, d);
    lemma_positive_product(d * d, d);
    lemma_positive_product(d * d * d, w);
    lemma_scaled_same(nh.p1, d);
    lemma_scaled_same(nh.p2, d * d);
    lemma_scaled_same(nh.p3, d * d * d);
    lemma_same_trans(h.p1, nh.p1, g.p1);
    lemma_same_trans(h.p2, nh.p2, g.p2);
    lemma_same_trans(h.p3, nh.p3, g.p3);
    lemma_split_wf(c, t);
    lemma_bezier_common(h, g, s);
    let ts = t.advance(s);
    lemma_positive_product(d, s.den);
    lemma_bezier_common(c, nc, ts);
    lemma_blossom_second(nc.p0.x, nc.p1.x, nc.p2.x, nc.p3.x, t.num, d, s.num, s.den);
    lemma_blossom_second(nc.p0.y, nc.p1.y, nc.p2.y, nc.p3.y, t.num, d, s.num, s.den);
    assert(common_form(g, s) == common_form(nc, ts));
    lemma_positive_product(s.den, s.den);
    lemma_positive_product(s.den * s.den, s.den);
    lemma_positive_product(g.p0.w, s.den * s.den * s.den);
    lemma_same_symmetric(bezier_point(c, ts), common_form(nc, ts));
    lemma_same_trans(bezier_point(h, s), common_form(g, s), bezier_point(c, ts));
}

} // verus!
