//! Identities of integer arithmetic used by the proofs about points and
//! curves.
use vstd::prelude::*;

verus! {

pub proof fn lemma_mul_swap(k: int, x: int, w: int)
    by (nonlinear_arith)
    ensures
        (k * x) * w == x * (k * w),
{
}

pub proof fn lemma_three(a: int, b: int, c: int)
    by (nonlinear_arith)
    ensures
        a * b * c == (b * c) * a,
        a * b * c == (a * c) * b,
{
}

pub proof fn lemma_four(k: int, x: int, a: int, b: int, c: int)
    by (nonlinear_arith)
    ensures
        k * x * (a * b * c) == (k * (a * b * c)) * x,
        x * a * b * c * k == (k * (a * b * c)) * x,
        a * b * c * x * k == (k * (a * b * c)) * x,
{
}

pub proof fn lemma_zero_product(a: int, b: int, c: int)
    by (nonlinear_arith)
    requires
        a == 0,
    ensures
        a * b * c == 0,
{
}

pub proof fn lemma_monomial(p: int, q: int, k: int, r: int, s: int, d: int)
    by (nonlinear_arith)
    ensures
        p * q * k * (r * s * d) == (p * r) * (q * k * s * d),
{
}

pub proof fn lemma_monomial_swapped(p: int, q: int, k: int, r: int, s: int, d: int)
    by (nonlinear_arith)
    ensures
        p * q * k * (r * s * d) == (p * s) * (r * k * q * d),
{
}

pub proof fn lemma_cross_term(ax: int, ax2: int, aw: int, aw2: int, k: int, bw: int, bw2: int, d: int)
    requires
        ax * aw2 == ax2 * aw,
    ensures
        ax * bw * k * (aw2 * bw2 * d) == ax2 * bw2 * k * (aw * bw * d),
{
    lemma_monomial(ax, bw, k, aw2, bw2, d);
    lemma_monomial(ax2, bw2, k, aw, bw, d);
    lemma_commute_four(bw, k, bw2, d);
}

pub proof fn lemma_commute_four(a: int, b: int, c: int, d: int)
    by (nonlinear_arith)
    ensures
        a * b * c * d == c * b * a * d,
{
}

pub proof fn lemma_cross_term_swapped(bx: int, bx2: int, bw: int, bw2: int, k: int, aw: int, aw2: int, d: int)
    requires
        bx * bw2 == bx2 * bw,
    ensures
        bx * aw * k * (aw2 * bw2 * d) == bx2 * aw2 * k * (aw * bw * d),
{
    lemma_monomial_swapped(bx, aw, k, aw2, bw2, d);
    lemma_monomial_swapped(bx2, aw2, k, aw, bw, d);
    lemma_commute_four(aw2, k, aw, d);
}

pub proof fn lemma_factor_weight(ax: int, bx: int, w: int, u: int, n: int)
    by (nonlinear_arith)
    ensures
        ax * w * u + bx * w * n == w * (ax * u + bx * n),
{
}

pub proof fn lemma_distribute_left(b: int, p: int, q: int)
    by (nonlinear_arith)
    ensures
        b * (p + q) == b * p + b * q,
{
}

pub proof fn lemma_expand_pair(a: int, b: int, p: int, q: int, u: int)
    ensures
        (a * p + b * q) * u == a * (p * u) + b * (q * u),
{
    lemma_distribute(a * p, b * q, u);
    lemma_associate(a, p, u);
    lemma_associate(b, q, u);
}

pub proof fn lemma_expand_triple(a: int, b: int, c: int, p: int, q: int, r: int, u: int)
    ensures
        (a * p + b * q + c * r) * u == a * (p * u) + b * (q * u) + c * (r * u),
{
    lemma_distribute(a * p + b * q, c * r, u);
    lemma_expand_pair(a, b, p, q, u);
    lemma_associate(c, r, u);
}

pub proof fn lemma_bernstein_coefficients(u: int, n: int)
    by (nonlinear_arith)
    ensures
        (u * u) * u == u * u * u,
        (n * u + u * n) * u + (u * u) * n == 3 * (u * u) * n,
        (n * n) * u + (n * u + u * n) * n == 3 * u * (n * n),
        (n * n) * n == n * n * n,
{
}

/// De Casteljau's three rounds of interpolation multiply out to the
/// Bernstein weights.
pub proof fn lemma_de_casteljau_poly(a: int, b: int, c: int, d: int, u: int, n: int)
    ensures
        ((a * u + b * n) * u + (b * u + c * n) * n) * u + ((b * u + c * n) * u + (c * u + d * n)
            * n) * n == a * (u * u * u) + b * (3 * (u * u) * n) + c * (3 * u * (n * n)) + d * (n
            * n * n),
{
    let (e0, e1, e2) = (u * u, n * u + u * n, n * n);
    // second round
    lemma_expand_pair(a, b, u, n, u);
    lemma_expand_pair(b, c, u, n, n);
    lemma_distribute_left(b, n * u, u * n);
    lemma_expand_pair(b, c, u, n, u);
    lemma_expand_pair(c, d, u, n, n);
    lemma_distribute_left(c, n * u, u * n);
    assert((a * u + b * n) * u + (b * u + c * n) * n == a * e0 + b * e1 + c * e2);
    assert((b * u + c * n) * u + (c * u + d * n) * n == b * e0 + c * e1 + d * e2);
    // third round
    lemma_expand_triple(a, b, c, e0, e1, e2, u);
    lemma_expand_triple(b, c, d, e0, e1, e2, n);
    lemma_distribute_left(b, e1 * u, e0 * n);
    lemma_distribute_left(c, e2 * u, e1 * n);
    lemma_bernstein_coefficients(u, n);
}

pub proof fn lemma_positive_product(a: int, b: int)
    by (nonlinear_arith)
    requires
        a > 0,
        b > 0,
    ensures
        a * b > 0,
{
}

pub proof fn lemma_common_weight(w0: int, w1: int, w2: int, w3: int)
    by (nonlinear_arith)
    ensures
        (w1 * w2 * w3) * w0 == w0 * w1 * w2 * w3,
        (w0 * w2 * w3) * w1 == w0 * w1 * w2 * w3,
        (w0 * w1 * w3) * w2 == w0 * w1 * w2 * w3,
        (w0 * w1 * w2) * w3 == w0 * w1 * w2 * w3,
{
}

pub proof fn lemma_de_casteljau_weight(w: int, d: int)
    by (nonlinear_arith)
    ensures
        w * d * d * d == w * (d * d * d),
{
}

pub proof fn lemma_lin2(k: int, a: int, b: int, x: int, y: int)
    ensures
        k * (a * x + b * y) == a * (k * x) + b * (k * y),
{
    lemma_distribute_left(k, a * x, b * y);
    lemma_swap_inner(k, a, x);
    lemma_swap_inner(k, b, y);
}

pub proof fn lemma_lin3(k: int, a: int, b: int, c: int, x: int, y: int, z: int)
    ensures
        k * (a * x + b * y + c * z) == a * (k * x) + b * (k * y) + c * (k * z),
{
    lemma_distribute_left(k, a * x + b * y, c * z);
    lemma_lin2(k, a, b, x, y);
    lemma_swap_inner(k, c, z);
}

pub proof fn lemma_lin4(k: int, a: int, b: int, c: int, d: int, x: int, y: int, z: int, q: int)
    ensures
        k * (a * x + b * y + c * z + d * q) == a * (k * x) + b * (k * y) + c * (k * z) + d * (k
            * q),
{
    lemma_distribute_left(k, a * x + b * y + c * z, d * q);
    lemma_lin3(k, a, b, c, x, y, z);
    lemma_swap_inner(k, d, q);
}

pub proof fn lemma_swap_inner(k: int, a: int, x: int)
    by (nonlinear_arith)
    ensures
        k * (a * x) == a * (k * x),
{
}

pub proof fn lemma_second_round(a: int, b: int, c: int, u: int, n: int)
    ensures
        (a * u + b * n) * u + (b * u + c * n) * n == a * (u * u) + b * (n * u + u * n) + c * (n
            * n),
{
    lemma_expand_pair(a, b, u, n, u);
    lemma_expand_pair(b, c, u, n, n);
    lemma_distribute_left(b, n * u, u * n);
}

pub proof fn lemma_cube_monomials(v: int, d: int, m: int, u: int, n: int)
    by (nonlinear_arith)
    ensures
        v * v * v * (d * d * d) == (v * d) * (v * d) * (v * d),
        3 * (v * v) * m * ((d * d) * u) == 3 * ((v * d) * (v * d)) * (m * u),
        3 * v * (m * m) * (d * (u * u)) == 3 * (v * d) * ((m * u) * (m * u)),
        m * m * m * (u * u * u) == (m * u) * (m * u) * (m * u),
{
}

pub proof fn lemma_square_monomials(v: int, d: int, m: int, u: int, n: int)
    by (nonlinear_arith)
    ensures
        3 * (v * v) * m * ((d * d) * n) == 3 * ((v * d) * (v * d)) * (m * n),
        3 * v * (m * m) * (d * (n * u + u * n)) == 6 * (v * d) * (m * u) * (m * n),
        m * m * m * (3 * (u * u) * n) == 3 * ((m * u) * (m * u)) * (m * n),
{
}

pub proof fn lemma_linear_monomials(v: int, d: int, m: int, u: int, n: int)
    by (nonlinear_arith)
    ensures
        3 * v * (m * m) * (d * (n * n)) == 3 * (v * d) * ((m * n) * (m * n)),
        m * m * m * (3 * u * (n * n)) == 3 * (m * u) * ((m * n) * (m * n)),
        m * m * m * (n * n * n) == (m * n) * (m * n) * (m * n),
{
}

pub proof fn lemma_binomials(p: int, q: int, r: int)
    by (nonlinear_arith)
    ensures
        p * p * p + 3 * (p * p) * q + 3 * p * (q * q) + q * q * q == (p + q) * (p + q) * (p + q),
        3 * (p * p) * r + 6 * p * q * r + 3 * (q * q) * r == 3 * ((p + q) * (p + q)) * r,
        3 * p * (r * r) + 3 * q * (r * r) == 3 * (p + q) * (r * r),
{
}

pub proof fn lemma_split_difference(e: int, m: int, d: int, n: int)
    by (nonlinear_arith)
    ensures
        e * d - m * n == (e - m) * d + m * (d - n),
{
}

/// The control values of the first half of a split, evaluated at `s`, give
/// the control values of the whole curve evaluated at `s·t`: the identity
/// behind subdivision, on one coordinate.
pub proof fn lemma_blossom(a: int, b: int, c: int, dd: int, n: int, d: int, m: int, e: int)
    ensures
        ({
            let u = d - n;
            let v = e - m;
            let k = e * d - m * n;
            let j = m * n;
            let s2 = (a * u + b * n) * u + (b * u + c * n) * n;
            let s3 = ((a * u + b * n) * u + (b * u + c * n) * n) * u + ((b * u + c * n) * u + (c
                * u + dd * n) * n) * n;
            v * v * v * ((d * d * d) * a) + 3 * (v * v) * m * ((d * d) * (a * u + b * n)) + 3 * v
                * (m * m) * (d * s2) + m * m * m * s3 == k * k * k * a + 3 * (k * k) * j * b + 3
                * k * (j * j) * c + j * j * j * dd
        }),
{
    let u = d - n;
    let v = e - m;
    let (k1, k2, k3) = (3 * (v * v) * m, 3 * v * (m * m), m * m * m);
    let (e0, e1, e2) = (u * u, n * u + u * n, n * n);
    let (c0, c1, c2, c3) = (u * u * u, 3 * (u * u) * n, 3 * u * (n * n), n * n * n);
    let (p, q, r) = (v * d, m * u, m * n);
    lemma_second_round(a, b, c, u, n);
    lemma_de_casteljau_poly(a, b, c, dd, u, n);
    lemma_pull(v * v * v, d * d * d, a);
    lemma_lin2(d * d, a, b, u, n);
    lemma_lin2(k1, a, b, (d * d) * u, (d * d) * n);
    lemma_lin3(d, a, b, c, e0, e1, e2);
    lemma_lin3(k2, a, b, c, d * e0, d * e1, d * e2);
    lemma_lin4(k3, a, b, c, dd, c0, c1, c2, c3);
    lemma_cube_monomials(v, d, m, u, n);
    lemma_square_monomials(v, d, m, u, n);
    lemma_linear_monomials(v, d, m, u, n);
    lemma_binomials(p, q, r);
    lemma_split_difference(e, m, d, n);
    let alpha = v * v * v * (d * d * d) + k1 * ((d * d) * u) + k2 * (d * e0) + k3 * c0;
    let beta = k1 * ((d * d) * n) + k2 * (d * e1) + k3 * c1;
    let gamma = k2 * (d * e2) + k3 * c2;
    lemma_distribute_left(a, v * v * v * (d * d * d) + k1 * ((d * d) * u) + k2 * (d * e0), k3 * c0);
    lemma_distribute_left(a, v * v * v * (d * d * d) + k1 * ((d * d) * u), k2 * (d * e0));
    lemma_distribute_left(a, v * v * v * (d * d * d), k1 * ((d * d) * u));
    lemma_distribute_left(b, k1 * ((d * d) * n) + k2 * (d * e1), k3 * c1);
    lemma_distribute_left(b, k1 * ((d * d) * n), k2 * (d * e1));
    lemma_distribute_left(c, k2 * (d * e2), k3 * c2);
    let s2 = (a * u + b * n) * u + (b * u + c * n) * n;
    let s3 = ((a * u + b * n) * u + (b * u + c * n) * n) * u + ((b * u + c * n) * u + (c * u + dd
        * n) * n) * n;
    assert(v * v * v * ((d * d * d) * a) == a * (v * v * v * (d * d * d)));
    assert(k1 * ((d * d) * (a * u + b * n)) == a * (k1 * ((d * d) * u)) + b * (k1 * ((d * d) * n)));
    assert(k2 * (d * s2) == a * (k2 * (d * e0)) + b * (k2 * (d * e1)) + c * (k2 * (d * e2)));
    assert(k3 * s3 == a * (k3 * c0) + b * (k3 * c1) + c * (k3 * c2) + dd * (k3 * c3));
    assert(alpha == (p + q) * (p + q) * (p + q));
    assert(beta == 3 * ((p + q) * (p + q)) * r);
    assert(gamma == 3 * (p + q) * (r * r));
    lemma_rotate_coefficients(a, b, c, dd, p + q, r);
}

pub proof fn lemma_pull(k: int, x: int, a: int)
    by (nonlinear_arith)
    ensures
        k * (x * a) == a * (k * x),
{
}

pub proof fn lemma_rotate_coefficients(a: int, b: int, c: int, dd: int, k: int, j: int)
    by (nonlinear_arith)
    ensures
        a * (k * k * k) == k * k * k * a,
        b * (3 * (k * k) * j) == 3 * (k * k) * j * b,
        c * (3 * k * (j * j)) == 3 * k * (j * j) * c,
        dd * (j * j * j) == j * j * j * dd,
{
}

pub proof fn lemma_rotate_left(r: int, x: int, k: int)
    by (nonlinear_arith)
    ensures
        k * (r * x) == k * x * r,
{
}

pub proof fn lemma_expand_quad(a: int, b: int, c: int, d: int, p: int, q: int, r: int, z: int, u: int)
    ensures
        (a * p + b * q + c * r + d * z) * u == a * (p * u) + b * (q * u) + c * (r * u) + d * (z
            * u),
{
    lemma_distribute(a * p + b * q + c * r, d * z, u);
    lemma_expand_triple(a, b, c, p, q, r, u);
    lemma_associate(d, z, u);
}

pub proof fn lemma_first_half_weights(w: int, d: int, e: int)
    by (nonlinear_arith)
    ensures
        (d * d) * (w * d) == (d * d * d) * w,
        d * (w * d * d) == (d * d * d) * w,
        w * d * d * d == (d * d * d) * w,
        (d * d * d) * w * (e * e * e) == w * ((e * d) * (e * d) * (e * d)),
{
}

pub proof fn lemma_second_cube_monomials(v: int, d: int, m: int, u: int, n: int)
    by (nonlinear_arith)
    ensures
        v * v * v * (u * u * u) == (v * u) * (v * u) * (v * u),
        v * v * v * (3 * (u * u) * n) == 3 * ((v * u) * (v * u)) * (v * n),
        3 * (v * v) * m * (d * (u * u)) == 3 * ((v * u) * (v * u)) * (m * d),
{
}

pub proof fn lemma_second_square_monomials(v: int, d: int, m: int, u: int, n: int)
    by (nonlinear_arith)
    ensures
        v * v * v * (3 * u * (n * n)) == 3 * (v * u) * ((v * n) * (v * n)),
        3 * (v * v) * m * (d * (n * u + u * n)) == 6 * (v * u) * (v * n) * (m * d),
        3 * v * (m * m) * ((d * d) * u) == 3 * (v * u) * ((m * d) * (m * d)),
{
}

pub proof fn lemma_second_linear_monomials(v: int, d: int, m: int, u: int, n: int)
    by (nonlinear_arith)
    ensures
        v * v * v * (n * n * n) == (v * n) * (v * n) * (v * n),
        3 * (v * v) * m * (d * (n * n)) == 3 * ((v * n) * (v * n)) * (m * d),
        3 * v * (m * m) * ((d * d) * n) == 3 * (v * n) * ((m * d) * (m * d)),
        m * m * m * (d * d * d) == (m * d) * (m * d) * (m * d),
{
}

pub proof fn lemma_second_binomials(p: int, x: int, y: int)
    by (nonlinear_arith)
    ensures
        3 * (p * p) * x + 3 * (p * p) * y == 3 * (p * p) * (x + y),
        3 * p * (x * x) + 6 * p * x * y + 3 * p * (y * y) == 3 * p * ((x + y) * (x + y)),
        x * x * x + 3 * (x * x) * y + 3 * x * (y * y) + y * y * y == (x + y) * (x + y) * (x + y),
{
}

pub proof fn lemma_advance_parts(e: int, m: int, d: int, n: int)
    by (nonlinear_arith)
    ensures
        n * e + m * (d - n) == (e - m) * n + m * d,
        d * e - (n * e + m * (d - n)) == (e - m) * (d - n),
{
}

/// The control values of the second half of a split, evaluated at `s`,
/// give the control values of the whole curve evaluated at `t + s·(1 - t)`,
/// on one coordinate.
pub proof fn lemma_blossom_second(a: int, b: int, c: int, dd: int, n: int, d: int, m: int, e: int)
    ensures
        ({
            let u = d - n;
            let v = e - m;
            let k = d * e - (n * e + m * (d - n));
            let j = n * e + m * (d - n);
            let s3 = ((a * u + b * n) * u + (b * u + c * n) * n) * u + ((b * u + c * n) * u + (c
                * u + dd * n) * n) * n;
            let s2 = (b * u + c * n) * u + (c * u + dd * n) * n;
            v * v * v * s3 + 3 * (v * v) * m * (d * s2) + 3 * v * (m * m) * ((d * d) * (c * u
                + dd * n)) + m * m * m * ((d * d * d) * dd) == k * k * k * a + 3 * (k * k) * j * b
                + 3 * k * (j * j) * c + j * j * j * dd
        }),
{
    let u = d - n;
    let v = e - m;
    let (k0, k1, k2, k3) = (v * v * v, 3 * (v * v) * m, 3 * v * (m * m), m * m * m);
    let (e0, e1, e2) = (u * u, n * u + u * n, n * n);
    let (c0, c1, c2, c3) = (u * u * u, 3 * (u * u) * n, 3 * u * (n * n), n * n * n);
    let (p, x, y) = (v * u, v * n, m * d);
    let s3 = ((a * u + b * n) * u + (b * u + c * n) * n) * u + ((b * u + c * n) * u + (c * u + dd
        * n) * n) * n;
    let s2 = (b * u + c * n) * u + (c * u + dd * n) * n;
    lemma_de_casteljau_poly(a, b, c, dd, u, n);
    lemma_second_round(b, c, dd, u, n);
    lemma_lin4(k0, a, b, c, dd, c0, c1, c2, c3);
    lemma_lin3(d, b, c, dd, e0, e1, e2);
    lemma_lin3(k1, b, c, dd, d * e0, d * e1, d * e2);
    lemma_lin2(d * d, c, dd, u, n);
    lemma_lin2(k2, c, dd, (d * d) * u, (d * d) * n);
    lemma_pull(k3, d * d * d, dd);
    assert(k0 * s3 == a * (k0 * c0) + b * (k0 * c1) + c * (k0 * c2) + dd * (k0 * c3));
    assert(k1 * (d * s2) == b * (k1 * (d * e0)) + c * (k1 * (d * e1)) + dd * (k1 * (d * e2)));
    assert(k2 * ((d * d) * (c * u + dd * n)) == c * (k2 * ((d * d) * u)) + dd * (k2 * ((d * d)
        * n)));
    assert(k3 * ((d * d * d) * dd) == dd * (k3 * (d * d * d)));
    let beta = k0 * c1 + k1 * (d * e0);
    let gamma = k0 * c2 + k1 * (d * e1) + k2 * ((d * d) * u);
    let delta = k0 * c3 + k1 * (d * e2) + k2 * ((d * d) * n) + k3 * (d * d * d);
    lemma_distribute_left(b, k0 * c1, k1 * (d * e0));
    lemma_distribute_left(c, k0 * c2 + k1 * (d * e1), k2 * ((d * d) * u));
    lemma_distribute_left(c, k0 * c2, k1 * (d * e1));
    lemma_distribute_left(dd, k0 * c3 + k1 * (d * e2) + k2 * ((d * d) * n), k3 * (d * d * d));
    lemma_distribute_left(dd, k0 * c3 + k1 * (d * e2), k2 * ((d * d) * n));
    lemma_distribute_left(dd, k0 * c3, k1 * (d * e2));
    lemma_second_cube_monomials(v, d, m, u, n);
    lemma_second_square_monomials(v, d, m, u, n);
    lemma_second_linear_monomials(v, d, m, u, n);
    lemma_second_binomials(p, x, y);
    lemma_advance_parts(e, m, d, n);
    assert(k0 * c0 == p * p * p);
    assert(beta == 3 * (p * p) * (x + y));
    assert(gamma == 3 * p * ((x + y) * (x + y)));
    assert(delta == (x + y) * (x + y) * (x + y));
    lemma_rotate_coefficients(a, b, c, dd, p, x + y);
}

pub proof fn lemma_second_half_weights(w: int, d: int, e: int)
    by (nonlinear_arith)
    ensures
        d * (w * d * d) == w * d * d * d,
        (d * d) * (w * d) == w * d * d * d,
        (d * d * d) * w == w * d * d * d,
        w * d * d * d * (e * e * e) == w * ((d * e) * (d * e) * (d * e)),
{
}

/// `(p + q)·r = p·r + q·r`.
pub proof fn lemma_distribute(p: int, q: int, r: int)
    by (nonlinear_arith)
    ensures
        (p + q) * r == p * r + q * r,
{
}

/// `(a·x)·y = a·(x·y)`.
pub proof fn lemma_associate(a: int, x: int, y: int)
    by (nonlinear_arith)
    ensures
        (a * x) * y == a * (x * y),
{
}

/// `((a·w1 + b·w0)·w2 + c·w0·w1)·w3 + d·w0·w1·w2`, multiplied out.
pub proof fn lemma_sum_of_four(a: int, b: int, c: int, d: int, w0: int, w1: int, w2: int, w3: int)
    ensures
        ((a * w1 + b * w0) * w2 + c * (w0 * w1)) * w3 + d * (w0 * w1 * w2) == a * (w1 * w2 * w3)
            + b * (w0 * w2 * w3) + c * (w0 * w1 * w3) + d * (w0 * w1 * w2),
{
    let e1 = (a * w1 + b * w0) * w2;
    lemma_distribute(a * w1, b * w0, w2);
    lemma_associate(a, w1, w2);
    lemma_associate(b, w0, w2);
    lemma_distribute(e1, c * (w0 * w1), w3);
    lemma_distribute(a * (w1 * w2), b * (w0 * w2), w3);
    lemma_associate(a, w1 * w2, w3);
    lemma_associate(b, w0 * w2, w3);
    lemma_associate(c, w0 * w1, w3);
}

} // verus!
