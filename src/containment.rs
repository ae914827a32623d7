use vstd::prelude::*;

use crate::geometry::{cross, floor_sqrt, lemma_floor_sqrt, norm_sq, Point3};
use crate::navmesh::Triangle;

verus! {

/// `s * p == wa * a + wb * b + wc * c` in every coordinate, with `s` the sum of
/// the weights: `p` is the affine combination of `a`, `b`, `c` with weights
/// `wa / s`, `wb / s`, `wc / s`.
pub open spec fn is_combination(p: Point3, t: Triangle, wa: int, wb: int, wc: int) -> bool {
    let s = wa + wb + wc;
    &&& s * p.x == wa * t.0.x + wb * t.1.x + wc * t.2.x
    &&& s * p.y == wa * t.0.y + wb * t.1.y + wc * t.2.y
    &&& s * p.z == wa * t.0.z + wb * t.1.z + wc * t.2.z
}

pub open spec fn abs(x: int) -> int {
    if x < 0 {
        -x
    } else {
        x
    }
}

/// Scaling both factors of each product by `s` scales a 2x2 determinant by `s * s`.
proof fn lemma_det_scale(s: int, x: int, y: int, z: int, w: int)
    ensures
        (s * x) * (s * y) - (s * z) * (s * w) == s * s * (x * y - z * w),
{
    assert((s * x) * (s * y) == s * s * (x * y)) by (nonlinear_arith);
    assert((s * z) * (s * w) == s * s * (z * w)) by (nonlinear_arith);
    assert(s * s * (x * y) - s * s * (z * w) == s * s * (x * y - z * w)) by (nonlinear_arith);
}

/// The 2x2 determinant is bilinear: for `au + bv` and `cu + dv` it is
/// `(ad - bc)` times that of `u` and `v`.
proof fn lemma_det_combination(a: int, b: int, c: int, d: int, u1: int, u2: int, v1: int, v2: int)
    ensures
        (a * u1 + b * v1) * (c * u2 + d * v2) - (a * u2 + b * v2) * (c * u1 + d * v1) == (a * d - b
            * c) * (u1 * v2 - u2 * v1),
{
    lemma_expand_product(a * u1, b * v1, c * u2, d * v2);
    lemma_expand_product(a * u2, b * v2, c * u1, d * v1);
    assert((a * u1) * (c * u2) == (a * c) * (u1 * u2)) by (nonlinear_arith);
    assert((a * u1) * (d * v2) == (a * d) * (u1 * v2)) by (nonlinear_arith);
    assert((b * v1) * (c * u2) == (b * c) * (u2 * v1)) by (nonlinear_arith);
    assert((b * v1) * (d * v2) == (b * d) * (v1 * v2)) by (nonlinear_arith);
    assert((a * u2) * (c * u1) == (a * c) * (u1 * u2)) by (nonlinear_arith);
    assert((a * u2) * (d * v1) == (a * d) * (u2 * v1)) by (nonlinear_arith);
    assert((b * v2) * (c * u1) == (b * c) * (u1 * v2)) by (nonlinear_arith);
    assert((b * v2) * (d * v1) == (b * d) * (v1 * v2)) by (nonlinear_arith);
    let (ad, bc, x, y) = (a * d, b * c, u1 * v2, u2 * v1);
    assert(ad * x - ad * y + bc * y - bc * x == (ad - bc) * (x - y)) by (nonlinear_arith);
}

proof fn lemma_expand_product(p: int, q: int, r: int, t: int)
    ensures
        (p + q) * (r + t) == p * r + p * t + q * r + q * t,
{
    assert((p + q) * (r + t) == p * r + p * t + q * r + q * t) by (nonlinear_arith);
}

/// For `s * p == wa * a + wb * b + wc * c` (one coordinate, `s` the weight sum),
/// `s * (a - p)` is `-wb * (b - a) - wc * (c - a)`.
proof fn lemma_scaled_offset(wa: int, wb: int, wc: int, a: int, b: int, c: int, p: int)
    requires
        (wa + wb + wc) * p == wa * a + wb * b + wc * c,
    ensures
        (wa + wb + wc) * (a - p) == -wb * (b - a) - wc * (c - a),
{
    let s = wa + wb + wc;
    assert(s * a == wa * a + wb * a + wc * a) by (nonlinear_arith)
        requires
            s == wa + wb + wc,
    ;
    assert(s * (a - p) == s * a - s * p) by (nonlinear_arith);
    assert(-wb * (b - a) - wc * (c - a) == wb * a - wb * b + wc * a - wc * c) by (nonlinear_arith);
}

/// One coordinate of the edge cross product of a sub-triangle, scaled by the
/// weight sum, is the opposite vertex's weight times that of the whole triangle.
proof fn lemma_cross_coordinate(
    wa: int,
    wb: int,
    wc: int,
    ay: int,
    az: int,
    by: int,
    bz: int,
    cy: int,
    cz: int,
    py: int,
    pz: int,
)
    requires
        wa + wb + wc > 0,
        (wa + wb + wc) * py == wa * ay + wb * by + wc * cy,
        (wa + wb + wc) * pz == wa * az + wb * bz + wc * cz,
    ensures
        (wa + wb + wc) * ((ay - py) * (bz - pz) - (az - pz) * (by - py)) == wc * ((by - ay) * (cz
            - az) - (bz - az) * (cy - ay)),
{
    let s = wa + wb + wc;
    let (uy, uz, vy, vz) = (by - ay, bz - az, cy - ay, cz - az);
    // s (a - p) = -wb u - wc v and s (b - p) = (wa + wc) u - wc v.
    lemma_scaled_offset(wa, wb, wc, ay, by, cy, py);
    lemma_scaled_offset(wa, wb, wc, az, bz, cz, pz);
    lemma_scaled_offset(wb, wc, wa, by, cy, ay, py);
    lemma_scaled_offset(wb, wc, wa, bz, cz, az, pz);
    assert(s * (ay - py) == -wb * uy + -wc * vy) by (nonlinear_arith)
        requires
            s * (ay - py) == -wb * (by - ay) - wc * (cy - ay),
            uy == by - ay,
            vy == cy - ay,
    ;
    assert(s * (az - pz) == -wb * uz + -wc * vz) by (nonlinear_arith)
        requires
            s * (az - pz) == -wb * (bz - az) - wc * (cz - az),
            uz == bz - az,
            vz == cz - az,
    ;
    assert(s * (by - py) == (wa + wc) * uy + -wc * vy) by (nonlinear_arith)
        requires
            s * (by - py) == -wc * (cy - by) - wa * (ay - by),
            uy == by - ay,
            vy == cy - ay,
    ;
    assert(s * (bz - pz) == (wa + wc) * uz + -wc * vz) by (nonlinear_arith)
        requires
            s * (bz - pz) == -wc * (cz - bz) - wa * (az - bz),
            uz == bz - az,
            vz == cz - az,
    ;
    lemma_det_scale(s, ay - py, bz - pz, az - pz, by - py);
    lemma_det_combination(-wb, -wc, wa + wc, -wc, uy, uz, vy, vz);
    let lhs = (ay - py) * (bz - pz) - (az - pz) * (by - py);
    let c0 = uy * vz - uz * vy;
    assert(s * s * lhs == (-wb * -wc - -wc * (wa + wc)) * c0);
    assert(-wb * -wc - -wc * (wa + wc) == s * wc) by (nonlinear_arith)
        requires
            s == wa + wb + wc,
    ;
    assert(s * (s * lhs) == s * (wc * c0)) by (nonlinear_arith)
        requires
            s * s * lhs == (s * wc) * c0,
    ;
    assert(s * lhs == wc * c0) by (nonlinear_arith)
        requires
            s > 0,
            s * (s * lhs) == s * (wc * c0),
    ;
}

/// The sub-triangle `p a b` has, scaled by the weight sum, the cross product of
/// the whole triangle times the weight of `c`; squared lengths follow.
proof fn lemma_sub_cross(p: Point3, a: Point3, b: Point3, c: Point3, wa: int, wb: int, wc: int)
    requires
        wa + wb + wc > 0,
        is_combination(p, Triangle(a, b, c), wa, wb, wc),
    ensures
        (wa + wb + wc) * (wa + wb + wc) * norm_sq(cross(p, a, b)) == wc * wc * norm_sq(
            cross(a, b, c),
        ),
{
    let s = wa + wb + wc;
    lemma_cross_coordinate(wa, wb, wc, a.y as int, a.z as int, b.y as int, b.z as int, c.y as int, c.z as int, p.y as int, p.z as int);
    lemma_cross_coordinate(wa, wb, wc, a.z as int, a.x as int, b.z as int, b.x as int, c.z as int, c.x as int, p.z as int, p.x as int);
    lemma_cross_coordinate(wa, wb, wc, a.x as int, a.y as int, b.x as int, b.y as int, c.x as int, c.y as int, p.x as int, p.y as int);
    let (e0, e1, e2) = cross(p, a, b);
    let (f0, f1, f2) = cross(a, b, c);
    assert(s * e0 == wc * f0);
    assert(s * e1 == wc * f1);
    assert(s * e2 == wc * f2);
    assert((s * e0) * (s * e0) == s * s * (e0 * e0)) by (nonlinear_arith);
    assert((s * e1) * (s * e1) == s * s * (e1 * e1)) by (nonlinear_arith);
    assert((s * e2) * (s * e2) == s * s * (e2 * e2)) by (nonlinear_arith);
    assert((wc * f0) * (wc * f0) == wc * wc * (f0 * f0)) by (nonlinear_arith);
    assert((wc * f1) * (wc * f1) == wc * wc * (f1 * f1)) by (nonlinear_arith);
    assert((wc * f2) * (wc * f2) == wc * wc * (f2 * f2)) by (nonlinear_arith);
    let ss = s * s;
    let ww = wc * wc;
    assert(ss * (e0 * e0 + e1 * e1 + e2 * e2) == ss * (e0 * e0) + ss * (e1 * e1) + ss * (e2 * e2))
        by (nonlinear_arith);
    assert(ww * (f0 * f0 + f1 * f1 + f2 * f2) == ww * (f0 * f0) + ww * (f1 * f1) + ww * (f2 * f2))
        by (nonlinear_arith);
}

/// The edge cross product does not change when the vertices are rotated.
pub proof fn lemma_cross_rotate(a: Point3, b: Point3, c: Point3)
    ensures
        cross(b, c, a) == cross(a, b, c),
{
    let (f0, f1, f2) = cross(a, b, c);
    let (g0, g1, g2) = cross(b, c, a);
    assert(g0 == f0) by (nonlinear_arith)
        requires
            g0 == (c.y - b.y) * (a.z - b.z) - (c.z - b.z) * (a.y - b.y),
            f0 == (b.y - a.y) * (c.z - a.z) - (b.z - a.z) * (c.y - a.y),
    ;
    assert(g1 == f1) by (nonlinear_arith)
        requires
            g1 == (c.z - b.z) * (a.x - b.x) - (c.x - b.x) * (a.z - b.z),
            f1 == (b.z - a.z) * (c.x - a.x) - (b.x - a.x) * (c.z - a.z),
    ;
    assert(g2 == f2) by (nonlinear_arith)
        requires
            g2 == (c.x - b.x) * (a.y - b.y) - (c.y - b.y) * (a.x - b.x),
            f2 == (b.x - a.x) * (c.y - a.y) - (b.y - a.y) * (c.x - a.x),
    ;
}

proof fn lemma_norm_sq_nonneg(v: (int, int, int))
    ensures
        norm_sq(v) >= 0,
{
    assert(v.0 * v.0 >= 0 && v.1 * v.1 >= 0 && v.2 * v.2 >= 0) by (nonlinear_arith);
}

/// If `s * s * n == w * w * n0` with `q`, `q0` the rounded-down square roots of
/// `n`, `n0`, then `|w| * q0 < s * (q + 1)`.
proof fn lemma_scaled_root_lower(n: int, n0: int, s: int, w: int)
    requires
        s > 0,
        n >= 0,
        n0 >= 0,
        s * s * n == w * w * n0,
    ensures
        abs(w) * floor_sqrt(n0) < s * (floor_sqrt(n) + 1),
{
    lemma_floor_sqrt(n);
    lemma_floor_sqrt(n0);
    let q = floor_sqrt(n);
    let q0 = floor_sqrt(n0);
    let aw = abs(w);
    assert(aw * aw == w * w) by (nonlinear_arith)
        requires
            aw == (if w < 0 {
                -w
            } else {
                w
            }),
    ;
    assert(aw * q0 < s * (q + 1)) by (nonlinear_arith)
        requires
            s > 0,
            aw >= 0,
            q0 >= 0,
            q >= 0,
            q0 * q0 <= n0,
            n < (q + 1) * (q + 1),
            s * s * n == aw * aw * n0,
    ;
}

/// If `s * s * n == w * w * n0` with `w >= 0`, then `(s * q)^2 <= (w^2) n0` for the
/// rounded-down root `q` of `n`.
proof fn lemma_scaled_root_upper(n: int, n0: int, s: int, w: int)
    requires
        s > 0,
        n >= 0,
        n0 >= 0,
        s * s * n == w * w * n0,
    ensures
        (s * floor_sqrt(n)) * (s * floor_sqrt(n)) <= w * w * n0,
{
    lemma_floor_sqrt(n);
    let q = floor_sqrt(n);
    assert((s * q) * (s * q) <= w * w * n0) by (nonlinear_arith)
        requires
            s > 0,
            q * q <= n,
            s * s * n == w * w * n0,
    ;
}

/// From `x^2 <= a^2 n` and `y^2 <= b^2 n` (all non-negative), `x y <= a b n`.
proof fn lemma_product_bound(x: int, y: int, a: int, b: int, n: int)
    requires
        x >= 0,
        y >= 0,
        a >= 0,
        b >= 0,
        n >= 0,
        x * x <= a * a * n,
        y * y <= b * b * n,
    ensures
        x * y <= a * b * n,
{
    assert((x * y) * (x * y) <= (a * b * n) * (a * b * n)) by (nonlinear_arith)
        requires
            x >= 0,
            y >= 0,
            x * x <= a * a * n,
            y * y <= b * b * n,
            n >= 0,
    ;
    assert(x * y <= a * b * n) by (nonlinear_arith)
        requires
            x * y >= 0,
            a * b * n >= 0,
            (x * y) * (x * y) <= (a * b * n) * (a * b * n),
    ;
}

/// Bounds on the rounded-down roots of the sub-triangles for a point given by
/// weights: their sum with three added exceeds the scaled root of the whole,
/// and, for non-negative weights, the sum does not exceed the root of the whole.
proof fn lemma_root_sums(t: Triangle, p: Point3, wa: int, wb: int, wc: int)
    requires
        wa + wb + wc > 0,
        is_combination(p, t, wa, wb, wc),
    ensures
        ({
            let s = wa + wb + wc;
            let q1 = floor_sqrt(norm_sq(cross(p, t.0, t.1)));
            let q2 = floor_sqrt(norm_sq(cross(p, t.1, t.2)));
            let q3 = floor_sqrt(norm_sq(cross(p, t.2, t.0)));
            let q0 = floor_sqrt(t.doubled_area_sq());
            &&& q0 >= 0 && q1 >= 0 && q2 >= 0 && q3 >= 0
            &&& (abs(wa) + abs(wb) + abs(wc)) * q0 < s * (q1 + q2 + q3 + 3)
            &&& (wa >= 0 && wb >= 0 && wc >= 0) ==> q1 + q2 + q3 <= q0
        }),
{
    let (a, b, c) = (t.0, t.1, t.2);
    let s = wa + wb + wc;
    let n1 = norm_sq(cross(p, a, b));
    let n2 = norm_sq(cross(p, b, c));
    let n3 = norm_sq(cross(p, c, a));
    let n0 = t.doubled_area_sq();
    lemma_norm_sq_nonneg(cross(p, a, b));
    lemma_norm_sq_nonneg(cross(p, b, c));
    lemma_norm_sq_nonneg(cross(p, c, a));
    lemma_norm_sq_nonneg(cross(a, b, c));
    // The same point, weighted against the rotated triangles.
    lemma_sub_cross(p, a, b, c, wa, wb, wc);
    lemma_sub_cross(p, b, c, a, wb, wc, wa);
    lemma_sub_cross(p, c, a, b, wc, wa, wb);
    lemma_cross_rotate(a, b, c);
    lemma_cross_rotate(b, c, a);
    assert(s * s * n1 == wc * wc * n0);
    assert(s * s * n2 == wa * wa * n0);
    assert(s * s * n3 == wb * wb * n0);
    lemma_floor_sqrt(n0);
    lemma_floor_sqrt(n1);
    lemma_floor_sqrt(n2);
    lemma_floor_sqrt(n3);
    let q0 = floor_sqrt(n0);
    let q1 = floor_sqrt(n1);
    let q2 = floor_sqrt(n2);
    let q3 = floor_sqrt(n3);
    lemma_scaled_root_lower(n1, n0, s, wc);
    lemma_scaled_root_lower(n2, n0, s, wa);
    lemma_scaled_root_lower(n3, n0, s, wb);
    assert((abs(wa) + abs(wb) + abs(wc)) * q0 == abs(wa) * q0 + abs(wb) * q0 + abs(wc) * q0)
        by (nonlinear_arith);
    assert(s * (q1 + q2 + q3 + 3) == s * (q1 + 1) + s * (q2 + 1) + s * (q3 + 1))
        by (nonlinear_arith);
    if wa >= 0 && wb >= 0 && wc >= 0 {
        lemma_scaled_root_upper(n1, n0, s, wc);
        lemma_scaled_root_upper(n2, n0, s, wa);
        lemma_scaled_root_upper(n3, n0, s, wb);
        let (x1, x2, x3) = (s * q1, s * q2, s * q3);
        assert(x1 >= 0 && x2 >= 0 && x3 >= 0) by (nonlinear_arith)
            requires
                s > 0,
                q1 >= 0,
                q2 >= 0,
                q3 >= 0,
                x1 == s * q1,
                x2 == s * q2,
                x3 == s * q3,
        ;
        lemma_product_bound(x1, x2, wc, wa, n0);
        lemma_product_bound(x2, x3, wa, wb, n0);
        lemma_product_bound(x3, x1, wb, wc, n0);
        let sum = q1 + q2 + q3;
        assert(s * sum == x1 + x2 + x3) by (nonlinear_arith)
            requires
                x1 == s * q1,
                x2 == s * q2,
                x3 == s * q3,
                sum == q1 + q2 + q3,
        ;
        assert((x1 + x2 + x3) * (x1 + x2 + x3) == x1 * x1 + x2 * x2 + x3 * x3 + 2 * (x1 * x2) + 2
            * (x2 * x3) + 2 * (x3 * x1)) by (nonlinear_arith);
        assert(wc * wc * n0 + wa * wa * n0 + wb * wb * n0 + 2 * (wc * wa * n0) + 2 * (wa * wb * n0)
            + 2 * (wb * wc * n0) == (wa + wb + wc) * (wa + wb + wc) * n0) by (nonlinear_arith);
        assert((s * sum) * (s * sum) <= s * s * n0);
        assert(sum * sum <= n0) by (nonlinear_arith)
            requires
                s > 0,
                (s * sum) * (s * sum) <= s * s * n0,
        ;
        if sum > q0 {
            assert((q0 + 1) * (q0 + 1) <= sum * sum) by (nonlinear_arith)
                requires
                    0 <= q0 < sum,
            ;
        }
    }
}

/// A point that is a convex combination of the vertices of a triangle with area
/// (non-negative weights `wa`, `wb`, `wc` with a positive sum) is contained in
/// it, for any tolerance of at least three: rounding the four areas down moves
/// the area sum by at most two.
pub proof fn lemma_convex_combination_contained(
    t: Triangle,
    p: Point3,
    wa: int,
    wb: int,
    wc: int,
    tolerance: int,
)
    requires
        !t.is_degenerate(),
        wa >= 0,
        wb >= 0,
        wc >= 0,
        wa + wb + wc > 0,
        is_combination(p, t, wa, wb, wc),
        tolerance >= 3,
    ensures
        t.holds(p, tolerance),
        -2 <= t.area_excess(p) <= 0,
{
    lemma_root_sums(t, p, wa, wb, wc);
    let s = wa + wb + wc;
    let q1 = floor_sqrt(norm_sq(cross(p, t.0, t.1)));
    let q2 = floor_sqrt(norm_sq(cross(p, t.1, t.2)));
    let q3 = floor_sqrt(norm_sq(cross(p, t.2, t.0)));
    let q0 = floor_sqrt(t.doubled_area_sq());
    assert(s * q0 < s * (q1 + q2 + q3 + 3));
    assert(q0 < q1 + q2 + q3 + 3) by (nonlinear_arith)
        requires
            s > 0,
            s * q0 < s * (q1 + q2 + q3 + 3),
    ;
}

/// A point on an edge of a triangle with area (between `a` and `b`, with
/// weights `wa`, `wb`) is contained in it, for any tolerance of at least three.
pub proof fn lemma_edge_point_contained(t: Triangle, p: Point3, wa: int, wb: int, tolerance: int)
    requires
        !t.is_degenerate(),
        wa >= 0,
        wb >= 0,
        wa + wb > 0,
        is_combination(p, t, wa, wb, 0),
        tolerance >= 3,
    ensures
        t.holds(p, tolerance),
{
    lemma_convex_combination_contained(t, p, wa, wb, 0, tolerance);
}

/// A point of the triangle's plane outside it, written with weights `wa`, `wb`,
/// `wc` (positive sum, some negative), is not contained once it lies far enough
/// out: once the weights' magnitudes exceed their sum by enough that this
/// excess times the area is at least the sum times `tolerance + 3`.
pub proof fn lemma_far_point_not_contained(
    t: Triangle,
    p: Point3,
    wa: int,
    wb: int,
    wc: int,
    tolerance: int,
)
    requires
        wa + wb + wc > 0,
        is_combination(p, t, wa, wb, wc),
        tolerance >= 0,
        (abs(wa) + abs(wb) + abs(wc) - (wa + wb + wc)) * t.spec_area() >= (wa + wb + wc) * (
        tolerance + 3),
    ensures
        !t.holds(p, tolerance),
        t.area_excess(p) > tolerance,
{
    lemma_root_sums(t, p, wa, wb, wc);
    let s = wa + wb + wc;
    let m = abs(wa) + abs(wb) + abs(wc);
    let q1 = floor_sqrt(norm_sq(cross(p, t.0, t.1)));
    let q2 = floor_sqrt(norm_sq(cross(p, t.1, t.2)));
    let q3 = floor_sqrt(norm_sq(cross(p, t.2, t.0)));
    let q0 = floor_sqrt(t.doubled_area_sq());
    let r = t.spec_area();
    let excess = t.area_excess(p);
    assert(2 * excess >= q1 + q2 + q3 - 3 - q0);
    assert(2 * r <= q0);
    assert(m - s >= 0);
    assert(m * q0 - s * q0 >= (m - s) * (2 * r)) by (nonlinear_arith)
        requires
            m - s >= 0,
            q0 >= 2 * r,
    ;
    assert(2 * s * excess > 2 * s * tolerance) by (nonlinear_arith)
        requires
            s > 0,
            2 * excess >= q1 + q2 + q3 - 3 - q0,
            m * q0 < s * (q1 + q2 + q3 + 3),
            m * q0 - s * q0 >= (m - s) * (2 * r),
            (m - s) * r >= s * (tolerance + 3),
    ;
    assert(excess > tolerance) by (nonlinear_arith)
        requires
            s > 0,
            2 * s * excess > 2 * s * tolerance,
    ;
}

/// Rotating a triangle's vertices does not change which points it contains.
pub proof fn lemma_contains_rotation_invariant(t: Triangle, p: Point3, tolerance: int)
    ensures
        Triangle(t.1, t.2, t.0).holds(p, tolerance) == t.holds(p, tolerance),
        Triangle(t.2, t.0, t.1).holds(p, tolerance) == t.holds(p, tolerance),
{
    lemma_cross_rotate(t.0, t.1, t.2);
    lemma_cross_rotate(t.1, t.2, t.0);
}

} // verus!
