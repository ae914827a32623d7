use vstd::prelude::*;

verus! {

/// Largest magnitude a coordinate may have. At this bound the difference of two
/// coordinates fits in 32 bits and the squared length of an edge cross product
/// fits in 128 bits.
pub const COORD_LIMIT: i32 = 1073741824;

/// A point (or vector) in world space, in fixed-point grid units.
///
/// The caller picks the grid (for example a thousandth of a world unit); all
/// lengths and areas of the library are then measured in that grid.
#[derive(Clone, Copy, Debug, PartialEq, Eq, Structural)]
pub struct Point3 {
    pub x: i32,
    pub y: i32,
    pub z: i32,
}

impl Point3 {
    /// Every coordinate lies within `COORD_LIMIT` of the origin.
    pub open spec fn in_range(self) -> bool {
        -COORD_LIMIT <= self.x <= COORD_LIMIT && -COORD_LIMIT <= self.y <= COORD_LIMIT
            && -COORD_LIMIT <= self.z <= COORD_LIMIT
    }

    pub fn new(x: i32, y: i32, z: i32) -> (r: Point3)
        ensures
            r == (Point3 { x, y, z }),
    {
        Point3 { x, y, z }
    }

    pub fn is_in_range(&self) -> (r: bool)
        ensures
            r == self.in_range(),
    {
        -COORD_LIMIT <= self.x && self.x <= COORD_LIMIT && -COORD_LIMIT <= self.y && self.y
            <= COORD_LIMIT && -COORD_LIMIT <= self.z && self.z <= COORD_LIMIT
    }
}

/// The cross product `(b - a) x (c - a)`; its length is twice the area of the
/// triangle `abc`.
pub open spec fn cross(a: Point3, b: Point3, c: Point3) -> (int, int, int) {
    let (ux, uy, uz) = (b.x - a.x, b.y - a.y, b.z - a.z);
    let (vx, vy, vz) = (c.x - a.x, c.y - a.y, c.z - a.z);
    (uy * vz - uz * vy, uz * vx - ux * vz, ux * vy - uy * vx)
}

/// Squared length of a vector.
pub open spec fn norm_sq(v: (int, int, int)) -> int {
    v.0 * v.0 + v.1 * v.1 + v.2 * v.2
}

/// `r` is the integer square root of `n`, rounded down.
pub open spec fn is_floor_sqrt(n: int, r: int) -> bool {
    0 <= r && r * r <= n && n < (r + 1) * (r + 1)
}

/// The square root of `n`, rounded down (for `n >= 0`).
pub open spec fn floor_sqrt(n: int) -> int {
    choose|r: int| #[trigger] is_floor_sqrt(n, r)
}

/// There is at most one rounded-down square root.
pub proof fn lemma_floor_sqrt_unique(n: int, r: int, s: int)
    requires
        is_floor_sqrt(n, r),
        is_floor_sqrt(n, s),
    ensures
        r == s,
{
    if r < s {
        assert((r + 1) * (r + 1) <= s * s) by (nonlinear_arith)
            requires
                0 <= r < s,
        ;
    } else if s < r {
        assert((s + 1) * (s + 1) <= r * r) by (nonlinear_arith)
            requires
                0 <= s < r,
        ;
    }
}

/// Every natural number has a rounded-down square root.
pub proof fn lemma_floor_sqrt_exists(n: int)
    requires
        0 <= n,
    ensures
        exists|r: int| #[trigger] is_floor_sqrt(n, r),
    decreases n,
{
    if n == 0 {
        assert(is_floor_sqrt(0, 0));
    } else {
        lemma_floor_sqrt_exists(n - 1);
        let r = choose|r: int| #[trigger] is_floor_sqrt(n - 1, r);
        if n < (r + 1) * (r + 1) {
            assert(is_floor_sqrt(n, r));
        } else {
            assert((r + 1) * (r + 1) < (r + 2) * (r + 2)) by (nonlinear_arith)
                requires
                    0 <= r,
            ;
            assert(is_floor_sqrt(n, r + 1));
        }
    }
}

/// `floor_sqrt` meets its defining bounds, and any root that meets them is it.
pub proof fn lemma_floor_sqrt(n: int)
    requires
        0 <= n,
    ensures
        is_floor_sqrt(n, floor_sqrt(n)),
        forall|r: int| #[trigger] is_floor_sqrt(n, r) ==> r == floor_sqrt(n),
{
    lemma_floor_sqrt_exists(n);
    assert forall|r: int| #[trigger] is_floor_sqrt(n, r) implies r == floor_sqrt(n) by {
        lemma_floor_sqrt_unique(n, r, floor_sqrt(n));
    }
}

/// Integer square root, rounded down, by bisection.
pub fn isqrt(n: u128) -> (r: u64)
    ensures
        r as int == floor_sqrt(n as int),
{
    let mut lo: u128 = 0;
    let mut hi: u128 = 0x1_0000_0000_0000_0000;
    assert(n < hi * hi);
    while hi - lo > 1
        invariant
            lo < hi <= 0x1_0000_0000_0000_0000,
            lo * lo <= n,
            n < hi * hi,
        decreases hi - lo,
    {
        let mid: u128 = lo + (hi - lo) / 2;
        assert(mid * mid < 0x1_0000_0000_0000_0000 * 0x1_0000_0000_0000_0000) by (nonlinear_arith)
            requires
                mid < 0x1_0000_0000_0000_0000,
        ;
        if mid * mid <= n {
            lo = mid;
        } else {
            hi = mid;
        }
    }
    proof {
        assert(hi == lo + 1);
        lemma_floor_sqrt(n as int);
        lemma_floor_sqrt_unique(n as int, lo as int, floor_sqrt(n as int));
    }
    lo as u64
}

/// Magnitude bound of a product, used to keep the cross product within range.
pub proof fn lemma_mul_abs_bound(a: int, b: int, m: int, k: int)
    requires
        -m <= a <= m,
        -k <= b <= k,
    ensures
        -(m * k) <= a * b <= m * k,
{
    assert(-(m * k) <= a * b <= m * k) by (nonlinear_arith)
        requires
            -m <= a <= m,
            -k <= b <= k,
    ;
}

/// The squared length of `(b - a) x (c - a)`, for points within range.
pub fn doubled_area_squared(a: Point3, b: Point3, c: Point3) -> (r: u128)
    requires
        a.in_range(),
        b.in_range(),
        c.in_range(),
    ensures
        r as int == norm_sq(cross(a, b, c)),
{
    let ux: i128 = b.x as i128 - a.x as i128;
    let uy: i128 = b.y as i128 - a.y as i128;
    let uz: i128 = b.z as i128 - a.z as i128;
    let vx: i128 = c.x as i128 - a.x as i128;
    let vy: i128 = c.y as i128 - a.y as i128;
    let vz: i128 = c.z as i128 - a.z as i128;
    let m: i128 = 0x8000_0000;
    proof {
        lemma_mul_abs_bound(uy as int, vz as int, m as int, m as int);
        lemma_mul_abs_bound(uz as int, vy as int, m as int, m as int);
        lemma_mul_abs_bound(uz as int, vx as int, m as int, m as int);
        lemma_mul_abs_bound(ux as int, vz as int, m as int, m as int);
        lemma_mul_abs_bound(ux as int, vy as int, m as int, m as int);
        lemma_mul_abs_bound(uy as int, vx as int, m as int, m as int);
    }
    let cx: i128 = uy * vz - uz * vy;
    let cy: i128 = uz * vx - ux * vz;
    let cz: i128 = ux * vy - uy * vx;
    let w: i128 = 0x1_0000_0000_0000_0000;
    proof {
        lemma_mul_abs_bound(cx as int, cx as int, w as int / 2, w as int / 2);
        lemma_mul_abs_bound(cy as int, cy as int, w as int / 2, w as int / 2);
        lemma_mul_abs_bound(cz as int, cz as int, w as int / 2, w as int / 2);
        assert(0 <= cx * cx) by (nonlinear_arith);
        assert(0 <= cy * cy) by (nonlinear_arith);
        assert(0 <= cz * cz) by (nonlinear_arith);
    }
    let sx: u128 = (cx * cx) as u128;
    let sy: u128 = (cy * cy) as u128;
    let sz: u128 = (cz * cz) as u128;
    sx + sy + sz
}

} // verus!
