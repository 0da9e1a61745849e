//! Points on the integer plane and the circle overlap test.
use vstd::prelude::*;

verus! {

/// A position on the integer plane.
#[derive(Clone, Copy, Debug, PartialEq, Eq, Structural)]
pub struct Point {
    pub x: i32,
    pub y: i32,
}

/// The squared Euclidean distance between two points.
pub open spec fn dist_sq(p: Point, q: Point) -> int {
    (p.x - q.x) * (p.x - q.x) + (p.y - q.y) * (p.y - q.y)
}

/// Two circles with radii `r1 / scale` and `r2 / scale` overlap: the squared
/// distance between their centres is strictly less than the squared sum of
/// their radii. Circles that only touch do not overlap.
pub open spec fn collides(c1: Point, r1: int, c2: Point, r2: int, scale: int) -> bool {
    dist_sq(c1, c2) * (scale * scale) < (r1 + r2) * (r1 + r2)
}

impl Point {
    pub fn new(x: i32, y: i32) -> (r: Point)
        ensures
            r == (Point { x, y }),
    {
        Point { x, y }
    }

    /// The squared distance to `other`, which always fits in 128 bits.
    pub fn distance_squared(&self, other: &Point) -> (r: u128)
        ensures
            r == dist_sq(*self, *other),
    {
        let dx: i128 = self.x as i128 - other.x as i128;
        let dy: i128 = self.y as i128 - other.y as i128;
        assert(dx * dx <= 0x1_0000_0000 * 0x1_0000_0000 && dy * dy <= 0x1_0000_0000 * 0x1_0000_0000)
            by (nonlinear_arith)
            requires
                -0x1_0000_0000 <= dx <= 0x1_0000_0000,
                -0x1_0000_0000 <= dy <= 0x1_0000_0000,
        ;
        assert(dx * dx >= 0 && dy * dy >= 0) by (nonlinear_arith);
        let d: i128 = dx * dx + dy * dy;
        d as u128
    }
}

/// For `a >= 0`, `b > 0` and `s > 0`: `a * b < s` exactly when `a` is at most
/// the floor of `(s - 1) / b`.
proof fn lemma_mul_lt_iff_le_div(a: int, b: int, s: int)
    requires
        a >= 0,
        b > 0,
        s > 0,
    ensures
        a * b < s <==> a <= (s - 1) / b,
{
    let q = (s - 1) / b;
    let m = (s - 1) % b;
    assert(s - 1 == q * b + m && 0 <= m < b) by {
        vstd::arithmetic::div_mod::lemma_fundamental_div_mod(s - 1, b);
    }
    if a <= q {
        assert(a * b <= q * b) by (nonlinear_arith)
            requires
                a <= q,
                b > 0,
        ;
    }
    if a * b < s {
        assert(a <= q) by (nonlinear_arith)
            requires
                a * b < s,
                s - 1 == q * b + m,
                0 <= m < b,
                b > 0,
        ;
    }
}

/// Tests whether two circles overlap, each radius given in units of
/// `1 / scale`. With `scale == 1` the radii are plain lengths.
pub fn get_collision(c1: &Point, r1: u32, c2: &Point, r2: u32, scale: u32) -> (r: bool)
    requires
        scale > 0,
    ensures
        r == collides(*c1, r1 as int, *c2, r2 as int, scale as int),
{
    let d: u128 = c1.distance_squared(c2);
    let sum: u128 = r1 as u128 + r2 as u128;
    assert(sum * sum <= 0x2_0000_0000 * 0x2_0000_0000) by (nonlinear_arith)
        requires
            0 <= sum <= 0x2_0000_0000,
    ;
    let reach: u128 = sum * sum;
    assert(scale * scale <= 0x1_0000_0000 * 0x1_0000_0000) by (nonlinear_arith)
        requires
            0 <= scale <= 0x1_0000_0000,
    ;
    let unit: u128 = scale as u128 * scale as u128;
    proof {
        assert(unit > 0) by (nonlinear_arith)
            requires
                unit == scale * scale,
                scale > 0,
        ;
        assert(d >= 0);
    }
    if reach == 0 {
        proof {
            assert(d * unit >= 0) by (nonlinear_arith)
                requires
                    d >= 0,
                    unit > 0,
            ;
        }
        false
    } else {
        proof {
            lemma_mul_lt_iff_le_div(d as int, unit as int, reach as int);
        }
        d <= (reach - 1) / unit
    }
}

/// Two circles of radii `r1` and `r2` collide exactly when the squared
/// distance between their centres is below the squared sum of the radii;
/// circles that only touch, at any scale, do not collide.
pub proof fn lemma_collision_predicate(c1: Point, r1: nat, c2: Point, r2: nat, scale: nat)
    ensures
        collides(c1, r1 as int, c2, r2 as int, 1) <==> dist_sq(c1, c2) < (r1 + r2) * (r1 + r2),
        dist_sq(c1, c2) * (scale * scale) == (r1 + r2) * (r1 + r2) ==> !collides(
            c1,
            r1 as int,
            c2,
            r2 as int,
            scale as int,
        ),
{
    assert(dist_sq(c1, c2) * (1int * 1int) == dist_sq(c1, c2));
}

} // verus!
