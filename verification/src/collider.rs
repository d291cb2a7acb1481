//! Hit boxes: axis-aligned boxes and circles, and whether two of them touch.
//!
//! Both shapes are closed: their boundary belongs to them, so shapes that only
//! graze each other do touch.

use crate::vector::Vec2;
use vstd::prelude::*;

verus! {

/// An axis-aligned box, given by its centre and its half-extent on each axis.
/// A box with a negative half-extent holds no point.
#[derive(Clone, Copy, Debug, PartialEq, Eq, Structural)]
pub struct Aabb {
    pub center: Vec2,
    pub half: Vec2,
}

/// A circle, given by its centre and its radius.
#[derive(Clone, Copy, Debug, PartialEq, Eq, Structural)]
pub struct Circle {
    pub center: Vec2,
    pub radius: u32,
}

/// The point of the interval `[lo, hi]` nearest to `v`.
pub open spec fn nearest_in(v: int, lo: int, hi: int) -> int {
    if v < lo {
        lo
    } else if v > hi {
        hi
    } else {
        v
    }
}

impl Aabb {
    /// The left side.
    pub open spec fn min_x(self) -> int {
        self.center.x - self.half.x
    }

    /// The right side.
    pub open spec fn max_x(self) -> int {
        self.center.x + self.half.x
    }

    /// The bottom side.
    pub open spec fn min_y(self) -> int {
        self.center.y - self.half.y
    }

    /// The top side.
    pub open spec fn max_y(self) -> int {
        self.center.y + self.half.y
    }

    /// Whether the point `(x, y)` lies in the box.
    pub open spec fn contains(self, x: int, y: int) -> bool {
        self.min_x() <= x <= self.max_x() && self.min_y() <= y <= self.max_y()
    }

    /// Whether the two boxes share a point.
    pub open spec fn meets(self, other: Aabb) -> bool {
        exists|x: int, y: int| #[trigger] self.contains(x, y) && other.contains(x, y)
    }

    /// The box around `center` that reaches `half` to each side.
    pub fn new(center: Vec2, half: Vec2) -> (b: Aabb)
        ensures
            b == (Aabb { center, half }),
    {
        Aabb { center, half }
    }

    /// Whether the two boxes share a point.
    pub fn intersects(&self, other: &Aabb) -> (hit: bool)
        ensures
            hit == self.meets(*other),
    {
        let a_min_x: i64 = self.center.x as i64 - self.half.x as i64;
        let a_max_x: i64 = self.center.x as i64 + self.half.x as i64;
        let a_min_y: i64 = self.center.y as i64 - self.half.y as i64;
        let a_max_y: i64 = self.center.y as i64 + self.half.y as i64;
        let b_min_x: i64 = other.center.x as i64 - other.half.x as i64;
        let b_max_x: i64 = other.center.x as i64 + other.half.x as i64;
        let b_min_y: i64 = other.center.y as i64 - other.half.y as i64;
        let b_max_y: i64 = other.center.y as i64 + other.half.y as i64;
        let x_overlaps: bool = a_min_x <= b_max_x && b_min_x <= a_max_x && a_min_x <= a_max_x
            && b_min_x <= b_max_x;
        let y_overlaps: bool = a_min_y <= b_max_y && b_min_y <= a_max_y && a_min_y <= a_max_y
            && b_min_y <= b_max_y;
        proof {
            if x_overlaps && y_overlaps {
                let x = if a_min_x >= b_min_x { a_min_x as int } else { b_min_x as int };
                let y = if a_min_y >= b_min_y { a_min_y as int } else { b_min_y as int };
                assert(self.contains(x, y) && other.contains(x, y));
            }
        }
        x_overlaps && y_overlaps
    }
}

impl Circle {
    /// Whether the point `(x, y)` lies in the circle.
    pub open spec fn contains(self, x: int, y: int) -> bool {
        (x - self.center.x) * (x - self.center.x) + (y - self.center.y) * (y - self.center.y)
            <= self.radius * self.radius
    }

    /// Whether the circle and the box share a point.
    pub open spec fn meets(self, b: Aabb) -> bool {
        exists|x: int, y: int| #[trigger] b.contains(x, y) && self.contains(x, y)
    }

    /// The clamped-point test: the point of the box nearest to the centre
    /// lies in the circle.
    pub open spec fn nearest_point_inside(self, b: Aabb) -> bool {
        &&& b.half.x >= 0
        &&& b.half.y >= 0
        &&& self.contains(
            nearest_in(self.center.x as int, b.min_x(), b.max_x()),
            nearest_in(self.center.y as int, b.min_y(), b.max_y()),
        )
    }

    /// The circle around `center` with the given radius.
    pub fn new(center: Vec2, radius: u32) -> (c: Circle)
        ensures
            c == (Circle { center, radius }),
    {
        Circle { center, radius }
    }

    /// A circle and a box share a point exactly when the point of the box
    /// nearest to the circle's centre is no farther from it than the radius.
    pub proof fn lemma_meets_is_nearest_point(self, b: Aabb)
        ensures
            self.meets(b) == self.nearest_point_inside(b),
    {
        let cx = self.center.x as int;
        let cy = self.center.y as int;
        let qx = nearest_in(cx, b.min_x(), b.max_x());
        let qy = nearest_in(cy, b.min_y(), b.max_y());
        if self.nearest_point_inside(b) {
            assert(b.contains(qx, qy) && self.contains(qx, qy));
        }
        if self.meets(b) {
            let (x, y) = choose|x: int, y: int| #[trigger] b.contains(x, y) && self.contains(x, y);
            assert(b.contains(x, y) && self.contains(x, y));
            lemma_nearest_is_nearest(cx, b.min_x(), b.max_x(), x);
            lemma_nearest_is_nearest(cy, b.min_y(), b.max_y(), y);
        }
    }

    /// Whether the circle and the box share a point.
    pub fn intersects(&self, b: &Aabb) -> (hit: bool)
        ensures
            hit == self.meets(*b),
            hit == self.nearest_point_inside(*b),
    {
        proof {
            self.lemma_meets_is_nearest_point(*b);
        }
        if b.half.x < 0 || b.half.y < 0 {
            return false;
        }
        let dx: u64 = gap(self.center.x, b.center.x, b.half.x);
        let dy: u64 = gap(self.center.y, b.center.y, b.half.y);
        proof {
            assert(dx * dx <= 0x2_0000_0000 * 0x2_0000_0000) by (nonlinear_arith)
                requires
                    0 <= dx <= 0x2_0000_0000,
            ;
            assert(dy * dy <= 0x2_0000_0000 * 0x2_0000_0000) by (nonlinear_arith)
                requires
                    0 <= dy <= 0x2_0000_0000,
            ;
            assert(self.radius * self.radius <= 0xffff_ffff * 0xffff_ffff) by (nonlinear_arith)
                requires
                    0 <= self.radius <= 0xffff_ffff,
            ;
            assert(0x2_0000_0000int * 0x2_0000_0000int == 0x4_0000_0000_0000_0000int)
                by (nonlinear_arith);
            assert(0xffff_ffffint * 0xffff_ffffint < 0x1_0000_0000_0000_0000int)
                by (nonlinear_arith);
            let qx = nearest_in(self.center.x as int, b.min_x(), b.max_x());
            let qy = nearest_in(self.center.y as int, b.min_y(), b.max_y());
            assert(dx * dx == (qx - self.center.x) * (qx - self.center.x)) by (nonlinear_arith)
                requires
                    dx == qx - self.center.x || dx == self.center.x - qx,
            ;
            assert(dy * dy == (qy - self.center.y) * (qy - self.center.y)) by (nonlinear_arith)
                requires
                    dy == qy - self.center.y || dy == self.center.y - qy,
            ;
        }
        let d: u128 = (dx as u128) * (dx as u128) + (dy as u128) * (dy as u128);
        let r: u128 = (self.radius as u128) * (self.radius as u128);
        d <= r
    }
}

/// No point of `[lo, hi]` is nearer to `v` than `nearest_in(v, lo, hi)`.
proof fn lemma_nearest_is_nearest(v: int, lo: int, hi: int, p: int)
    requires
        lo <= p <= hi,
    ensures
        (nearest_in(v, lo, hi) - v) * (nearest_in(v, lo, hi) - v) <= (p - v) * (p - v),
{
    let q = nearest_in(v, lo, hi);
    let a = if q >= v { q - v } else { v - q };
    let b = if p >= v { p - v } else { v - p };
    assert(0 <= a <= b);
    assert(a * a <= b * b) by (nonlinear_arith)
        requires
            0 <= a <= b,
    ;
    assert(a * a == (q - v) * (q - v)) by (nonlinear_arith)
        requires
            a == q - v || a == v - q,
    ;
    assert(b * b == (p - v) * (p - v)) by (nonlinear_arith)
        requires
            b == p - v || b == v - p,
    ;
}

/// How far `v` lies outside the interval around `center`; nothing if inside.
fn gap(v: i32, center: i32, half: i32) -> (d: u64)
    requires
        half >= 0,
    ensures
        d <= 0x2_0000_0000,
        d == nearest_in(v as int, center - half, center + half) - v || d == v - nearest_in(
            v as int,
            center - half,
            center + half,
        ),
{
    let lo: i64 = center as i64 - half as i64;
    let hi: i64 = center as i64 + half as i64;
    let wide: i64 = v as i64;
    if wide < lo {
        (lo - wide) as u64
    } else if wide > hi {
        (wide - hi) as u64
    } else {
        0
    }
}

} // verus!
