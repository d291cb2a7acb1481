//! Fixed-point plane geometry.
//!
//! Every length and coordinate is a whole number of thousandths of a world
//! unit, held in an `i32`. Results that leave the `i32` range stick at its
//! ends, so every operation is total. A direction is a vector whose length is
//! one world unit (up to rounding), or the zero vector for "not moving".

use vstd::prelude::*;

verus! {

/// Thousandths in one world unit.
pub const UNIT: i32 = 1000;

/// Nanoseconds in one second; all elapsed times are whole nanoseconds.
pub const NANOS_PER_SECOND: u64 = 1_000_000_000;

/// A position or a direction in the plane.
#[derive(Clone, Copy, Debug, PartialEq, Eq, Structural)]
pub struct Vec2 {
    pub x: i32,
    pub y: i32,
}

/// `v` brought into the `i32` range.
pub open spec fn saturated(v: int) -> int {
    if v < i32::MIN {
        i32::MIN as int
    } else if v > i32::MAX {
        i32::MAX as int
    } else {
        v
    }
}

/// `a / b` rounded toward zero, for a positive `b`.
pub open spec fn div_toward_zero(a: int, b: int) -> int {
    if a >= 0 {
        a / b
    } else {
        -((-a) / b)
    }
}

/// Sub-units covered along one axis in `dt_nanos` nanoseconds, at `speed`
/// units per second, by a direction whose component on that axis is
/// `component` thousandths. Rounded toward zero.
pub open spec fn travel(component: int, speed: int, dt_nanos: int) -> int {
    div_toward_zero(component * speed * dt_nanos, NANOS_PER_SECOND as int)
}

/// `r` is the integer square root of `n`.
pub open spec fn is_floor_sqrt(n: int, r: int) -> bool {
    0 <= r && r * r <= n < (r + 1) * (r + 1)
}

/// The integer square root of `n`: the largest `r` with `r * r <= n`.
pub open spec fn floor_sqrt(n: int) -> int {
    choose|r: int| is_floor_sqrt(n, r)
}

/// The square of the distance between two points.
pub open spec fn dist_sq(a: Vec2, b: Vec2) -> int {
    (b.x - a.x) * (b.x - a.x) + (b.y - a.y) * (b.y - a.y)
}

/// The direction from `from` toward `to`: the difference of the two points
/// scaled to a length of one unit, each component rounded toward zero.
pub open spec fn unit_toward(from: Vec2, to: Vec2) -> Vec2 {
    let len = floor_sqrt(dist_sq(from, to));
    Vec2 {
        x: div_toward_zero((to.x - from.x) * UNIT, len) as i32,
        y: div_toward_zero((to.y - from.y) * UNIT, len) as i32,
    }
}

impl Vec2 {
    /// The zero vector.
    pub open spec fn zero() -> Vec2 {
        Vec2 { x: 0, y: 0 }
    }

    /// Where a point at `self` arrives after moving along `direction` for
    /// `dt_nanos` nanoseconds at `speed` units per second.
    pub open spec fn moved(self, direction: Vec2, speed: int, dt_nanos: int) -> Vec2 {
        Vec2 {
            x: saturated(self.x + travel(direction.x as int, speed, dt_nanos)) as i32,
            y: saturated(self.y + travel(direction.y as int, speed, dt_nanos)) as i32,
        }
    }

    /// `self` shifted by whole sub-units on each axis.
    pub open spec fn shifted(self, dx: int, dy: int) -> Vec2 {
        Vec2 { x: saturated(self.x + dx) as i32, y: saturated(self.y + dy) as i32 }
    }

    /// The vector with the given components.
    pub fn new(x: i32, y: i32) -> (v: Vec2)
        ensures
            v == (Vec2 { x, y }),
    {
        Vec2 { x, y }
    }

    /// The zero vector.
    pub fn origin() -> (v: Vec2)
        ensures
            v == Vec2::zero(),
    {
        Vec2 { x: 0, y: 0 }
    }

    /// Whether this is the zero vector.
    pub fn is_zero(&self) -> (b: bool)
        ensures
            b == (*self == Vec2::zero()),
    {
        self.x == 0 && self.y == 0
    }

    /// Shifts the point by `dx` and `dy` sub-units, sticking at the ends of
    /// the coordinate range.
    pub fn offset(&self, dx: i32, dy: i32) -> (v: Vec2)
        ensures
            v == self.shifted(dx as int, dy as int),
    {
        Vec2 {
            x: saturate(self.x as i64 + dx as i64),
            y: saturate(self.y as i64 + dy as i64),
        }
    }

    /// Moves the point along `direction` for `dt_nanos` nanoseconds at
    /// `speed` units per second.
    pub fn advance(&self, direction: Vec2, speed: u32, dt_nanos: u64) -> (v: Vec2)
        ensures
            v == self.moved(direction, speed as int, dt_nanos as int),
    {
        Vec2 {
            x: advance_axis(self.x, direction.x, speed, dt_nanos),
            y: advance_axis(self.y, direction.y, speed, dt_nanos),
        }
    }
}

/// Brings a wide value into the `i32` range.
pub fn saturate(v: i64) -> (r: i32)
    ensures
        r == saturated(v as int),
{
    if v < i32::MIN as i64 {
        i32::MIN
    } else if v > i32::MAX as i64 {
        i32::MAX
    } else {
        v as i32
    }
}

/// The absolute value of `c`, which always fits in a `u32`.
fn magnitude(c: i32) -> (m: u32)
    ensures
        m == if c >= 0 { c as int } else { -(c as int) },
{
    if c >= 0 {
        c as u32
    } else {
        (-(c as i64)) as u32
    }
}

proof fn lemma_product_bound(a: int, b: int, c: int, amax: int, bmax: int, cmax: int)
    requires
        0 <= a <= amax,
        0 <= b <= bmax,
        0 <= c <= cmax,
    ensures
        0 <= a * b <= amax * bmax,
        0 <= a * b * c <= amax * bmax * cmax,
{
    assert(0 <= a * b <= amax * bmax) by (nonlinear_arith)
        requires
            0 <= a <= amax,
            0 <= b <= bmax,
    ;
    let ab = a * b;
    let abmax = amax * bmax;
    assert(0 <= ab * c <= abmax * cmax) by (nonlinear_arith)
        requires
            0 <= ab <= abmax,
            0 <= c <= cmax,
    ;
}

/// One coordinate after moving for `dt_nanos` nanoseconds.
fn advance_axis(position: i32, component: i32, speed: u32, dt_nanos: u64) -> (r: i32)
    ensures
        r == saturated(position + travel(component as int, speed as int, dt_nanos as int)),
{
    let m: u32 = magnitude(component);
    proof {
        lemma_product_bound(
            m as int,
            speed as int,
            dt_nanos as int,
            0x8000_0000,
            0xffff_ffff,
            0xffff_ffff_ffff_ffff,
        );
        assert(0x8000_0000 * 0xffff_ffff * 0xffff_ffff_ffff_ffff
            < 0x1_0000_0000_0000_0000_0000_0000_0000_0000) by (nonlinear_arith);
        assert(0x8000_0000 * 0xffff_ffff < 0x1_0000_0000_0000_0000) by (nonlinear_arith);
    }
    let product: u128 = (m as u128) * (speed as u128) * (dt_nanos as u128);
    let covered: u128 = product / (NANOS_PER_SECOND as u128);
    proof {
        let p = component as int * speed as int * dt_nanos as int;
        if component >= 0 {
            assert(p == product as int) by (nonlinear_arith)
                requires
                    p == component as int * speed as int * dt_nanos as int,
                    product as int == (m as int) * (speed as int) * (dt_nanos as int),
                    m as int == component as int,
            ;
            assert(p >= 0);
            assert(travel(component as int, speed as int, dt_nanos as int) == covered as int);
        } else {
            assert(-p == product as int) by (nonlinear_arith)
                requires
                    p == component as int * speed as int * dt_nanos as int,
                    product as int == (m as int) * (speed as int) * (dt_nanos as int),
                    m as int == -(component as int),
            ;
            assert(p <= 0);
            if p == 0 {
                assert(product == 0);
                assert(covered == 0);
                assert(travel(component as int, speed as int, dt_nanos as int) == 0);
            } else {
                assert(travel(component as int, speed as int, dt_nanos as int) == -(covered
                    as int));
            }
        }
    }
    if covered > 0x1_0000_0000u128 {
        if component >= 0 {
            i32::MAX
        } else {
            i32::MIN
        }
    } else {
        let step: i64 = covered as i64;
        if component >= 0 {
            saturate(position as i64 + step)
        } else {
            saturate(position as i64 - step)
        }
    }
}

/// Two roots of one number are the same root.
pub proof fn lemma_floor_sqrt_unique(n: int, r1: int, r2: int)
    requires
        is_floor_sqrt(n, r1),
        is_floor_sqrt(n, r2),
    ensures
        r1 == r2,
{
    if r1 < r2 {
        assert((r1 + 1) * (r1 + 1) <= r2 * r2) by (nonlinear_arith)
            requires
                0 <= r1,
                r1 + 1 <= r2,
        ;
    } else if r2 < r1 {
        assert((r2 + 1) * (r2 + 1) <= r1 * r1) by (nonlinear_arith)
            requires
                0 <= r2,
                r2 + 1 <= r1,
        ;
    }
}

/// The integer square root of `n`.
pub fn int_sqrt(n: u128) -> (r: u64)
    ensures
        r == floor_sqrt(n as int),
        is_floor_sqrt(n as int, r as int),
{
    let mut lo: u128 = 0;
    let mut hi: u128 = 0x1_0000_0000_0000_0000;
    proof {
        assert(0x1_0000_0000_0000_0000int * 0x1_0000_0000_0000_0000int
            == 0x1_0000_0000_0000_0000_0000_0000_0000_0000int) by (nonlinear_arith);
    }
    while hi - lo > 1
        invariant
            0 <= lo < hi <= 0x1_0000_0000_0000_0000,
            lo * lo <= n < hi * hi,
        decreases hi - lo,
    {
        let mid: u128 = lo + (hi - lo) / 2;
        proof {
            assert(mid * mid <= 0xffff_ffff_ffff_ffff * 0xffff_ffff_ffff_ffff) by (nonlinear_arith)
                requires
                    0 <= mid <= 0xffff_ffff_ffff_ffff,
            ;
            assert(0xffff_ffff_ffff_ffffint * 0xffff_ffff_ffff_ffffint
                < 0x1_0000_0000_0000_0000_0000_0000_0000_0000int) by (nonlinear_arith);
        }
        let square: u128 = mid * mid;
        if square <= n {
            lo = mid;
        } else {
            hi = mid;
        }
    }
    proof {
        assert(hi == lo + 1);
        assert(is_floor_sqrt(n as int, lo as int));
        lemma_floor_sqrt_unique(n as int, lo as int, floor_sqrt(n as int));
    }
    lo as u64
}

/// The difference of two coordinates, as a sign and a magnitude.
fn span(from: i32, to: i32) -> (r: (bool, u64))
    ensures
        r.0 == (to < from),
        r.1 == if to < from { from - to } else { to - from },
        r.1 <= 0xffff_ffff,
{
    if to < from {
        (true, (from as i64 - to as i64) as u64)
    } else {
        (false, (to as i64 - from as i64) as u64)
    }
}

/// What the direction between two distinct points looks like: it is not the
/// zero vector, and neither component is longer than one unit.
pub proof fn lemma_unit_toward(from: Vec2, to: Vec2)
    requires
        from != to,
    ensures
        unit_toward(from, to) != Vec2::zero(),
        -UNIT <= unit_toward(from, to).x <= UNIT,
        -UNIT <= unit_toward(from, to).y <= UNIT,
        is_floor_sqrt(dist_sq(from, to), floor_sqrt(dist_sq(from, to))),
        floor_sqrt(dist_sq(from, to)) >= 1,
        -floor_sqrt(dist_sq(from, to)) <= to.x - from.x <= floor_sqrt(dist_sq(from, to)),
        -floor_sqrt(dist_sq(from, to)) <= to.y - from.y <= floor_sqrt(dist_sq(from, to)),
{
    let dx = to.x - from.x;
    let dy = to.y - from.y;
    let n = dist_sq(from, to);
    let ax = if dx >= 0 { dx } else { -dx };
    let ay = if dy >= 0 { dy } else { -dy };
    assert(ax * ax == dx * dx) by (nonlinear_arith)
        requires
            ax == dx || ax == -dx,
    ;
    assert(ay * ay == dy * dy) by (nonlinear_arith)
        requires
            ay == dy || ay == -dy,
    ;
    assert(n == ax * ax + ay * ay);
    assert(ax * ax >= 0 && ay * ay >= 0) by (nonlinear_arith);
    assert(n >= 1) by (nonlinear_arith)
        requires
            n == ax * ax + ay * ay,
            ax >= 0,
            ay >= 0,
            ax >= 1 || ay >= 1,
    ;
    lemma_floor_sqrt_exists(n);
    let len = floor_sqrt(n);
    assert(is_floor_sqrt(n, len));
    assert(len >= 1) by {
        if len == 0 {
            assert((len + 1) * (len + 1) == 1) by (nonlinear_arith)
                requires
                    len == 0,
            ;
        }
    }
    // neither component is longer than the whole
    assert(ax <= len) by (nonlinear_arith)
        requires
            ax >= 0,
            len >= 0,
            ax * ax <= n,
            n < (len + 1) * (len + 1),
    ;
    assert(ay <= len) by (nonlinear_arith)
        requires
            ay >= 0,
            len >= 0,
            ay * ay <= n,
            n < (len + 1) * (len + 1),
    ;
    lemma_scaled_ratio(ax, len);
    lemma_scaled_ratio(ay, len);
    // the longer component does not round to nothing
    let m = if ax >= ay { ax } else { ay };
    assert(len <= 2 * m) by (nonlinear_arith)
        requires
            len >= 0,
            m >= 0,
            len * len <= n,
            n == ax * ax + ay * ay,
            0 <= ax <= m,
            0 <= ay <= m,
    ;
    assert((m * UNIT) / len >= 1) by (nonlinear_arith)
        requires
            len >= 1,
            m * UNIT >= len,
    ;
    assert(dx * UNIT == if dx >= 0 { ax * UNIT } else { -(ax * UNIT) }) by (nonlinear_arith)
        requires
            ax == if dx >= 0 { dx } else { -dx },
    ;
    assert(dy * UNIT == if dy >= 0 { ay * UNIT } else { -(ay * UNIT) }) by (nonlinear_arith)
        requires
            ay == if dy >= 0 { dy } else { -dy },
    ;
    assert(ax * UNIT >= 0 && ay * UNIT >= 0) by (nonlinear_arith)
        requires
            ax >= 0,
            ay >= 0,
    ;
}

/// Whether `d` is about one unit long, as a direction between two points
/// whose distance rounds down to `len` sub-units, squared `n`, can be: no
/// longer than one unit stretched by the rounding of the distance, and so
/// little shorter that one sub-unit more on each component takes it past
/// one unit.
pub open spec fn about_unit_length(d: Vec2, n: int, len: int) -> bool {
    let x = if d.x >= 0 { d.x as int } else { -(d.x as int) };
    let y = if d.y >= 0 { d.y as int } else { -(d.y as int) };
    &&& (x * x + y * y) * (len * len) <= (UNIT * UNIT) * n
    &&& (x + 1) * (x + 1) + (y + 1) * (y + 1) > UNIT * UNIT
}

/// The direction between two distinct points is about one unit long.
pub proof fn lemma_unit_toward_length(from: Vec2, to: Vec2)
    requires
        from != to,
    ensures
        about_unit_length(
            unit_toward(from, to),
            dist_sq(from, to),
            floor_sqrt(dist_sq(from, to)),
        ),
{
    lemma_unit_toward(from, to);
    let d = unit_toward(from, to);
    let n = dist_sq(from, to);
    let len = floor_sqrt(n);
    let dx = to.x - from.x;
    let dy = to.y - from.y;
    let ax = if dx >= 0 { dx } else { -dx };
    let ay = if dy >= 0 { dy } else { -dy };
    let x = if d.x >= 0 { d.x as int } else { -(d.x as int) };
    let y = if d.y >= 0 { d.y as int } else { -(d.y as int) };
    assert(ax * ax == dx * dx) by (nonlinear_arith)
        requires
            ax == dx || ax == -dx,
    ;
    assert(ay * ay == dy * dy) by (nonlinear_arith)
        requires
            ay == dy || ay == -dy,
    ;
    assert(dx * UNIT == if dx >= 0 { ax * UNIT } else { -(ax * UNIT) }) by (nonlinear_arith)
        requires
            ax == if dx >= 0 { dx } else { -dx },
    ;
    assert(dy * UNIT == if dy >= 0 { ay * UNIT } else { -(ay * UNIT) }) by (nonlinear_arith)
        requires
            ay == if dy >= 0 { dy } else { -dy },
    ;
    assert(ax * UNIT >= 0 && ay * UNIT >= 0) by (nonlinear_arith)
        requires
            ax >= 0,
            ay >= 0,
    ;
    lemma_scaled_ratio(ax, len);
    lemma_scaled_ratio(ay, len);
    assert(x == (ax * UNIT) / len);
    assert(y == (ay * UNIT) / len);
    lemma_quotient_squares(ax * UNIT, len, x);
    lemma_quotient_squares(ay * UNIT, len, y);
    let m = UNIT * UNIT;
    assert((ax * UNIT) * (ax * UNIT) + (ay * UNIT) * (ay * UNIT) == m * n) by (nonlinear_arith)
        requires
            n == ax * ax + ay * ay,
            m == UNIT * UNIT,
    ;
    assert((x * x + y * y) * (len * len) == (x * len) * (x * len) + (y * len) * (y * len))
        by (nonlinear_arith);
    let wide = (x + 1) * (x + 1) + (y + 1) * (y + 1);
    assert(wide * (len * len) == ((x + 1) * len) * ((x + 1) * len) + ((y + 1) * len) * ((y + 1)
        * len)) by (nonlinear_arith)
        requires
            wide == (x + 1) * (x + 1) + (y + 1) * (y + 1),
    ;
    assert(wide > m) by (nonlinear_arith)
        requires
            wide * (len * len) > m * n,
            n >= len * len,
            len >= 1,
            m >= 0,
    ;
}

/// The square of a quotient, scaled back, brackets the square of what was
/// divided.
proof fn lemma_quotient_squares(a: int, b: int, q: int)
    requires
        a >= 0,
        b >= 1,
        q == a / b,
    ensures
        (q * b) * (q * b) <= a * a,
        ((q + 1) * b) * ((q + 1) * b) > a * a,
{
    assert(0 <= q * b <= a < (q + 1) * b) by (nonlinear_arith)
        requires
            a >= 0,
            b >= 1,
            q == a / b,
    ;
    let lo = q * b;
    let hi = (q + 1) * b;
    assert(lo * lo <= a * a) by (nonlinear_arith)
        requires
            0 <= lo <= a,
    ;
    assert(hi * hi > a * a) by (nonlinear_arith)
        requires
            0 <= a < hi,
    ;
}

/// A part of a whole, scaled to thousandths, is at most a thousand.
proof fn lemma_scaled_ratio(part: int, whole: int)
    requires
        0 <= part <= whole,
        whole >= 1,
    ensures
        0 <= (part * UNIT) / whole <= UNIT,
{
    assert(0 <= (part * UNIT) / whole <= UNIT) by (nonlinear_arith)
        requires
            0 <= part <= whole,
            whole >= 1,
    ;
}

/// Every natural number has an integer square root.
pub proof fn lemma_floor_sqrt_exists(n: int)
    requires
        n >= 0,
    ensures
        is_floor_sqrt(n, floor_sqrt(n)),
    decreases n,
{
    if n == 0 {
        assert(is_floor_sqrt(0, 0));
    } else {
        lemma_floor_sqrt_exists(n - 1);
        let r = floor_sqrt(n - 1);
        assert(is_floor_sqrt(n - 1, r));
        if n < (r + 1) * (r + 1) {
            assert(is_floor_sqrt(n, r));
        } else {
            assert((r + 2) * (r + 2) > (r + 1) * (r + 1)) by (nonlinear_arith)
                requires
                    r >= 0,
            ;
            assert(is_floor_sqrt(n, r + 1));
        }
    }
}

/// The unit direction from one point toward another, distinct one.
pub fn direction_to(from: Vec2, to: Vec2) -> (d: Vec2)
    requires
        from != to,
    ensures
        d == unit_toward(from, to),
        d != Vec2::zero(),
        -UNIT <= d.x <= UNIT,
        -UNIT <= d.y <= UNIT,
        about_unit_length(d, dist_sq(from, to), floor_sqrt(dist_sq(from, to))),
{
    let (neg_x, ax) = span(from.x, to.x);
    let (neg_y, ay) = span(from.y, to.y);
    proof {
        lemma_unit_toward(from, to);
        lemma_unit_toward_length(from, to);
        assert(ax * ax <= 0xffff_ffff * 0xffff_ffff) by (nonlinear_arith)
            requires
                0 <= ax <= 0xffff_ffff,
        ;
        assert(ay * ay <= 0xffff_ffff * 0xffff_ffff) by (nonlinear_arith)
            requires
                0 <= ay <= 0xffff_ffff,
        ;
        assert(0xffff_ffffint * 0xffff_ffffint < 0x1_0000_0000_0000_0000int) by (nonlinear_arith);
        assert(ax * ax == (to.x - from.x) * (to.x - from.x)) by (nonlinear_arith)
            requires
                ax == to.x - from.x || ax == -(to.x - from.x),
        ;
        assert(ay * ay == (to.y - from.y) * (to.y - from.y)) by (nonlinear_arith)
            requires
                ay == to.y - from.y || ay == -(to.y - from.y),
        ;
    }
    let n: u128 = (ax as u128) * (ax as u128) + (ay as u128) * (ay as u128);
    let len: u64 = int_sqrt(n);
    Vec2 { x: scaled_component(neg_x, ax, len), y: scaled_component(neg_y, ay, len) }
}

/// One component of a unit direction: `part` thousandths over `whole`, with
/// its sign put back.
fn scaled_component(negative: bool, part: u64, whole: u64) -> (c: i32)
    requires
        part <= whole,
        whole >= 1,
        part <= 0xffff_ffff,
    ensures
        c == div_toward_zero(if negative { -(part * UNIT) } else { part * UNIT }, whole as int),
        !negative ==> c == (part * UNIT) / (whole as int),
        negative ==> c == -((part * UNIT) / (whole as int)),
        -UNIT <= c <= UNIT,
{
    proof {
        lemma_scaled_ratio(part as int, whole as int);
        assert(0 <= part * UNIT <= 0xffff_ffff * 1000) by (nonlinear_arith)
            requires
                0 <= part <= 0xffff_ffff,
        ;
    }
    let ratio: u64 = (part * 1000) / whole;
    if negative {
        -(ratio as i32)
    } else {
        ratio as i32
    }
}

/// Whether two points are less than `radius` sub-units apart.
pub fn closer_than(a: Vec2, b: Vec2, radius: u32) -> (near: bool)
    ensures
        near == (dist_sq(a, b) < radius * radius),
{
    let (_, ax) = span(a.x, b.x);
    let (_, ay) = span(a.y, b.y);
    proof {
        assert(ax * ax == (b.x - a.x) * (b.x - a.x)) by (nonlinear_arith)
            requires
                ax == b.x - a.x || ax == -(b.x - a.x),
        ;
        assert(ay * ay == (b.y - a.y) * (b.y - a.y)) by (nonlinear_arith)
            requires
                ay == b.y - a.y || ay == -(b.y - a.y),
        ;
        assert(ax * ax <= 0xffff_ffff * 0xffff_ffff) by (nonlinear_arith)
            requires
                0 <= ax <= 0xffff_ffff,
        ;
        assert(ay * ay <= 0xffff_ffff * 0xffff_ffff) by (nonlinear_arith)
            requires
                0 <= ay <= 0xffff_ffff,
        ;
        assert(radius * radius <= 0xffff_ffff * 0xffff_ffff) by (nonlinear_arith)
            requires
                0 <= radius <= 0xffff_ffff,
        ;
        assert(0xffff_ffffint * 0xffff_ffffint < 0x1_0000_0000_0000_0000int) by (nonlinear_arith);
    }
    let d: u128 = (ax as u128) * (ax as u128) + (ay as u128) * (ay as u128);
    let r: u128 = (radius as u128) * (radius as u128);
    d < r
}

} // verus!
