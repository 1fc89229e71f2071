//! Fixed-point plane geometry: positions, arena bounds, clamping and headings.
use vstd::prelude::*;
use vstd::arithmetic::mul::{lemma_mul_inequality, lemma_mul_left_inequality};

verus! {

/// Thousandths in one whole unit: a heading of length one has this length.
pub const UNIT: i64 = 1000;

/// Largest half extent an arena may have, in thousandths of a pixel.
pub const MAX_EXTENT: i64 = 0x100_0000_0000;

/// Largest speed a body may be moved with, in thousandths of a pixel per second.
pub const MAX_SPEED: u128 = 0x2_0000_0000_0000_0000;

/// A point or a vector of the plane, in thousandths.
#[derive(Clone, Copy, Debug, PartialEq, Eq, Structural)]
pub struct Point {
    pub x: i64,
    pub y: i64,
}

impl Point {
    /// Both coordinates lie within `bound` of zero.
    pub open spec fn within(self, bound: int) -> bool {
        -bound <= self.x <= bound && -bound <= self.y <= bound
    }
}

/// The rectangle `[-half_width, half_width] x [-half_height, half_height]`
/// that every moving body is kept in.
#[derive(Clone, Copy, Debug, PartialEq, Eq, Structural)]
pub struct Arena {
    pub half_width: i64,
    pub half_height: i64,
}

impl Arena {
    pub open spec fn wf(self) -> bool {
        0 <= self.half_width <= MAX_EXTENT && 0 <= self.half_height <= MAX_EXTENT
    }

    pub open spec fn contains(self, p: Point) -> bool {
        -self.half_width <= p.x <= self.half_width && -self.half_height <= p.y
            <= self.half_height
    }

    /// The point `(x, y)` with each axis clamped into the arena.
    pub open spec fn clamp_spec(self, x: int, y: int) -> Point {
        Point {
            x: clamp_spec(x, -self.half_width, self.half_width as int) as i64,
            y: clamp_spec(y, -self.half_height, self.half_height as int) as i64,
        }
    }

    /// An arena with the given half extents, if both lie in `0..=MAX_EXTENT`.
    pub fn new(half_width: i64, half_height: i64) -> (r: Option<Arena>)
        ensures
            r is Some <==> (0 <= half_width <= MAX_EXTENT && 0 <= half_height <= MAX_EXTENT),
            r matches Some(a) ==> a.half_width == half_width && a.half_height == half_height,
    {
        if 0 <= half_width && half_width <= MAX_EXTENT && 0 <= half_height && half_height
            <= MAX_EXTENT {
            Some(Arena { half_width, half_height })
        } else {
            None
        }
    }

    /// Clamps each axis of `(x, y)` into the arena.
    pub fn clamp(&self, x: i128, y: i128) -> (r: Point)
        requires
            self.wf(),
        ensures
            r == self.clamp_spec(x as int, y as int),
            self.contains(r),
    {
        let hw = self.half_width as i128;
        let hh = self.half_height as i128;
        let cx: i128 = if x < -hw {
            -hw
        } else if x > hw {
            hw
        } else {
            x
        };
        let cy: i128 = if y < -hh {
            -hh
        } else if y > hh {
            hh
        } else {
            y
        };
        Point { x: cx as i64, y: cy as i64 }
    }
}

/// `a / d` rounded toward zero, as integer division does on machine integers.
pub open spec fn div_trunc(a: int, d: int) -> int {
    if a >= 0 {
        a / d
    } else {
        -((-a) / d)
    }
}

/// Length of `(dx, dy)` rounded down.
pub open spec fn norm(dx: int, dy: int) -> nat {
    floor_sqrt((dx * dx + dy * dy) as nat)
}

/// One axis of the heading along `(dx, dy)`: `c` is that axis of the vector,
/// scaled to thousandths of its length.
pub open spec fn heading_axis(c: int, dx: int, dy: int) -> int {
    div_trunc(c * (UNIT as int), norm(dx, dy) as int)
}

/// The heading along a nonzero vector `(dx, dy)`, in thousandths.
pub open spec fn heading_spec(dx: int, dy: int) -> Point {
    Point { x: heading_axis(dx, dx, dy) as i64, y: heading_axis(dy, dx, dy) as i64 }
}

/// How far a body moves along one axis: `c` thousandths of the heading, for
/// `dt_ms` milliseconds, at `speed` thousandths of a pixel per second.
pub open spec fn offset(c: int, dt_ms: int, speed: int) -> int {
    div_trunc(c * dt_ms * speed, 1_000_000)
}

/// Where a body at `pos` ends after moving along `dir` for `dt_ms` at `speed`,
/// clamped into `arena`.
pub open spec fn advance_spec(arena: Arena, pos: Point, dir: Point, dt_ms: int, speed: int) -> Point {
    arena.clamp_spec(pos.x + offset(dir.x as int, dt_ms, speed), pos.y + offset(dir.y as int, dt_ms, speed))
}

/// `v` limited to the closed interval `[lo, hi]`.
pub open spec fn clamp_spec(v: int, lo: int, hi: int) -> int {
    if v < lo {
        lo
    } else if v > hi {
        hi
    } else {
        v
    }
}

/// The largest `r` with `r * r <= n`.
pub open spec fn floor_sqrt(n: nat) -> nat
    decreases n,
{
    if n == 0 {
        0
    } else {
        let r = floor_sqrt((n - 1) as nat);
        if (r + 1) * (r + 1) <= n {
            r + 1
        } else {
            r
        }
    }
}

/// `floor_sqrt(n)` is the integer square root of `n`.
pub proof fn lemma_floor_sqrt_bounds(n: nat)
    ensures
        floor_sqrt(n) * floor_sqrt(n) <= n,
        n < (floor_sqrt(n) + 1) * (floor_sqrt(n) + 1),
    decreases n,
{
    if n == 0 {
        assert(floor_sqrt(0) == 0);
        let s = floor_sqrt(n);
        assert(n < (s + 1) * (s + 1)) by (nonlinear_arith)
            requires
                s == 0,
                n == 0,
        ;
    } else {
        lemma_floor_sqrt_bounds((n - 1) as nat);
        let r = floor_sqrt((n - 1) as nat);
        let s = floor_sqrt(n);
        if (r + 1) * (r + 1) <= n {
            assert(s == r + 1);
            assert(n < (r + 2) * (r + 2)) by (nonlinear_arith)
                requires
                    n - 1 < (r + 1) * (r + 1),
                    r >= 0,
            ;
            assert(s * s <= n && n < (s + 1) * (s + 1));
        } else {
            assert(s == r);
            assert(s * s <= n && n < (s + 1) * (s + 1));
        }
    }
}

/// Only `floor_sqrt(n)` lies between the squares around `n`.
pub proof fn lemma_floor_sqrt_unique(n: nat, r: nat)
    requires
        r * r <= n,
        n < (r + 1) * (r + 1),
    ensures
        floor_sqrt(n) == r,
{
    lemma_floor_sqrt_bounds(n);
    let s = floor_sqrt(n);
    if s < r {
        assert((s + 1) * (s + 1) <= r * r) by (nonlinear_arith)
            requires
                s + 1 <= r,
        ;
    } else if r < s {
        assert((r + 1) * (r + 1) <= s * s) by (nonlinear_arith)
            requires
                r + 1 <= s,
        ;
    }
}

/// Integer square root by bisection.
pub fn isqrt(n: u128) -> (r: u128)
    requires
        n < 0x1_0000_0000_0000_0000_0000_0000_0000,
    ensures
        r == floor_sqrt(n as nat),
{
    let mut lo: u128 = 0;
    let mut hi: u128 = 0x1_0000_0000_0000_0000;
    assert(n < hi * hi) by (nonlinear_arith)
        requires
            n < 0x1_0000_0000_0000_0000_0000_0000_0000,
            hi == 0x1_0000_0000_0000_0000,
    ;
    while lo + 1 < hi
        invariant
            lo < hi <= 0x1_0000_0000_0000_0000,
            lo * lo <= n,
            n < hi * hi,
        decreases hi - lo,
    {
        let mid: u128 = lo + (hi - lo) / 2;
        proof {
            let m: int = mid as int;
            let b: int = 0xFFFF_FFFF_FFFF_FFFF;
            lemma_mul_inequality(m, b, m);
            lemma_mul_left_inequality(b, m, b);
            assert(m * m <= b * b);
        }
        if mid * mid <= n {
            lo = mid;
        } else {
            hi = mid;
        }
    }
    proof {
        lemma_floor_sqrt_unique(n as nat, lo as nat);
    }
    lo
}

/// Rounding toward zero keeps the sign and loses less than one divisor.
proof fn lemma_div_trunc_error(a: int, d: int)
    requires
        d > 0,
    ensures
        a * div_trunc(a, d) >= 0,
        -d < a - div_trunc(a, d) * d < d,
{
    if a >= 0 {
        assert(0 <= a - (a / d) * d < d && a / d >= 0) by (nonlinear_arith)
            requires
                a >= 0,
                d > 0,
        ;
        assert(a * (a / d) >= 0) by (nonlinear_arith)
            requires
                a >= 0,
                a / d >= 0,
        ;
    } else {
        let b = -a;
        assert(0 <= b - (b / d) * d < d && b / d >= 0) by (nonlinear_arith)
            requires
                b > 0,
                d > 0,
        ;
        assert(a * (-(b / d)) >= 0) by (nonlinear_arith)
            requires
                a < 0,
                b / d >= 0,
        ;
        assert(a - (-(b / d)) * d == -(b - (b / d) * d)) by (nonlinear_arith)
            requires
                b == -a,
        ;
    }
}

/// `h` points along `(dx, dy)`: each axis has the vector's sign (or is zero)
/// and is that axis of the vector, scaled to thousandths of the vector's
/// rounded-down length, with an error under one thousandth.
pub open spec fn faces(h: Point, dx: int, dy: int) -> bool {
    let len = norm(dx, dy) as int;
    &&& len > 0
    &&& h.x * dx >= 0
    &&& h.y * dy >= 0
    &&& -len < dx * UNIT - h.x * len < len
    &&& -len < dy * UNIT - h.y * len < len
}

/// The heading along any nonzero vector points along that vector.
pub proof fn lemma_heading_faces(dx: int, dy: int)
    requires
        dx != 0 || dy != 0,
        -2 * MAX_EXTENT <= dx <= 2 * MAX_EXTENT,
        -2 * MAX_EXTENT <= dy <= 2 * MAX_EXTENT,
    ensures
        faces(heading_spec(dx, dy), dx, dy),
{
    let len = norm(dx, dy) as int;
    lemma_axis_within_norm(dx, dy);
    assert(len > 0);
    lemma_scaled_quotient_bound(dx, len);
    lemma_scaled_quotient_bound(dy, len);
    lemma_div_trunc_error(dx * UNIT, len);
    lemma_div_trunc_error(dy * UNIT, len);
    let h = heading_spec(dx, dy);
    assert(h.x == div_trunc(dx * UNIT, len));
    assert(h.y == div_trunc(dy * UNIT, len));
    assert(h.x * dx >= 0) by (nonlinear_arith)
        requires
            (dx * UNIT) * h.x >= 0,
            UNIT == 1000,
    ;
    assert(h.y * dy >= 0) by (nonlinear_arith)
        requires
            (dy * UNIT) * h.y >= 0,
            UNIT == 1000,
    ;
}

fn div_trunc_exec(a: i128, d: i128) -> (r: i128)
    requires
        d > 0,
        a > i128::MIN,
    ensures
        r == div_trunc(a as int, d as int),
{
    if a >= 0 {
        a / d
    } else {
        -((-a) / d)
    }
}

/// `|a| <= b` gives `|a * UNIT / b| <= UNIT`.
proof fn lemma_scaled_quotient_bound(a: int, b: int)
    requires
        b > 0,
        -b <= a <= b,
    ensures
        -UNIT <= div_trunc(a * UNIT, b) <= UNIT,
{
    let m = if a >= 0 { a } else { -a };
    assert(m * UNIT <= b * UNIT) by (nonlinear_arith)
        requires
            0 <= m <= b,
    ;
    assert((m * UNIT) / b <= UNIT) by (nonlinear_arith)
        requires
            0 <= m * UNIT <= b * UNIT,
            b > 0,
    ;
    assert((m * UNIT) / b >= 0) by (nonlinear_arith)
        requires
            0 <= m * UNIT,
            b > 0,
    ;
    assert(m * UNIT == if a >= 0 { a * UNIT } else { -(a * UNIT) });
}

/// Each axis of a vector is at most its rounded-down length.
proof fn lemma_axis_within_norm(dx: int, dy: int)
    ensures
        -norm(dx, dy) <= dx <= norm(dx, dy),
        -norm(dx, dy) <= dy <= norm(dx, dy),
{
    let n = (dx * dx + dy * dy) as nat;
    assert(dx * dx >= 0 && dy * dy >= 0) by (nonlinear_arith);
    lemma_floor_sqrt_bounds(n);
    let r = floor_sqrt(n) as int;
    assert(-r <= dx <= r) by (nonlinear_arith)
        requires
            dx * dx <= n,
            n < (r + 1) * (r + 1),
            r >= 0,
    ;
    assert(-r <= dy <= r) by (nonlinear_arith)
        requires
            dy * dy <= n,
            n < (r + 1) * (r + 1),
            r >= 0,
    ;
}

/// The heading from `from` to `to`, or `None` where the two coincide.
pub fn heading_toward(from: Point, to: Point) -> (r: Option<Point>)
    requires
        from.within(MAX_EXTENT as int),
        to.within(MAX_EXTENT as int),
    ensures
        from == to ==> r is None,
        from != to ==> r == Some(heading_spec(to.x - from.x, to.y - from.y)),
        r matches Some(h) ==> h.within(UNIT as int),
{
    if from.x == to.x && from.y == to.y {
        return None;
    }
    let dx: i128 = to.x as i128 - from.x as i128;
    let dy: i128 = to.y as i128 - from.y as i128;
    proof {
        assert(dx * dx <= 0x40_0000_0000_0000_0000_0000) by (nonlinear_arith)
            requires
                -0x200_0000_0000 <= dx <= 0x200_0000_0000,
        ;
        assert(dy * dy <= 0x40_0000_0000_0000_0000_0000) by (nonlinear_arith)
            requires
                -0x200_0000_0000 <= dy <= 0x200_0000_0000,
        ;
        assert(dx * dx >= 0 && dy * dy >= 0) by (nonlinear_arith);
    }
    let sq: u128 = (dx * dx + dy * dy) as u128;
    let len = isqrt(sq);
    proof {
        lemma_axis_within_norm(dx as int, dy as int);
        assert(len > 0) by {
            if len == 0 {
                assert(dx == 0 && dy == 0);
            }
        }
        lemma_floor_sqrt_bounds(sq as nat);
        assert(len <= sq) by (nonlinear_arith)
            requires
                len * len <= sq,
                len > 0,
        ;
        lemma_scaled_quotient_bound(dx as int, len as int);
        lemma_scaled_quotient_bound(dy as int, len as int);
    }
    let hx = div_trunc_exec(dx * 1000, len as i128);
    let hy = div_trunc_exec(dy * 1000, len as i128);
    Some(Point { x: hx as i64, y: hy as i64 })
}

fn offset_exec(c: i64, dt_ms: u32, speed: u128) -> (r: i128)
    requires
        -UNIT <= c <= UNIT,
        speed <= MAX_SPEED,
    ensures
        r == offset(c as int, dt_ms as int, speed as int),
        -0x1_0000_0000_0000_0000_0000_0000_0000 <= r <= 0x1_0000_0000_0000_0000_0000_0000_0000,
{
    let ci = c as i128;
    let t = dt_ms as i128;
    let v = speed as i128;
    proof {
        assert(-0x400_0000_0000 <= ci * t <= 0x400_0000_0000) by (nonlinear_arith)
            requires
                -1000 <= ci <= 1000,
                0 <= t < 0x1_0000_0000,
        ;
        assert(-0x800_0000_0000_0000_0000_0000_0000 <= (ci * t) * v <= 0x800_0000_0000_0000_0000_0000_0000)
            by (nonlinear_arith)
            requires
                -0x400_0000_0000 <= ci * t <= 0x400_0000_0000,
                0 <= v <= 0x2_0000_0000_0000_0000,
        ;
    }
    let p = ci * t * v;
    let r = div_trunc_exec(p, 1_000_000);
    proof {
        if p >= 0 {
            assert(p / 1_000_000 <= p) by (nonlinear_arith)
                requires
                    p >= 0,
            ;
        } else {
            assert((-p) / 1_000_000 <= -p) by (nonlinear_arith)
                requires
                    p < 0,
            ;
        }
    }
    r
}

/// Moves a body at `pos` along `dir` for `dt_ms` at `speed`, then clamps it
/// into `arena`.
pub fn advance(arena: &Arena, pos: Point, dir: Point, dt_ms: u32, speed: u128) -> (r: Point)
    requires
        arena.wf(),
        pos.within(MAX_EXTENT as int),
        dir.within(UNIT as int),
        speed <= MAX_SPEED,
    ensures
        r == advance_spec(*arena, pos, dir, dt_ms as int, speed as int),
        arena.contains(r),
{
    let ox = offset_exec(dir.x, dt_ms, speed);
    let oy = offset_exec(dir.y, dt_ms, speed);
    arena.clamp(pos.x as i128 + ox, pos.y as i128 + oy)
}

} // verus!
