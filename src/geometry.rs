//! Fixed-point plane geometry: positions, velocities and distances in
//! ten-thousandths of a world unit.

use vstd::prelude::*;

verus! {

/// Steps per world unit.
pub const SCALE: i64 = 10_000;

/// Width of the play area, in steps.
pub const WORLD_WIDTH: i64 = 400_000;

/// Height of the play area, in steps.
pub const WORLD_HEIGHT: i64 = 300_000;

/// Every coordinate of every entity stays within `[-FIELD_LIMIT, FIELD_LIMIT]`.
pub const FIELD_LIMIT: i64 = 100_000_000;

/// Every velocity component stays within `[-SPEED_LIMIT, SPEED_LIMIT]`.
pub const SPEED_LIMIT: i64 = 1_000_000;

/// A point or a displacement in the plane.
#[derive(Clone, Copy, Debug, PartialEq, Eq, Structural)]
pub struct Vec2i {
    pub x: i64,
    pub y: i64,
}

pub const CENTER_X: i64 = 200_000;

pub const CENTER_Y: i64 = 150_000;

/// The centre of the play area.
pub open spec fn center_spec() -> Vec2i {
    Vec2i { x: CENTER_X, y: CENTER_Y }
}

/// The null vector.
pub open spec fn zero_spec() -> Vec2i {
    Vec2i { x: 0, y: 0 }
}

/// The centre of the play area.
pub fn center() -> (c: Vec2i)
    ensures
        c == center_spec(),
{
    Vec2i { x: CENTER_X, y: CENTER_Y }
}

/// The null vector.
pub fn zero() -> (z: Vec2i)
    ensures
        z == zero_spec(),
{
    Vec2i { x: 0, y: 0 }
}

pub open spec fn within(v: i64, limit: i64) -> bool {
    -limit <= v <= limit
}

impl Vec2i {
    /// Both coordinates lie inside the field of play.
    pub open spec fn in_field(self) -> bool {
        within(self.x, FIELD_LIMIT) && within(self.y, FIELD_LIMIT)
    }

    /// Both components are admissible velocities.
    pub open spec fn slow(self) -> bool {
        within(self.x, SPEED_LIMIT) && within(self.y, SPEED_LIMIT)
    }
}

/// Squared euclidean distance between two points.
pub open spec fn dist_sq(a: Vec2i, b: Vec2i) -> int {
    (a.x - b.x) * (a.x - b.x) + (a.y - b.y) * (a.y - b.y)
}

/// `r` is the integer square root of `n`.
pub open spec fn is_root(n: int, r: int) -> bool {
    0 <= r && r * r <= n < (r + 1) * (r + 1)
}

/// The integer square root of a natural number.
pub open spec fn root(n: int) -> int
    recommends
        0 <= n,
{
    choose|r: int| is_root(n, r)
}

/// Integer division rounding toward zero, as Rust's `/` does.
pub open spec fn div_trunc(a: int, d: int) -> int
    recommends
        d > 0,
{
    if a >= 0 {
        a / d
    } else {
        -((-a) / d)
    }
}

/// `a` forced into `[lo, hi]`.
pub open spec fn clamp_spec(a: int, lo: int, hi: int) -> int {
    if a < lo {
        lo
    } else if a > hi {
        hi
    } else {
        a
    }
}

/// The displacement of length `speed` from `from` toward `to`, each
/// component rounded toward zero; zero where the two points coincide.
pub open spec fn toward_spec(from: Vec2i, to: Vec2i, speed: int) -> Vec2i {
    let len = root(dist_sq(from, to));
    if len == 0 {
        zero_spec()
    } else {
        Vec2i {
            x: div_trunc((to.x - from.x) * speed, len) as i64,
            y: div_trunc((to.y - from.y) * speed, len) as i64,
        }
    }
}

/// `v` scaled by `num / den`, each component rounded toward zero.
pub open spec fn scaled(v: Vec2i, num: int, den: int) -> Vec2i {
    Vec2i { x: div_trunc(v.x * num, den) as i64, y: div_trunc(v.y * num, den) as i64 }
}

/// `a + b`, forced into the field of play.
pub open spec fn moved(a: Vec2i, b: Vec2i) -> Vec2i {
    Vec2i {
        x: clamp_spec(a.x + b.x, -FIELD_LIMIT as int, FIELD_LIMIT as int) as i64,
        y: clamp_spec(a.y + b.y, -FIELD_LIMIT as int, FIELD_LIMIT as int) as i64,
    }
}

/// `a + b`, each component forced into the admissible speed range.
pub open spec fn accelerated(a: Vec2i, b: Vec2i) -> Vec2i {
    Vec2i {
        x: clamp_spec(a.x + b.x, -SPEED_LIMIT as int, SPEED_LIMIT as int) as i64,
        y: clamp_spec(a.y + b.y, -SPEED_LIMIT as int, SPEED_LIMIT as int) as i64,
    }
}

proof fn lemma_root_unique(n: int, r: int, s: int)
    requires
        is_root(n, r),
        is_root(n, s),
    ensures
        r == s,
{
    if r < s {
        assert(r + 1 <= s);
        assert((r + 1) * (r + 1) <= s * s) by (nonlinear_arith)
            requires
                0 <= r + 1 <= s,
        ;
    } else if s < r {
        assert((s + 1) * (s + 1) <= r * r) by (nonlinear_arith)
            requires
                0 <= s + 1 <= r,
        ;
    }
}

/// Any witness of the root property is the root.
pub proof fn lemma_root_is(n: int, r: int)
    requires
        is_root(n, r),
    ensures
        root(n) == r,
{
    lemma_root_unique(n, r, root(n));
}

/// Integer square root by bisection.
pub fn isqrt(n: u64) -> (r: u64)
    ensures
        r == root(n as int),
        is_root(n as int, r as int),
        r < 0x1_0000_0000,
{
    let mut lo: u64 = 0;
    let mut hi: u64 = 0x1_0000_0000;
    assert(0x1_0000_0000 * 0x1_0000_0000 > u64::MAX);
    while lo + 1 < hi
        invariant
            lo < hi <= 0x1_0000_0000,
            lo * lo <= n,
            n < hi * hi,
        decreases hi - lo,
    {
        let mid: u64 = lo + (hi - lo) / 2;
        assert(mid * mid <= u64::MAX) by (nonlinear_arith)
            requires
                mid < 0x1_0000_0000,
        ;
        if mid * mid <= n {
            lo = mid;
        } else {
            hi = mid;
        }
    }
    proof {
        assert(hi == lo + 1);
        lemma_root_is(n as int, lo as int);
    }
    lo
}

/// Rust's truncating division on values Verus models exactly.
fn div_toward_zero(a: i64, d: i64) -> (q: i64)
    requires
        d > 0,
        a > i64::MIN,
    ensures
        q == div_trunc(a as int, d as int),
{
    if a >= 0 {
        a / d
    } else {
        -((-a) / d)
    }
}

pub fn clamp(a: i64, lo: i64, hi: i64) -> (r: i64)
    requires
        lo <= hi,
    ensures
        r == clamp_spec(a as int, lo as int, hi as int),
{
    if a < lo {
        lo
    } else if a > hi {
        hi
    } else {
        a
    }
}

/// Squared distance between two points of the field.
pub fn distance_sq(a: Vec2i, b: Vec2i) -> (d: u64)
    requires
        a.in_field(),
        b.in_field(),
    ensures
        d == dist_sq(a, b),
        d <= 8 * FIELD_LIMIT * FIELD_LIMIT,
{
    let dx: i64 = a.x - b.x;
    let dy: i64 = a.y - b.y;
    assert(dx * dx <= 4 * FIELD_LIMIT * FIELD_LIMIT) by (nonlinear_arith)
        requires
            -2 * FIELD_LIMIT <= dx <= 2 * FIELD_LIMIT,
    ;
    assert(dy * dy <= 4 * FIELD_LIMIT * FIELD_LIMIT) by (nonlinear_arith)
        requires
            -2 * FIELD_LIMIT <= dy <= 2 * FIELD_LIMIT,
    ;
    assert(0 <= dx * dx && 0 <= dy * dy) by (nonlinear_arith);
    (dx * dx + dy * dy) as u64
}

/// Whether two points lie strictly closer than `reach`.
pub fn closer_than(a: Vec2i, b: Vec2i, reach: i64) -> (r: bool)
    requires
        a.in_field(),
        b.in_field(),
        0 <= reach <= 2 * FIELD_LIMIT,
    ensures
        r == (dist_sq(a, b) < reach * reach),
{
    let d = distance_sq(a, b);
    assert(reach * reach <= 4 * FIELD_LIMIT * FIELD_LIMIT) by (nonlinear_arith)
        requires
            0 <= reach <= 2 * FIELD_LIMIT,
    ;
    d < (reach * reach) as u64
}

/// The displacement of length `speed` from `from` toward `to`.
pub fn toward(from: Vec2i, to: Vec2i, speed: i64) -> (v: Vec2i)
    requires
        from.in_field(),
        to.in_field(),
        0 <= speed <= SPEED_LIMIT,
    ensures
        v == toward_spec(from, to, speed as int),
        v.slow(),
{
    let len = isqrt(distance_sq(from, to));
    if len == 0 {
        zero()
    } else {
        let dx: i64 = to.x - from.x;
        let dy: i64 = to.y - from.y;
        proof {
            let n = dist_sq(from, to);
            assert(n == dx * dx + dy * dy) by (nonlinear_arith)
                requires
                    n == dist_sq(from, to),
                    dx == to.x - from.x,
                    dy == to.y - from.y,
            ;
            assert(dx * dx <= n && dy * dy <= n) by (nonlinear_arith)
                requires
                    n == dx * dx + dy * dy,
            ;
            lemma_component_bound(dx as int, len as int, n);
            lemma_component_bound(dy as int, len as int, n);
            lemma_scaled_bound(dx as int, len as int, speed as int);
            lemma_scaled_bound(dy as int, len as int, speed as int);
        }
        assert(-2 * FIELD_LIMIT * SPEED_LIMIT <= dx * speed <= 2 * FIELD_LIMIT * SPEED_LIMIT)
            by (nonlinear_arith)
            requires
                -2 * FIELD_LIMIT <= dx <= 2 * FIELD_LIMIT,
                0 <= speed <= SPEED_LIMIT,
        ;
        assert(-2 * FIELD_LIMIT * SPEED_LIMIT <= dy * speed <= 2 * FIELD_LIMIT * SPEED_LIMIT)
            by (nonlinear_arith)
            requires
                -2 * FIELD_LIMIT <= dy <= 2 * FIELD_LIMIT,
                0 <= speed <= SPEED_LIMIT,
        ;
        let x = div_toward_zero(dx * speed, len as i64);
        let y = div_toward_zero(dy * speed, len as i64);
        Vec2i { x, y }
    }
}

/// A component of a displacement is no longer than its root length plus one.
proof fn lemma_component_bound(d: int, len: int, n: int)
    requires
        d * d <= n,
        is_root(n, len),
    ensures
        -len <= d <= len,
{
    if d > len {
        assert((len + 1) * (len + 1) <= d * d) by (nonlinear_arith)
            requires
                0 <= len + 1 <= d,
        ;
    } else if d < -len {
        assert((len + 1) * (len + 1) <= d * d) by (nonlinear_arith)
            requires
                0 <= len + 1 <= -d,
        ;
    }
}

proof fn lemma_scaled_bound(d: int, len: int, speed: int)
    requires
        -len <= d <= len,
        len > 0,
        0 <= speed,
    ensures
        -speed <= div_trunc(d * speed, len) <= speed,
{
    if d >= 0 {
        assert(0 <= d * speed <= len * speed) by (nonlinear_arith)
            requires
                0 <= d <= len,
                0 <= speed,
        ;
        assert((d * speed) / len <= speed) by (nonlinear_arith)
            requires
                0 <= d * speed <= len * speed,
                len > 0,
        ;
        assert(0 <= (d * speed) / len) by (nonlinear_arith)
            requires
                0 <= d * speed,
                len > 0,
        ;
    } else {
        assert(0 <= (-d) * speed <= len * speed) by (nonlinear_arith)
            requires
                0 <= -d <= len,
                0 <= speed,
        ;
        assert(-(d * speed) == (-d) * speed) by (nonlinear_arith);
        assert(((-d) * speed) / len <= speed) by (nonlinear_arith)
            requires
                0 <= (-d) * speed <= len * speed,
                len > 0,
        ;
        assert(0 <= ((-d) * speed) / len) by (nonlinear_arith)
            requires
                0 <= (-d) * speed,
                len > 0,
        ;
    }
}

/// `v` scaled by `num / den`, rounding toward zero.
pub fn scale(v: Vec2i, num: i64, den: i64) -> (r: Vec2i)
    requires
        v.slow(),
        0 <= num <= den,
        0 < den <= 1000,
    ensures
        r == scaled(v, num as int, den as int),
        r.slow(),
{
    proof {
        lemma_shrink(v.x as int, num as int, den as int);
        lemma_shrink(v.y as int, num as int, den as int);
    }
    assert(-SPEED_LIMIT * 1000 <= v.x * num <= SPEED_LIMIT * 1000) by (nonlinear_arith)
        requires
            -SPEED_LIMIT <= v.x <= SPEED_LIMIT,
            0 <= num <= 1000,
    ;
    assert(-SPEED_LIMIT * 1000 <= v.y * num <= SPEED_LIMIT * 1000) by (nonlinear_arith)
        requires
            -SPEED_LIMIT <= v.y <= SPEED_LIMIT,
            0 <= num <= 1000,
    ;
    Vec2i { x: div_toward_zero(v.x * num, den), y: div_toward_zero(v.y * num, den) }
}

proof fn lemma_shrink(a: int, num: int, den: int)
    requires
        -SPEED_LIMIT <= a <= SPEED_LIMIT,
        0 <= num <= den,
        den > 0,
    ensures
        -SPEED_LIMIT <= div_trunc(a * num, den) <= SPEED_LIMIT,
{
    if a >= 0 {
        assert(0 <= a * num <= a * den) by (nonlinear_arith)
            requires
                0 <= a,
                0 <= num <= den,
        ;
        assert((a * num) / den <= a) by (nonlinear_arith)
            requires
                0 <= a * num <= a * den,
                den > 0,
        ;
        assert(0 <= (a * num) / den) by (nonlinear_arith)
            requires
                0 <= a * num,
                den > 0,
        ;
    } else {
        assert(0 <= (-a) * num <= (-a) * den) by (nonlinear_arith)
            requires
                0 <= -a,
                0 <= num <= den,
        ;
        assert(-(a * num) == (-a) * num) by (nonlinear_arith);
        assert(((-a) * num) / den <= -a) by (nonlinear_arith)
            requires
                0 <= (-a) * num <= (-a) * den,
                den > 0,
        ;
        assert(0 <= ((-a) * num) / den) by (nonlinear_arith)
            requires
                0 <= (-a) * num,
                den > 0,
        ;
    }
}

/// Moves `a` by `b`, keeping the result inside the field of play.
pub fn shift(a: Vec2i, b: Vec2i) -> (r: Vec2i)
    requires
        a.in_field(),
        b.slow(),
    ensures
        r == moved(a, b),
        r.in_field(),
{
    Vec2i {
        x: clamp(a.x + b.x, -FIELD_LIMIT, FIELD_LIMIT),
        y: clamp(a.y + b.y, -FIELD_LIMIT, FIELD_LIMIT),
    }
}

/// Adds `b` to the velocity `a`, keeping each component admissible.
pub fn accelerate(a: Vec2i, b: Vec2i) -> (r: Vec2i)
    requires
        a.slow(),
        b.slow(),
    ensures
        r == accelerated(a, b),
        r.slow(),
{
    Vec2i {
        x: clamp(a.x + b.x, -SPEED_LIMIT, SPEED_LIMIT),
        y: clamp(a.y + b.y, -SPEED_LIMIT, SPEED_LIMIT),
    }
}

} // verus!
