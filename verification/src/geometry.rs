//! Fixed-point arena geometry.
//!
//! Every coordinate, length and radius is a whole number of millionths of an
//! arena-grid unit, so that all of the simulation's comparisons are exact
//! integer comparisons. Distances are compared through their squares; where a
//! length itself is needed it is the floor of the square root.

use vstd::prelude::*;

verus! {

/// One arena-grid unit, in the fixed-point scale of every coordinate.
pub const UNIT: i32 = 1_000_000;

/// Two points closer than this (a hundredth of a unit) have no direction
/// between them.
pub const NEARNESS: u64 = 10_000;

/// `tan 20°`, in millionths: the half-width of the `Right` and `Left`
/// direction buckets.
pub const BUCKET_SLOPE: i64 = 363_970;

/// A point, or a vector, on the arena grid.
#[derive(Clone, Copy, Debug, PartialEq, Eq, Structural)]
pub struct ArenaPos(pub i32, pub i32);

/// The point with the coordinates `x` and `y`.
pub open spec fn at(x: int, y: int) -> ArenaPos {
    ArenaPos(x as i32, y as i32)
}

/// `r` is the floor of the square root of `n`.
pub open spec fn is_floor_sqrt(n: nat, r: nat) -> bool {
    r * r <= n && n < (r + 1) * (r + 1)
}

/// The floor of the square root of `n`.
pub open spec fn floor_sqrt(n: nat) -> nat {
    choose|r: nat| is_floor_sqrt(n, r)
}

/// Division that rounds toward zero, for a positive divisor.
pub open spec fn trunc_div(a: int, b: int) -> int {
    if a >= 0 {
        a / b
    } else {
        -((-a) / b)
    }
}

/// `v` held to the range of an `i32`.
pub open spec fn clamp_i32(v: int) -> int {
    if v > i32::MAX {
        i32::MAX as int
    } else if v < i32::MIN {
        i32::MIN as int
    } else {
        v
    }
}

/// The square of the Euclidean distance between two points.
pub open spec fn spec_dist2(a: ArenaPos, b: ArenaPos) -> nat {
    ((a.0 - b.0) * (a.0 - b.0) + (a.1 - b.1) * (a.1 - b.1)) as nat
}

/// Whether `b` lies within `radius` of `a`, the boundary included.
pub open spec fn spec_within(a: ArenaPos, b: ArenaPos, radius: nat) -> bool {
    spec_dist2(a, b) <= radius * radius
}

/// The greater number has the greater square.
pub proof fn lemma_square_monotonic(a: nat, b: nat)
    requires
        a <= b,
    ensures
        a * a <= b * b,
{
    assert(a * a <= b * b) by (nonlinear_arith)
        requires
            a <= b,
    ;
}

/// At most one number is the floor of a square root.
pub proof fn lemma_floor_sqrt_unique(n: nat, r1: nat, r2: nat)
    requires
        is_floor_sqrt(n, r1),
        is_floor_sqrt(n, r2),
    ensures
        r1 == r2,
{
    if r1 < r2 {
        lemma_square_monotonic(r1 + 1, r2);
    } else if r2 < r1 {
        lemma_square_monotonic(r2 + 1, r1);
    }
}

/// Every number has a floor square root, and `floor_sqrt` names it.
pub proof fn lemma_floor_sqrt_exists(n: nat)
    ensures
        is_floor_sqrt(n, floor_sqrt(n)),
    decreases n,
{
    if n == 0 {
        assert(0nat * 0nat <= 0nat && 0nat < (0nat + 1) * (0nat + 1)) by (nonlinear_arith);
        assert(is_floor_sqrt(0, 0));
    } else {
        lemma_floor_sqrt_exists((n - 1) as nat);
        let r = floor_sqrt((n - 1) as nat);
        if n < (r + 1) * (r + 1) {
            assert(is_floor_sqrt(n, r));
        } else {
            assert((r + 2) * (r + 2) == (r + 1) * (r + 1) + 2 * r + 3) by (nonlinear_arith);
            assert(is_floor_sqrt(n, r + 1));
        }
    }
}

/// A number that passes the test of `is_floor_sqrt` is the floor square root.
pub proof fn lemma_floor_sqrt_is(n: nat, r: nat)
    requires
        is_floor_sqrt(n, r),
    ensures
        floor_sqrt(n) == r,
{
    lemma_floor_sqrt_exists(n);
    lemma_floor_sqrt_unique(n, r, floor_sqrt(n));
}

/// The floor of the square root of `n`, by bisection.
pub fn isqrt(n: u128) -> (r: u64)
    ensures
        r == floor_sqrt(n as nat),
{
    let mut lo: u128 = 0;
    let mut hi: u128 = 0x1_0000_0000_0000_0000;
    assert(0x1_0000_0000_0000_0000u128 * 0x1_0000_0000_0000_0000u128
        == 0x1_0000_0000_0000_0000_0000_0000_0000_0000) by (nonlinear_arith);
    while hi - lo > 1
        invariant
            lo < hi <= 0x1_0000_0000_0000_0000,
            lo * lo <= n,
            n < hi * hi,
        decreases hi - lo,
    {
        let mid: u128 = lo + (hi - lo) / 2;
        assert(mid * mid <= 0xffff_ffff_ffff_ffff * 0xffff_ffff_ffff_ffff) by (nonlinear_arith)
            requires
                0 <= mid <= 0xffff_ffff_ffff_ffff,
        ;
        let sq: u128 = mid * mid;
        if sq <= n {
            lo = mid;
        } else {
            hi = mid;
        }
    }
    proof {
        assert(hi == lo + 1);
        lemma_floor_sqrt_is(n as nat, lo as nat);
    }
    lo as u64
}

/// `a / b` rounded toward zero.
pub fn div_toward_zero(a: i128, b: i128) -> (q: i128)
    requires
        b > 0,
        a > i128::MIN,
    ensures
        q == trunc_div(a as int, b as int),
{
    if a >= 0 {
        a / b
    } else {
        let m: i128 = -a;
        let q: i128 = m / b;
        -q
    }
}

/// The vector `(dx, dy)` shrunk or stretched to the length of one unit, each
/// component rounded toward zero; the zero vector stays as it is.
pub open spec fn spec_unit_vector(dx: int, dy: int) -> ArenaPos {
    let len = floor_sqrt((dx * dx + dy * dy) as nat);
    if len == 0 {
        ArenaPos(0, 0)
    } else {
        ArenaPos(
            trunc_div(dx * UNIT, len as int) as i32,
            trunc_div(dy * UNIT, len as int) as i32,
        )
    }
}

/// The component `d` of a vector of length `len`, scaled to unit length,
/// fits between minus one and one unit.
proof fn lemma_unit_component(d: int, len: int)
    requires
        len > 0,
        -len <= d <= len,
    ensures
        -UNIT <= trunc_div(d * UNIT, len) <= UNIT,
{
    if d >= 0 {
        assert(0 <= d * UNIT <= len * UNIT) by (nonlinear_arith)
            requires
                0 <= d <= len,
        ;
        assert((d * UNIT) / len <= UNIT) by (nonlinear_arith)
            requires
                0 <= d * UNIT <= len * UNIT,
                len > 0,
        ;
        assert((d * UNIT) / len >= 0) by (nonlinear_arith)
            requires
                0 <= d * UNIT,
                len > 0,
        ;
    } else {
        assert(0 <= -(d * UNIT) <= len * UNIT) by (nonlinear_arith)
            requires
                -len <= d < 0,
        ;
        assert((-(d * UNIT)) / len <= UNIT) by (nonlinear_arith)
            requires
                0 <= -(d * UNIT) <= len * UNIT,
                len > 0,
        ;
        assert((-(d * UNIT)) / len >= 0) by (nonlinear_arith)
            requires
                0 <= -(d * UNIT),
                len > 0,
        ;
    }
}

/// The floor square root of a sum of two squares is at least either root.
proof fn lemma_root_covers(dx: int, dy: int)
    ensures
        -(floor_sqrt((dx * dx + dy * dy) as nat) as int) <= dx,
        dx <= floor_sqrt((dx * dx + dy * dy) as nat),
{
    let n = (dx * dx + dy * dy) as nat;
    let r = floor_sqrt(n);
    lemma_floor_sqrt_exists(n);
    let m: nat = if dx >= 0 { dx as nat } else { (-dx) as nat };
    assert(m * m == dx * dx) by (nonlinear_arith)
        requires
            m == dx || m == -dx,
    ;
    assert(dy * dy >= 0) by (nonlinear_arith);
    if r < m {
        lemma_square_monotonic(r + 1, m);
    }
}

/// The unit vector along `(dx, dy)`.
fn unit_vector(dx: i64, dy: i64) -> (v: ArenaPos)
    requires
        -0x1_0000_0000 < dx < 0x1_0000_0000,
        -0x1_0000_0000 < dy < 0x1_0000_0000,
    ensures
        v == spec_unit_vector(dx as int, dy as int),
{
    assert(dx * dx <= 0x1_0000_0000 * 0x1_0000_0000) by (nonlinear_arith)
        requires
            -0x1_0000_0000 < dx < 0x1_0000_0000,
    ;
    assert(dy * dy <= 0x1_0000_0000 * 0x1_0000_0000) by (nonlinear_arith)
        requires
            -0x1_0000_0000 < dy < 0x1_0000_0000,
    ;
    assert(dx * dx >= 0 && dy * dy >= 0) by (nonlinear_arith);
    let sx: i128 = (dx as i128) * (dx as i128);
    let sy: i128 = (dy as i128) * (dy as i128);
    let n: u128 = (sx + sy) as u128;
    let len: u64 = isqrt(n);
    if len == 0 {
        return ArenaPos(0, 0);
    }
    proof {
        lemma_root_covers(dx as int, dy as int);
        lemma_root_covers(dy as int, dx as int);
        assert(dy * dy + dx * dx == dx * dx + dy * dy);
        lemma_unit_component(dx as int, len as int);
        lemma_unit_component(dy as int, len as int);
        assert(-0x1_0000_0000 * 1_000_000 <= dx * UNIT <= 0x1_0000_0000 * 1_000_000)
            by (nonlinear_arith)
            requires
                -0x1_0000_0000 < dx < 0x1_0000_0000,
                UNIT == 1_000_000,
        ;
        assert(-0x1_0000_0000 * 1_000_000 <= dy * UNIT <= 0x1_0000_0000 * 1_000_000)
            by (nonlinear_arith)
            requires
                -0x1_0000_0000 < dy < 0x1_0000_0000,
                UNIT == 1_000_000,
        ;
    }
    let x: i128 = div_toward_zero((dx as i128) * (UNIT as i128), len as i128);
    let y: i128 = div_toward_zero((dy as i128) * (UNIT as i128), len as i128);
    ArenaPos(x as i32, y as i32)
}

impl ArenaPos {
    /// The vector scaled to the length of one unit; the zero vector stays as
    /// it is.
    pub open spec fn spec_normalize(self) -> ArenaPos {
        spec_unit_vector(self.0 as int, self.1 as int)
    }

    /// The unit vector from `self` toward `rhs`, or the zero vector where the
    /// two are closer than `NEARNESS`.
    pub open spec fn spec_direction(self, rhs: ArenaPos) -> ArenaPos {
        if spec_dist2(self, rhs) < NEARNESS * NEARNESS {
            ArenaPos(0, 0)
        } else {
            spec_unit_vector(rhs.0 - self.0, rhs.1 - self.1)
        }
    }

    /// The vector times the fixed-point factor `n`, each component rounded
    /// toward zero and held to the range of a coordinate.
    pub open spec fn spec_mul(self, n: i32) -> ArenaPos {
        ArenaPos(
            clamp_i32(trunc_div(self.0 * n, UNIT as int)) as i32,
            clamp_i32(trunc_div(self.1 * n, UNIT as int)) as i32,
        )
    }

    /// The point moved by `by`, each coordinate held to its range.
    pub open spec fn spec_shifted(self, by: ArenaPos) -> ArenaPos {
        ArenaPos(clamp_i32(self.0 + by.0) as i32, clamp_i32(self.1 + by.1) as i32)
    }

    /// The point seen from the other side of the arena.
    pub open spec fn spec_mirror(self) -> ArenaPos {
        ArenaPos(clamp_i32(-self.0) as i32, clamp_i32(-self.1) as i32)
    }

    /// The square of the distance to `rhs`.
    pub fn distance_squared(&self, rhs: &ArenaPos) -> (d2: u128)
        ensures
            d2 == spec_dist2(*self, *rhs),
    {
        let dx: i64 = self.0 as i64 - rhs.0 as i64;
        let dy: i64 = self.1 as i64 - rhs.1 as i64;
        assert(0 <= dx * dx <= 0x1_0000_0000 * 0x1_0000_0000) by (nonlinear_arith)
            requires
                -0x1_0000_0000 < dx < 0x1_0000_0000,
        ;
        assert(0 <= dy * dy <= 0x1_0000_0000 * 0x1_0000_0000) by (nonlinear_arith)
            requires
                -0x1_0000_0000 < dy < 0x1_0000_0000,
        ;
        let sx: i128 = (dx as i128) * (dx as i128);
        let sy: i128 = (dy as i128) * (dy as i128);
        (sx + sy) as u128
    }

    /// The distance to `rhs`, rounded down.
    pub fn distance(&self, rhs: &ArenaPos) -> (d: u64)
        ensures
            d == floor_sqrt(spec_dist2(*self, *rhs)),
    {
        isqrt(self.distance_squared(rhs))
    }

    /// Whether `rhs` lies within `radius` of `self`, the boundary included.
    pub fn within(&self, rhs: &ArenaPos, radius: u64) -> (near: bool)
        ensures
            near == spec_within(*self, *rhs, radius as nat),
    {
        let d2 = self.distance_squared(rhs);
        assert(radius * radius <= 0xffff_ffff_ffff_ffff * 0xffff_ffff_ffff_ffff)
            by (nonlinear_arith)
            requires
                0 <= radius <= 0xffff_ffff_ffff_ffff,
        ;
        let r2: u128 = (radius as u128) * (radius as u128);
        d2 <= r2
    }

    /// The vector scaled to the length of one unit.
    pub fn normalize(&self) -> (v: ArenaPos)
        ensures
            v == self.spec_normalize(),
    {
        unit_vector(self.0 as i64, self.1 as i64)
    }

    /// The vector times `n` millionths.
    pub fn mul(&self, n: i32) -> (v: ArenaPos)
        ensures
            v == self.spec_mul(n),
    {
        assert(-0x8000_0000 * 0x8000_0000 <= self.0 * n <= 0x8000_0000 * 0x8000_0000)
            by (nonlinear_arith)
            requires
                -0x8000_0000 <= self.0 < 0x8000_0000,
                -0x8000_0000 <= n < 0x8000_0000,
        ;
        assert(-0x8000_0000 * 0x8000_0000 <= self.1 * n <= 0x8000_0000 * 0x8000_0000)
            by (nonlinear_arith)
            requires
                -0x8000_0000 <= self.1 < 0x8000_0000,
                -0x8000_0000 <= n < 0x8000_0000,
        ;
        let x: i128 = div_toward_zero((self.0 as i128) * (n as i128), UNIT as i128);
        let y: i128 = div_toward_zero((self.1 as i128) * (n as i128), UNIT as i128);
        ArenaPos(clamp_to_i32(x), clamp_to_i32(y))
    }

    /// The unit vector from `self` toward `rhs`; none where the two are
    /// closer than a hundredth of a unit.
    pub fn direction(&self, rhs: &ArenaPos) -> (v: ArenaPos)
        ensures
            v == self.spec_direction(*rhs),
    {
        let d2 = self.distance_squared(rhs);
        assert(NEARNESS * NEARNESS == 100_000_000) by (nonlinear_arith)
            requires
                NEARNESS == 10_000,
        ;
        if d2 < (NEARNESS as u128) * (NEARNESS as u128) {
            return ArenaPos(0, 0);
        }
        unit_vector(rhs.0 as i64 - self.0 as i64, rhs.1 as i64 - self.1 as i64)
    }

    /// The point moved by `by`.
    pub fn shifted(&self, by: ArenaPos) -> (p: ArenaPos)
        ensures
            p == self.spec_shifted(by),
    {
        ArenaPos(
            clamp_to_i32(self.0 as i128 + by.0 as i128),
            clamp_to_i32(self.1 as i128 + by.1 as i128),
        )
    }

    /// The point seen from the other side of the arena: both coordinates
    /// negated.
    pub fn mirror(&self) -> (p: ArenaPos)
        ensures
            p == self.spec_mirror(),
    {
        ArenaPos(clamp_to_i32(-(self.0 as i128)), clamp_to_i32(-(self.1 as i128)))
    }
}

/// How far something of `speed` (per second) gets in `delta` microseconds,
/// held to the range of a coordinate.
pub open spec fn spec_step_len(speed: u32, delta: u64) -> i32 {
    clamp_i32((speed * delta) / 1_000_000) as i32
}

/// Where something at `from` stands after it went toward `to` at `speed` for
/// `delta` microseconds: one step of full length along the direction, even
/// where that carries it past `to`.
pub open spec fn spec_step_toward(from: ArenaPos, to: ArenaPos, speed: u32, delta: u64) -> ArenaPos {
    from.spec_shifted(from.spec_direction(to).spec_mul(spec_step_len(speed, delta)))
}

/// How far something of `speed` gets in `delta` microseconds.
pub fn step_len(speed: u32, delta: u64) -> (len: i32)
    ensures
        len == spec_step_len(speed, delta),
{
    assert(0 <= speed * delta <= 0xffff_ffff * 0xffff_ffff_ffff_ffff) by (nonlinear_arith)
        requires
            0 <= speed <= 0xffff_ffff,
            0 <= delta <= 0xffff_ffff_ffff_ffff,
    ;
    let product: u128 = (speed as u128) * (delta as u128);
    let len: u128 = product / 1_000_000;
    if len > i32::MAX as u128 {
        i32::MAX
    } else {
        len as i32
    }
}

/// One step from `from` toward `to`.
pub fn step_toward(from: ArenaPos, to: ArenaPos, speed: u32, delta: u64) -> (p: ArenaPos)
    ensures
        p == spec_step_toward(from, to, speed, delta),
{
    from.shifted(from.direction(&to).mul(step_len(speed, delta)))
}

impl Default for ArenaPos {
    fn default() -> (p: ArenaPos)
        ensures
            p == ArenaPos(0, 0),
    {
        ArenaPos(0, 0)
    }
}

/// `v` held to the range of an `i32`.
pub fn clamp_to_i32(v: i128) -> (r: i32)
    ensures
        r == clamp_i32(v as int),
{
    if v > i32::MAX as i128 {
        i32::MAX
    } else if v < i32::MIN as i128 {
        i32::MIN
    } else {
        v as i32
    }
}

} // verus!
