use vstd::prelude::*;

verus! {

/// Largest magnitude of a world coordinate held by the engine.
pub const COORD_LIMIT: i64 = 1_000_000_000_000;

/// Zoom factors are expressed in thousandths: `ZOOM_SCALE` means a zoom of one.
pub const ZOOM_SCALE: u32 = 1000;

/// A point or vector of the plane, in integer units.
#[derive(Clone, Copy, Debug, PartialEq, Eq, Structural)]
pub struct RawPoint {
    pub x: i64,
    pub y: i64,
}

/// A segment between two points.
#[derive(Clone, Copy, Debug, PartialEq, Eq, Structural)]
pub struct RawLine {
    pub a: RawPoint,
    pub b: RawPoint,
}

/// Division of integers rounding toward zero, as machine division does.
pub open spec fn div_toward_zero(a: int, b: int) -> int
    recommends
        b > 0,
{
    if a >= 0 {
        a / b
    } else {
        -((-a) / b)
    }
}

/// Whether a coordinate lies within the range the engine works in.
pub open spec fn coord_ok(v: int) -> bool {
    -COORD_LIMIT <= v <= COORD_LIMIT
}

/// Clamps a value into the range of world coordinates.
pub open spec fn clamp_coord(v: int) -> int {
    if v < -COORD_LIMIT {
        -COORD_LIMIT as int
    } else if v > COORD_LIMIT {
        COORD_LIMIT as int
    } else {
        v
    }
}

/// Squared Euclidean distance between two points.
pub open spec fn sq_dist(p: RawPoint, q: RawPoint) -> int {
    (p.x - q.x) * (p.x - q.x) + (p.y - q.y) * (p.y - q.y)
}

/// The integer square root: the largest `r` with `r * r <= n`.
pub open spec fn is_isqrt(n: int, r: int) -> bool {
    r >= 0 && r * r <= n && n < (r + 1) * (r + 1)
}

impl RawPoint {
    pub open spec fn in_world(self) -> bool {
        coord_ok(self.x as int) && coord_ok(self.y as int)
    }

    pub fn new(x: i64, y: i64) -> (r: RawPoint)
        ensures
            r.x == x && r.y == y,
    {
        RawPoint { x, y }
    }

    pub open spec fn spec_origin() -> RawPoint {
        RawPoint { x: 0, y: 0 }
    }

    /// The point `(0, 0)`.
    pub fn origin() -> (r: RawPoint)
        ensures
            r == RawPoint::spec_origin(),
    {
        RawPoint { x: 0, y: 0 }
    }

    /// Component-wise sum.
    pub fn add(self, rhs: RawPoint) -> (r: RawPoint)
        requires
            i64::MIN <= self.x + rhs.x <= i64::MAX,
            i64::MIN <= self.y + rhs.y <= i64::MAX,
        ensures
            r.x == self.x + rhs.x && r.y == self.y + rhs.y,
    {
        RawPoint { x: self.x + rhs.x, y: self.y + rhs.y }
    }

    /// Component-wise difference.
    pub fn sub(self, rhs: RawPoint) -> (r: RawPoint)
        requires
            i64::MIN <= self.x - rhs.x <= i64::MAX,
            i64::MIN <= self.y - rhs.y <= i64::MAX,
        ensures
            r.x == self.x - rhs.x && r.y == self.y - rhs.y,
    {
        RawPoint { x: self.x - rhs.x, y: self.y - rhs.y }
    }

    /// Scales both components by an integer factor.
    pub fn mul(self, k: i64) -> (r: RawPoint)
        requires
            i64::MIN <= self.x * k <= i64::MAX,
            i64::MIN <= self.y * k <= i64::MAX,
        ensures
            r.x == self.x * k && r.y == self.y * k,
    {
        RawPoint { x: self.x * k, y: self.y * k }
    }

    /// Divides both components by a positive integer, rounding toward zero.
    pub fn div(self, k: i64) -> (r: RawPoint)
        requires
            k > 0,
        ensures
            r.x == div_toward_zero(self.x as int, k as int),
            r.y == div_toward_zero(self.y as int, k as int),
    {
        RawPoint { x: div_i64(self.x, k), y: div_i64(self.y, k) }
    }

    /// Squared Euclidean distance to `other`; both points lie in the world.
    pub fn squared_distance(self, other: RawPoint) -> (r: u128)
        requires
            self.in_world(),
            other.in_world(),
        ensures
            r == sq_dist(self, other),
            r <= 8_000_000_000_000_000_000_000_000,
    {
        let dx: i128 = self.x as i128 - other.x as i128;
        let dy: i128 = self.y as i128 - other.y as i128;
        let ax: u128 = if dx >= 0 { dx as u128 } else { (-dx) as u128 };
        let ay: u128 = if dy >= 0 { dy as u128 } else { (-dy) as u128 };
        assert(ax * ax == dx * dx && ay * ay == dy * dy) by (nonlinear_arith)
            requires
                ax as int == (if dx >= 0 { dx as int } else { -(dx as int) }),
                ay as int == (if dy >= 0 { dy as int } else { -(dy as int) }),
        ;
        assert(ax * ax <= 4_000_000_000_000_000_000_000_000) by (nonlinear_arith)
            requires
                0 <= ax <= 2_000_000_000_000,
        ;
        assert(ay * ay <= 4_000_000_000_000_000_000_000_000) by (nonlinear_arith)
            requires
                0 <= ay <= 2_000_000_000_000,
        ;
        ax * ax + ay * ay
    }
}

/// Machine division rounding toward zero, by a positive divisor.
pub fn div_i64(a: i64, k: i64) -> (r: i64)
    requires
        k > 0,
    ensures
        r == div_toward_zero(a as int, k as int),
{
    if a >= 0 {
        a / k
    } else {
        let n: i128 = -(a as i128);
        let q: i128 = n / (k as i128);
        assert(q <= n) by (nonlinear_arith)
            requires
                n >= 0,
                k >= 1,
                q as int == (n as int) / (k as int),
        ;
        (-q) as i64
    }
}

/// The largest `r` with `r * r <= n`.
pub fn isqrt(n: u128) -> (r: u64)
    requires
        n < 0x1_0000_0000_0000_0000_0000_0000,
    ensures
        is_isqrt(n as int, r as int),
{
    let mut lo: u128 = 0;
    let mut hi: u128 = 0x10_0000_0000_0000;
    assert(hi * hi == 0x100_0000_0000_0000_0000_0000_0000);
    while hi - lo > 1
        invariant
            lo < hi <= 0x10_0000_0000_0000,
            lo * lo <= n,
            n < hi * hi,
        decreases hi - lo,
    {
        let mid: u128 = lo + (hi - lo) / 2;
        assert(mid * mid <= hi * hi) by (nonlinear_arith)
            requires
                0 <= mid <= hi,
        ;
        assert(hi * hi <= 0x100_0000_0000_0000_0000_0000_0000) by (nonlinear_arith)
            requires
                0 <= hi <= 0x10_0000_0000_0000,
        ;
        if mid * mid <= n {
            lo = mid;
        } else {
            hi = mid;
        }
    }
    assert(hi == lo + 1);
    lo as u64
}

impl RawLine {
    pub fn new(a: RawPoint, b: RawPoint) -> (r: RawLine)
        ensures
            r.a == a && r.b == b,
    {
        RawLine { a, b }
    }

    /// Length of the segment, rounded down to an integer.
    pub fn distance(self) -> (r: u64)
        requires
            self.a.in_world(),
            self.b.in_world(),
        ensures
            is_isqrt(sq_dist(self.a, self.b), r as int),
            r * r <= 8_000_000_000_000_000_000_000_000,
    {
        let d = self.a.squared_distance(self.b);
        isqrt(d)
    }

    /// Middle of the segment, each coordinate rounded toward zero.
    pub fn midpoint(self) -> (r: RawPoint)
        ensures
            r.x == div_toward_zero(self.a.x + self.b.x, 2),
            r.y == div_toward_zero(self.a.y + self.b.y, 2),
    {
        let sx: i128 = self.a.x as i128 + self.b.x as i128;
        let sy: i128 = self.a.y as i128 + self.b.y as i128;
        RawPoint { x: div_i128_half(sx), y: div_i128_half(sy) }
    }
}

/// Half of a sum of two machine integers, rounded toward zero.
fn div_i128_half(s: i128) -> (r: i64)
    requires
        2 * (i64::MIN as int) <= s <= 2 * (i64::MAX as int),
    ensures
        r == div_toward_zero(s as int, 2),
{
    if s >= 0 {
        (s / 2) as i64
    } else {
        (-((-s) / 2)) as i64
    }
}

} // verus!
