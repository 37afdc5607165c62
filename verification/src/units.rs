//! Fixed-point scalars, points and heading vectors.

use vstd::prelude::*;

verus! {

/// Micro-units per simulation unit, and micro-radians per radian.
pub const UNIT: i64 = 1_000_000;

/// Coordinates are kept within `-COORD_LIMIT ..= COORD_LIMIT` (a thousand units
/// each way), so that squared distances fit in 64 bits.
pub const COORD_LIMIT: i64 = 1_000_000_000;

/// Headings and per-frame rotations are kept within `-ANGLE_LIMIT ..= ANGLE_LIMIT`.
pub const ANGLE_LIMIT: i64 = 1_000_000_000_000_000;

/// Speeds are kept within `-SPEED_LIMIT ..= SPEED_LIMIT` micro-units per tick.
pub const SPEED_LIMIT: i64 = 1_000_000;

/// `v` limited to the interval `lo ..= hi`.
pub open spec fn clamp(v: int, lo: int, hi: int) -> int {
    if v < lo {
        lo
    } else if v > hi {
        hi
    } else {
        v
    }
}

/// The sum of `a` and `b`, limited to `-limit ..= limit`.
pub fn add_clamped(a: i64, b: i64, limit: i64) -> (r: i64)
    requires
        0 <= limit,
    ensures
        r == clamp(a + b, -limit, limit as int),
{
    let sum: i128 = a as i128 + b as i128;
    if sum < -(limit as i128) {
        -limit
    } else if sum > limit as i128 {
        limit
    } else {
        sum as i64
    }
}

/// `clamp(target - current, -limit, limit)`, computed without leaving 64 bits.
pub fn clamped_difference(target: i64, current: i64, limit: i64) -> (r: i64)
    requires
        0 <= limit,
    ensures
        r == clamp(target - current, -limit, limit as int),
{
    let diff: i128 = target as i128 - current as i128;
    if diff < -(limit as i128) {
        -limit
    } else if diff > limit as i128 {
        limit
    } else {
        diff as i64
    }
}

/// The part of `value` carried by a vector component `component / UNIT`,
/// rounded down.
pub open spec fn scaled(value: int, component: int) -> int {
    (value * component) / (UNIT as int)
}

proof fn lemma_product_bound(a: int, b: int, la: int, lb: int)
    by (nonlinear_arith)
    requires
        -la <= a <= la,
        -lb <= b <= lb,
    ensures
        -(la * lb) <= a * b <= la * lb,
{
}

/// Computes [`scaled`].
pub fn scale(value: i64, component: i64) -> (r: i64)
    requires
        -COORD_LIMIT <= value <= COORD_LIMIT,
        -COORD_LIMIT <= component <= COORD_LIMIT,
    ensures
        r == scaled(value as int, component as int),
        -1_000_000_000_000 <= r <= 1_000_000_000_000,
{
    proof {
        lemma_product_bound(
            value as int,
            component as int,
            COORD_LIMIT as int,
            COORD_LIMIT as int,
        );
    }
    let product: i64 = value * component;
    if product >= 0 {
        product / UNIT
    } else {
        let up: i64 = (-product + (UNIT - 1)) / UNIT;
        -up
    }
}

/// `r` is the integer square root of `n`, rounded down.
pub open spec fn is_floor_sqrt(n: int, r: int) -> bool {
    0 <= r && r * r <= n < (r + 1) * (r + 1)
}

proof fn lemma_square_monotonic(a: int, b: int)
    by (nonlinear_arith)
    requires
        0 <= a <= b,
    ensures
        a * a <= b * b,
{
}

/// The floor of a square root is unique.
pub proof fn lemma_floor_sqrt_unique(n: int, r: int, s: int)
    requires
        is_floor_sqrt(n, r),
        is_floor_sqrt(n, s),
    ensures
        r == s,
{
    if r < s {
        lemma_square_monotonic(r + 1, s);
    } else if s < r {
        lemma_square_monotonic(s + 1, r);
    }
}

/// The integer square root of `n`, rounded down.
pub open spec fn floor_sqrt(n: int) -> int {
    choose|r: int| is_floor_sqrt(n, r)
}

/// The integer square root of `n`, rounded down.
pub fn isqrt(n: u64) -> (r: u64)
    ensures
        is_floor_sqrt(n as int, r as int),
        r == floor_sqrt(n as int),
        r <= 0xFFFF_FFFF,
{
    let mut lo: u64 = 0;
    let mut hi: u64 = 0x1_0000_0000;
    assert(0x1_0000_0000int * 0x1_0000_0000int > n);
    while hi - lo > 1
        invariant
            lo < hi <= 0x1_0000_0000,
            lo * lo <= n < hi * hi,
        decreases hi - lo,
    {
        let mid: u64 = lo + (hi - lo) / 2;
        proof {
            lemma_square_monotonic(mid as int, 0xFFFF_FFFF);
        }
        let square: u64 = mid * mid;
        if square <= n {
            lo = mid;
        } else {
            hi = mid;
        }
    }
    proof {
        lemma_floor_sqrt_unique(n as int, lo as int, floor_sqrt(n as int));
    }
    lo
}

/// A position, or a displacement, in micro-units.
#[derive(Clone, Copy, PartialEq, Eq, Structural, Debug)]
pub struct Point {
    pub x: i64,
    pub y: i64,
}

/// The unit vector of a heading, scaled by [`UNIT`]: `sin` is its sine and
/// `cos` its cosine. A heading of zero points along the y axis.
#[derive(Clone, Copy, PartialEq, Eq, Structural, Debug)]
pub struct Direction {
    pub sin: i64,
    pub cos: i64,
}

impl Direction {
    /// Neither component is longer than the unit.
    pub open spec fn wf(self) -> bool {
        &&& -UNIT <= self.sin <= UNIT
        &&& -UNIT <= self.cos <= UNIT
    }

    /// Whether the vector is well formed.
    pub fn is_valid(&self) -> (b: bool)
        ensures
            b == self.wf(),
    {
        -UNIT <= self.sin && self.sin <= UNIT && -UNIT <= self.cos && self.cos <= UNIT
    }
}

impl Point {
    /// Both coordinates lie within the coordinate limit.
    pub open spec fn wf(self) -> bool {
        &&& -COORD_LIMIT <= self.x <= COORD_LIMIT
        &&& -COORD_LIMIT <= self.y <= COORD_LIMIT
    }

    /// The point moved by `(dx, dy)`, each coordinate limited to the
    /// coordinate limit.
    pub open spec fn shifted(self, dx: int, dy: int) -> Point {
        Point {
            x: clamp(self.x + dx, -COORD_LIMIT as int, COORD_LIMIT as int) as i64,
            y: clamp(self.y + dy, -COORD_LIMIT as int, COORD_LIMIT as int) as i64,
        }
    }

    /// The point reached from `self` by moving `speed` along `facing`.
    pub open spec fn advanced(self, speed: int, facing: Direction) -> Point {
        self.shifted(scaled(speed, facing.sin as int), scaled(speed, facing.cos as int))
    }

    /// The squared distance between two points.
    pub open spec fn distance_squared_spec(self, other: Point) -> int {
        (self.x - other.x) * (self.x - other.x) + (self.y - other.y) * (self.y - other.y)
    }

    /// Whether the point is well formed.
    pub fn is_wf(&self) -> (b: bool)
        ensures
            b == self.wf(),
    {
        -COORD_LIMIT <= self.x && self.x <= COORD_LIMIT && -COORD_LIMIT <= self.y && self.y
            <= COORD_LIMIT
    }

    /// The origin of the arena.
    pub fn origin() -> (p: Point)
        ensures
            p == (Point { x: 0, y: 0 }),
            p.wf(),
    {
        Point { x: 0, y: 0 }
    }

    /// The point `(x, y)`, each coordinate limited to the coordinate limit.
    pub fn new(x: i64, y: i64) -> (p: Point)
        ensures
            p == (Point { x: 0, y: 0 }).shifted(x as int, y as int),
            p.wf(),
    {
        Point { x: add_clamped(0, x, COORD_LIMIT), y: add_clamped(0, y, COORD_LIMIT) }
    }

    /// Moves the point by `(dx, dy)` and returns the result.
    pub fn shift(&self, dx: i64, dy: i64) -> (p: Point)
        ensures
            p == self.shifted(dx as int, dy as int),
            p.wf(),
    {
        Point {
            x: add_clamped(self.x, dx, COORD_LIMIT),
            y: add_clamped(self.y, dy, COORD_LIMIT),
        }
    }

    /// Moves the point by `speed` along `facing` and returns the result.
    pub fn advance(&self, speed: i64, facing: Direction) -> (p: Point)
        requires
            -COORD_LIMIT <= speed <= COORD_LIMIT,
            facing.wf(),
        ensures
            p == self.advanced(speed as int, facing),
            p.wf(),
    {
        self.shift(scale(speed, facing.sin), scale(speed, facing.cos))
    }

    /// The squared distance to `other`.
    pub fn distance_squared(&self, other: &Point) -> (d: u64)
        requires
            self.wf(),
            other.wf(),
        ensures
            d == self.distance_squared_spec(*other),
            d <= 8_000_000_000_000_000_000,
    {
        let dx: i64 = self.x - other.x;
        let dy: i64 = self.y - other.y;
        proof {
            lemma_product_bound(dx as int, dx as int, 2 * COORD_LIMIT, 2 * COORD_LIMIT);
            lemma_product_bound(dy as int, dy as int, 2 * COORD_LIMIT, 2 * COORD_LIMIT);
            lemma_square_nonnegative(dx as int);
            lemma_square_nonnegative(dy as int);
        }
        let sx: i64 = dx * dx;
        let sy: i64 = dy * dy;
        (sx + sy) as u64
    }

    /// The distance to `other`, rounded down to a whole micro-unit.
    pub fn distance(&self, other: &Point) -> (d: i64)
        requires
            self.wf(),
            other.wf(),
        ensures
            d == floor_sqrt(self.distance_squared_spec(*other)),
            is_floor_sqrt(self.distance_squared_spec(*other), d as int),
            0 <= d <= 3_000_000_000,
    {
        let root: u64 = isqrt(self.distance_squared(other));
        proof {
            if root > 3_000_000_000 {
                lemma_square_monotonic(3_000_000_001, root as int);
            }
        }
        root as i64
    }
}

proof fn lemma_square_nonnegative(a: int)
    by (nonlinear_arith)
    ensures
        a * a >= 0,
{
}

/// Whether two points are at least `radius` apart, decided on the squares.
pub open spec fn at_least_apart(a: Point, b: Point, radius: int) -> bool {
    a.distance_squared_spec(b) >= radius * radius
}

/// Decides [`at_least_apart`].
pub fn is_at_least_apart(a: &Point, b: &Point, radius: i64) -> (r: bool)
    requires
        a.wf(),
        b.wf(),
        0 <= radius <= 2 * COORD_LIMIT,
    ensures
        r == at_least_apart(*a, *b, radius as int),
{
    proof {
        lemma_square_monotonic(radius as int, 2_000_000_000);
    }
    let side: u64 = radius as u64;
    a.distance_squared(b) >= side * side
}

} // verus!
