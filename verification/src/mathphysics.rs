//! Geometry and physics primitives: integer three-dimensional points and
//! vectors, the equation of motion, Euclidean distance, wave lengths and
//! propagation delay.
//!
//! Lengths are millimeters, times are milliseconds, speeds are millimeters
//! per second.  The world is a box: every coordinate is bounded by
//! [`COORD_LIMIT`], which keeps all distance arithmetic inside `u128`.
use vstd::prelude::*;

verus! {

pub type Millisecond = u64;
pub type PowerUnit = u64;
pub type Megahertz = u32;

/// Largest coordinate magnitude, in millimeters (a box a million
/// kilometers wide).
pub const COORD_LIMIT: i64 = 1_000_000_000_000;

/// Upper bound on the distance between two points of the world box:
/// `MAX_DISTANCE * MAX_DISTANCE` exceeds `3 * (2 * COORD_LIMIT)^2`.
pub const MAX_DISTANCE: u64 = 3_500_000_000_000;

/// Largest speed a movement system accepts, in millimeters per second.
pub const MAX_SPEED_LIMIT: u64 = 10_000_000;

/// Largest delay multiplier the model accepts.
pub const MAX_DELAY_MULTIPLIER: u64 = 1_000_000_000;

/// Speed of light, rounded to 300 000 km/s, in millimeters per millisecond.
pub const SPEED_OF_LIGHT_MM_PER_MS: u64 = 300_000_000;

/// Smallest carrier frequency the signal model accepts, in megahertz.
pub const MIN_FREQUENCY_MHZ: u32 = 1_000;

/// Largest carrier frequency the signal model accepts, in megahertz.
pub const MAX_FREQUENCY_MHZ: u32 = 6_000;

/// The two carrier frequencies the simulated radios use.
#[derive(Clone, Copy, Debug, PartialEq, Eq, Structural, Hash)]
pub enum Frequency {
    Control,
    GPS,
}

impl Frequency {
    /// The carrier frequency in megahertz.
    pub open spec fn spec_megahertz(self) -> u32 {
        match self {
            Frequency::Control => 2_400,
            Frequency::GPS => 1_575,
        }
    }

    pub fn megahertz(self) -> (r: Megahertz)
        ensures
            r == self.spec_megahertz(),
            MIN_FREQUENCY_MHZ <= r <= MAX_FREQUENCY_MHZ,
    {
        match self {
            Frequency::Control => 2_400,
            Frequency::GPS => 1_575,
        }
    }
}

/// The wave length of a carrier, in whole millimeters.
pub open spec fn spec_wave_length(frequency: int) -> int {
    300_000int / frequency
}

pub fn wave_length_mm(frequency: Megahertz) -> (r: u64)
    requires
        MIN_FREQUENCY_MHZ <= frequency <= MAX_FREQUENCY_MHZ,
    ensures
        r == spec_wave_length(frequency as int),
        50 <= r <= 300,
{
    proof {
        assert(50 <= 300_000 as int / (frequency as int) <= 300) by (nonlinear_arith)
            requires
                1_000 <= frequency as int <= 6_000,
        ;
    }
    (300_000 / frequency) as u64
}

/// `r` is the integer square root of `n`.
pub open spec fn is_sqrt_floor(n: int, r: int) -> bool {
    &&& 0 <= r
    &&& r * r <= n
    &&& n < (r + 1) * (r + 1)
}

/// The integer square root of a non-negative number.
pub closed spec fn sqrt_floor(n: int) -> int {
    choose|r: int| is_sqrt_floor(n, r)
}

proof fn lemma_sqrt_floor_exists(n: nat)
    ensures
        exists|r: int| is_sqrt_floor(n as int, r),
    decreases n,
{
    if n == 0 {
        assert(is_sqrt_floor(0, 0));
    } else {
        lemma_sqrt_floor_exists((n - 1) as nat);
        let r = choose|r: int| #[trigger] is_sqrt_floor(n as int - 1, r);
        if n < (r + 1) * (r + 1) {
            assert(is_sqrt_floor(n as int, r));
        } else {
            assert((r + 1) * (r + 1) < (r + 2) * (r + 2)) by (nonlinear_arith)
                requires
                    0 <= r,
            ;
            assert(is_sqrt_floor(n as int, r + 1));
        }
    }
}

/// There is only one integer square root.
pub proof fn lemma_sqrt_floor_unique(n: int, r: int)
    requires
        is_sqrt_floor(n, r),
    ensures
        r == sqrt_floor(n),
{
    lemma_sqrt_floor_exists(n as nat);
    let q = sqrt_floor(n);
    assert(is_sqrt_floor(n, q));
    assert(r == q) by (nonlinear_arith)
        requires
            0 <= r,
            r * r <= n,
            n < (r + 1) * (r + 1),
            0 <= q,
            q * q <= n,
            n < (q + 1) * (q + 1),
    ;
}

/// `sqrt_floor` meets its defining property on every non-negative number.
pub proof fn lemma_sqrt_floor_def(n: int)
    requires
        0 <= n,
    ensures
        is_sqrt_floor(n, sqrt_floor(n)),
{
    lemma_sqrt_floor_exists(n as nat);
}

/// The integer square root does not decrease.
pub proof fn lemma_sqrt_floor_monotone(a: int, b: int)
    requires
        0 <= a <= b,
    ensures
        sqrt_floor(a) <= sqrt_floor(b),
{
    lemma_sqrt_floor_def(a);
    lemma_sqrt_floor_def(b);
    let ra = sqrt_floor(a);
    let rb = sqrt_floor(b);
    assert(ra <= rb) by (nonlinear_arith)
        requires
            a <= b,
            0 <= ra,
            ra * ra <= a,
            0 <= rb,
            b < (rb + 1) * (rb + 1),
    ;
}

/// On a perfect square the integer square root recovers the root.
pub proof fn lemma_sqrt_floor_square(x: int)
    requires
        0 <= x,
    ensures
        sqrt_floor(x * x) == x,
{
    assert(x * x < (x + 1) * (x + 1)) by (nonlinear_arith)
        requires
            0 <= x,
    ;
    lemma_sqrt_floor_unique(x * x, x);
}

/// The integer square root, by binary search.
pub fn integer_sqrt(n: u128) -> (r: u64)
    ensures
        r == sqrt_floor(n as int),
        is_sqrt_floor(n as int, r as int),
{
    let mut lo: u128 = 0;
    let mut hi: u128 = 0x1_0000_0000_0000_0000;
    proof {
        assert((0x1_0000_0000_0000_0000 as int) * (0x1_0000_0000_0000_0000 as int)
            > u128::MAX as int);
    }
    while lo + 1 < hi
        invariant
            lo < hi <= 0x1_0000_0000_0000_0000,
            (lo as int) * (lo as int) <= n as int,
            (n as int) < (hi as int) * (hi as int),
        decreases hi - lo,
    {
        let mid: u128 = lo + (hi - lo) / 2;
        proof {
            assert((mid as int) * (mid as int) <= (0xffff_ffff_ffff_ffff as int)
                * (0xffff_ffff_ffff_ffff as int)) by (nonlinear_arith)
                requires
                    0 <= mid as int <= 0xffff_ffff_ffff_ffff as int,
            ;
        }
        if mid * mid <= n {
            lo = mid;
        } else {
            hi = mid;
        }
    }
    proof {
        lemma_sqrt_floor_unique(n as int, lo as int);
    }
    lo as u64
}

/// A point of three-dimensional space, in millimeters.
#[derive(Clone, Copy, Debug, PartialEq, Eq, Structural)]
pub struct Point3D {
    pub x: i64,
    pub y: i64,
    pub z: i64,
}

/// The point lies inside the world box.
pub open spec fn coord_in_bounds(c: int) -> bool {
    -(COORD_LIMIT as int) <= c <= COORD_LIMIT as int
}

pub open spec fn spec_sq(x: int) -> int {
    x * x
}

/// The squared Euclidean distance between two points.
pub open spec fn spec_sq_dist(a: Point3D, b: Point3D) -> int {
    spec_sq(a.x - b.x) + spec_sq(a.y - b.y) + spec_sq(a.z - b.z)
}

/// The Euclidean distance between two points, rounded down to whole
/// millimeters.
pub open spec fn spec_distance(a: Point3D, b: Point3D) -> int {
    sqrt_floor(spec_sq_dist(a, b))
}

/// Squares are non-negative, so squared distances are too.
pub proof fn lemma_sq_dist_nonneg(a: Point3D, b: Point3D)
    ensures
        0 <= spec_sq_dist(a, b),
{
    assert(0 <= spec_sq(a.x - b.x) && 0 <= spec_sq(a.y - b.y) && 0 <= spec_sq(a.z - b.z))
        by (nonlinear_arith);
}

/// Distance does not depend on the order of its arguments.
pub proof fn lemma_distance_symmetric(a: Point3D, b: Point3D)
    ensures
        spec_distance(a, b) == spec_distance(b, a),
{
    assert(spec_sq_dist(a, b) == spec_sq_dist(b, a)) by (nonlinear_arith);
}

/// Distances between points of the world box stay below [`MAX_DISTANCE`].
pub proof fn lemma_distance_bounded(a: Point3D, b: Point3D)
    requires
        a.wf(),
        b.wf(),
    ensures
        0 <= spec_distance(a, b) <= MAX_DISTANCE as int,
{
    lemma_sq_dist_nonneg(a, b);
    lemma_sqrt_floor_def(spec_sq_dist(a, b));
    let s = spec_sq_dist(a, b);
    let r = sqrt_floor(s);
    assert(s <= 12_000_000_000_000_000_000_000_000) by (nonlinear_arith)
        requires
            coord_in_bounds(a.x as int) && coord_in_bounds(a.y as int) && coord_in_bounds(a.z as int),
            coord_in_bounds(b.x as int) && coord_in_bounds(b.y as int) && coord_in_bounds(b.z as int),
            s == spec_sq_dist(a, b),
    ;
    assert(r <= MAX_DISTANCE as int) by (nonlinear_arith)
        requires
            0 <= r,
            r * r <= s,
            s <= 12_000_000_000_000_000_000_000_000,
    ;
}

impl Point3D {
    pub open spec fn wf(self) -> bool {
        &&& coord_in_bounds(self.x as int)
        &&& coord_in_bounds(self.y as int)
        &&& coord_in_bounds(self.z as int)
    }

    pub fn new(x: i64, y: i64, z: i64) -> (r: Self)
        requires
            coord_in_bounds(x as int),
            coord_in_bounds(y as int),
            coord_in_bounds(z as int),
        ensures
            r == (Point3D { x, y, z }),
            r.wf(),
    {
        Self { x, y, z }
    }

    /// The distance to another point, in whole millimeters.
    pub fn distance_to(&self, other: &Point3D) -> (r: u64)
        requires
            self.wf(),
            other.wf(),
        ensures
            r == spec_distance(*self, *other),
            r <= MAX_DISTANCE,
    {
        proof {
            lemma_distance_bounded(*self, *other);
        }
        let dx: i128 = self.x as i128 - other.x as i128;
        let dy: i128 = self.y as i128 - other.y as i128;
        let dz: i128 = self.z as i128 - other.z as i128;
        proof {
            assert(dx * dx == spec_sq(self.x - other.x)
                && dy * dy == spec_sq(self.y - other.y)
                && dz * dz == spec_sq(self.z - other.z)) by (nonlinear_arith)
                requires
                    dx == self.x - other.x,
                    dy == self.y - other.y,
                    dz == self.z - other.z,
            ;
            assert(0 <= dx * dx <= 4_000_000_000_000_000_000_000_000
                && 0 <= dy * dy <= 4_000_000_000_000_000_000_000_000
                && 0 <= dz * dz <= 4_000_000_000_000_000_000_000_000) by (nonlinear_arith)
                requires
                    -2_000_000_000_000 <= dx <= 2_000_000_000_000,
                    -2_000_000_000_000 <= dy <= 2_000_000_000_000,
                    -2_000_000_000_000 <= dz <= 2_000_000_000_000,
            ;
        }
        let sq_sum: u128 = (dx * dx) as u128 + (dy * dy) as u128 + (dz * dz) as u128;
        let r = integer_sqrt(sq_sum);
        proof {
            lemma_sqrt_floor_unique(sq_sum as int, r as int);
        }
        r
    }
}

impl Default for Point3D {
    /// The origin of the world.
    fn default() -> (r: Self)
        ensures
            r == (Point3D { x: 0, y: 0, z: 0 }),
            r.wf(),
    {
        Point3D { x: 0, y: 0, z: 0 }
    }
}

/// The signed scaling `v * t / 1000` with truncation toward zero, as Rust
/// computes it on magnitudes.
pub open spec fn spec_scaled_velocity(v: int, t: int) -> int {
    if v >= 0 {
        v * t / 1000
    } else {
        -((-v) * t / 1000)
    }
}

/// Straight-line motion along one axis: the position after `time`
/// milliseconds at `velocity` millimeters per second.
pub fn equation_of_motion_1d(start_position: i64, velocity: i64, time: Millisecond) -> (r: i64)
    requires
        -4_000_000_000_000 <= start_position as int <= 4_000_000_000_000,
        -4_000_000_000_000 <= velocity as int <= 4_000_000_000_000,
        time <= 1_000,
    ensures
        r == start_position + spec_scaled_velocity(velocity as int, time as int),
        -8_000_000_000_000 <= r as int <= 8_000_000_000_000,
{
    let mag: u64 = if velocity >= 0 { velocity as u64 } else { (-velocity) as u64 };
    proof {
        assert(mag as int * time as int <= 4_000_000_000_000_000) by (nonlinear_arith)
            requires
                0 <= mag as int <= 4_000_000_000_000,
                0 <= time as int <= 1_000,
        ;
        assert(mag as int * time as int / 1000 <= mag as int) by (nonlinear_arith)
            requires
                time as int <= 1_000,
                0 <= mag as int,
        ;
        assert(0 <= mag as int * time as int / 1000) by (nonlinear_arith)
            requires
                0 <= mag as int,
                0 <= time as int,
        ;
    }
    let shift: u64 = mag * time / 1000;
    if velocity >= 0 {
        start_position + shift as i64
    } else {
        start_position - shift as i64
    }
}

/// Straight-line motion in space: `velocity` holds the displacement per
/// second along each axis.
pub fn equation_of_motion_3d(start_position: &Point3D, velocity: &Point3D, time: Millisecond) -> (r: Point3D)
    requires
        start_position.wf(),
        -4_000_000_000_000 <= velocity.x as int <= 4_000_000_000_000,
        -4_000_000_000_000 <= velocity.y as int <= 4_000_000_000_000,
        -4_000_000_000_000 <= velocity.z as int <= 4_000_000_000_000,
        time <= 1_000,
    ensures
        r.x == start_position.x + spec_scaled_velocity(velocity.x as int, time as int),
        r.y == start_position.y + spec_scaled_velocity(velocity.y as int, time as int),
        r.z == start_position.z + spec_scaled_velocity(velocity.z as int, time as int),
{
    Point3D {
        x: equation_of_motion_1d(start_position.x, velocity.x, time),
        y: equation_of_motion_1d(start_position.y, velocity.y, time),
        z: equation_of_motion_1d(start_position.z, velocity.z, time),
    }
}

/// A coordinate pushed back inside the world box.
pub open spec fn spec_clamp_coord(c: int) -> int {
    if c < -(COORD_LIMIT as int) {
        -(COORD_LIMIT as int)
    } else if c > COORD_LIMIT as int {
        COORD_LIMIT as int
    } else {
        c
    }
}

pub fn clamp_coord(c: i64) -> (r: i64)
    requires
        i64::MIN < c,
    ensures
        r == spec_clamp_coord(c as int),
        coord_in_bounds(r as int),
{
    if c < -COORD_LIMIT {
        -COORD_LIMIT
    } else if c > COORD_LIMIT {
        COORD_LIMIT
    } else {
        c
    }
}

/// A directed line segment; its displacement is `terminal - initial`.
#[derive(Clone, Copy, Debug, PartialEq, Eq, Structural)]
pub struct Vector3D {
    pub initial_point: Point3D,
    pub terminal_point: Point3D,
}

impl Vector3D {
    pub open spec fn spec_dx(self) -> int {
        self.terminal_point.x - self.initial_point.x
    }

    pub open spec fn spec_dy(self) -> int {
        self.terminal_point.y - self.initial_point.y
    }

    pub open spec fn spec_dz(self) -> int {
        self.terminal_point.z - self.initial_point.z
    }

    /// Every displacement component is bounded by `limit`.
    pub open spec fn displacement_bounded(self, limit: int) -> bool {
        &&& -limit <= self.spec_dx() <= limit
        &&& -limit <= self.spec_dy() <= limit
        &&& -limit <= self.spec_dz() <= limit
    }

    pub fn new(initial_point: Point3D, terminal_point: Point3D) -> (r: Self)
        ensures
            r == (Vector3D { initial_point, terminal_point }),
    {
        Self { initial_point, terminal_point }
    }

    pub fn zero() -> (r: Self)
        ensures
            r.initial_point == (Point3D { x: 0, y: 0, z: 0 }),
            r.terminal_point == (Point3D { x: 0, y: 0, z: 0 }),
            r.displacement_bounded(0),
    {
        Self {
            initial_point: Point3D { x: 0, y: 0, z: 0 },
            terminal_point: Point3D { x: 0, y: 0, z: 0 },
        }
    }

    /// The length of the vector, in whole millimeters.
    pub fn size(&self) -> (r: u64)
        requires
            self.initial_point.wf(),
            self.terminal_point.wf(),
        ensures
            r == spec_distance(self.initial_point, self.terminal_point),
    {
        self.initial_point.distance_to(&self.terminal_point)
    }

    /// The displacement as a point-like triple.
    pub fn displacement(&self) -> (r: Point3D)
        requires
            self.displacement_bounded(4_000_000_000_000),
        ensures
            r.x == self.spec_dx(),
            r.y == self.spec_dy(),
            r.z == self.spec_dz(),
    {
        Point3D {
            x: self.terminal_point.x - self.initial_point.x,
            y: self.terminal_point.y - self.initial_point.y,
            z: self.terminal_point.z - self.initial_point.z,
        }
    }
}

/// Propagation delay over `distance` at light speed, stretched by
/// `multiplier` and rounded down to a whole number of ticks.
pub open spec fn spec_delay_to(distance: int, multiplier: int) -> int {
    if multiplier == 0 {
        0
    } else {
        let t = distance * multiplier / SPEED_OF_LIGHT_MM_PER_MS as int;
        t - t % (crate::ITERATION_TIME as int)
    }
}

pub fn delay_to(distance: u64, multiplier: u64) -> (r: Millisecond)
    requires
        distance <= 230_000_000_000_000_000,
        multiplier <= MAX_DELAY_MULTIPLIER,
    ensures
        r == spec_delay_to(distance as int, multiplier as int),
        r <= 800_000_000_000_000_000,
{
    if multiplier == 0 {
        return 0;
    }
    proof {
        assert(distance as int * multiplier as int
            <= 230_000_000_000_000_000_000_000_000) by (nonlinear_arith)
            requires
                0 <= distance as int <= 230_000_000_000_000_000,
                0 <= multiplier as int <= MAX_DELAY_MULTIPLIER as int,
        ;
    }
    let product: u128 = distance as u128 * multiplier as u128;
    proof {
        assert(product as int / 300_000_000 <= 800_000_000_000_000_000) by (nonlinear_arith)
            requires
                0 <= product as int <= 230_000_000_000_000_000_000_000_000,
        ;
    }
    let t: u64 = (product / 300_000_000) as u64;
    let remainder: u64 = t % crate::ITERATION_TIME;
    t - remainder
}

} // verus!
