//! Fixed-point plane geometry.
//!
//! A coordinate is a signed 32-bit integer counting sub-units, `SCALE` of
//! them to one whole unit (a pixel on screen, a tile on the grid). Contracts
//! speak of [`Vector`], the same pair of numbers as unbounded integers.

use vstd::prelude::*;

verus! {

/// Sub-units in one whole unit.
pub const SCALE: i32 = 65536;

/// `SCALE` squared: one whole unit of squared length, in squared sub-units.
pub const SCALE_SQUARED: u64 = 4294967296;

/// The absolute value.
pub open spec fn magnitude(x: int) -> int {
    if x < 0 {
        -x
    } else {
        x
    }
}

/// `q` is the magnitude of one component of the unit vector along a vector
/// with that component `d` and squared length `n`, rounded down to a whole
/// number of sub-units: `q / SCALE <= |d| / sqrt(n) < (q + 1) / SCALE`,
/// written without the root.
pub open spec fn is_unit_magnitude(q: int, d: int, n: int) -> bool {
    &&& 0 <= q
    &&& q * q * n <= d * d * SCALE_SQUARED
    &&& d * d * SCALE_SQUARED < (q + 1) * (q + 1) * n
}

/// The component of the unit vector that stands for component `d` of a vector
/// of squared length `n`: the exact value rounded towards zero.
pub open spec fn unit_component(d: int, n: int) -> int {
    let q = choose|q: int| is_unit_magnitude(q, d, n);
    if d < 0 {
        -q
    } else {
        q
    }
}

/// A point or displacement of the plane, in sub-units, without bounds.
pub struct Vector {
    pub x: int,
    pub y: int,
}

impl Vector {
    /// The origin, or no displacement at all.
    pub open spec fn zero() -> Vector {
        Vector { x: 0, y: 0 }
    }

    /// `x` and `y` whole units.
    pub open spec fn units(x: int, y: int) -> Vector {
        Vector { x: x * SCALE, y: y * SCALE }
    }

    /// The sum, component by component.
    pub open spec fn plus(self, other: Vector) -> Vector {
        Vector { x: self.x + other.x, y: self.y + other.y }
    }

    /// The difference: the displacement from `other` to `self`.
    pub open spec fn minus(self, other: Vector) -> Vector {
        Vector { x: self.x - other.x, y: self.y - other.y }
    }

    /// `k` times the vector.
    pub open spec fn scaled(self, k: int) -> Vector {
        Vector { x: self.x * k, y: self.y * k }
    }

    /// The dot product, in squared sub-units.
    pub open spec fn dot(self, other: Vector) -> int {
        self.x * other.x + self.y * other.y
    }

    /// The squared length, in squared sub-units.
    pub open spec fn norm_squared(self) -> int {
        self.dot(self)
    }

    /// Both components fit the 32 bits of a [`Vec2`].
    pub open spec fn representable(self) -> bool {
        &&& i32::MIN <= self.x <= i32::MAX
        &&& i32::MIN <= self.y <= i32::MAX
    }

    /// The unit vector along `self`, each component rounded towards zero, or
    /// the zero vector where `self` is zero.
    pub open spec fn unit(self) -> Vector {
        if self == Vector::zero() {
            Vector::zero()
        } else {
            Vector {
                x: unit_component(self.x, self.norm_squared()),
                y: unit_component(self.y, self.norm_squared()),
            }
        }
    }

    /// Of length one, up to the rounding of [`Vector::unit`]: no longer than
    /// one unit, and longer than that once each component is moved one
    /// sub-unit away from zero.
    pub open spec fn is_unit(self) -> bool {
        &&& self.norm_squared() <= SCALE_SQUARED
        &&& SCALE_SQUARED < (magnitude(self.x) + 1) * (magnitude(self.x) + 1) + (magnitude(self.y)
            + 1) * (magnitude(self.y) + 1)
    }

    /// What an entity's direction may be: the zero vector or a unit vector.
    pub open spec fn is_direction(self) -> bool {
        self == Vector::zero() || self.is_unit()
    }
}

/// A point or displacement of the plane with fixed-point components.
#[derive(Clone, Copy, PartialEq, Eq, Structural, Debug)]
pub struct Vec2 {
    pub x: i32,
    pub y: i32,
}

impl View for Vec2 {
    type V = Vector;

    open spec fn view(&self) -> Vector {
        Vector { x: self.x as int, y: self.y as int }
    }
}

impl Vec2 {
    /// The vector with the given components, in sub-units.
    pub fn new(x: i32, y: i32) -> (r: Vec2)
        ensures
            r.x == x,
            r.y == y,
    {
        Vec2 { x, y }
    }

    /// The vector of `x` and `y` whole units.
    pub fn from_units(x: i16, y: i16) -> (r: Vec2)
        ensures
            r@ == Vector::units(x as int, y as int),
    {
        let wide_x: i32 = x as i32;
        let wide_y: i32 = y as i32;
        Vec2 { x: wide_x * SCALE, y: wide_y * SCALE }
    }

    /// The zero vector.
    pub fn zero() -> (r: Vec2)
        ensures
            r@ == Vector::zero(),
    {
        Vec2 { x: 0, y: 0 }
    }

    /// The squared distance between two points, in squared sub-units.
    pub fn distance_squared(&self, other: &Vec2) -> (r: u128)
        ensures
            r == other@.minus(self@).norm_squared(),
    {
        let dx: i64 = other.x as i64 - self.x as i64;
        let dy: i64 = other.y as i64 - self.y as i64;
        square(dx) + square(dy)
    }

    /// Whether `self` may be an entity's direction: the zero vector or a unit
    /// vector.
    pub fn is_direction(&self) -> (r: bool)
        ensures
            r == self@.is_direction(),
    {
        if self.x == 0 && self.y == 0 {
            return true;
        }
        let x: i64 = if self.x < 0 { -(self.x as i64) } else { self.x as i64 };
        let y: i64 = if self.y < 0 { -(self.y as i64) } else { self.y as i64 };
        assert(x == magnitude(self.x as int) && y == magnitude(self.y as int));
        assert(x * x == self.x * self.x && y * y == self.y * self.y) by (nonlinear_arith)
            requires
                x == self.x || x == -self.x,
                y == self.y || y == -self.y,
        ;
        let inner: u128 = square(x) + square(y);
        let outer: u128 = square(x + 1) + square(y + 1);
        inner <= SCALE_SQUARED as u128 && (SCALE_SQUARED as u128) < outer
    }

    /// The unit vector along `self`, or the zero vector where `self` is zero.
    pub fn normalize_or_zero(&self) -> (r: Vec2)
        ensures
            r@ == self@.unit(),
            r@.is_direction(),
            self@ == Vector::zero() ==> r@ == Vector::zero(),
    {
        proof {
            lemma_unit_is_direction(self@);
        }
        unit_of(self.x as i64, self.y as i64)
    }
}

/// The unit vector that points from `position` to `destination`, or the zero
/// vector where the two coincide.
pub fn direction(position: &Vec2, destination: &Vec2) -> (r: Vec2)
    ensures
        r@ == destination@.minus(position@).unit(),
        r@.is_direction(),
        position@ == destination@ ==> r@ == Vector::zero(),
{
    proof {
        lemma_unit_is_direction(destination@.minus(position@));
    }
    unit_of(destination.x as i64 - position.x as i64, destination.y as i64 - position.y as i64)
}

/// The square of a difference of two 32-bit numbers.
fn square(d: i64) -> (r: u128)
    requires
        -0x1_0000_0000 < d < 0x1_0000_0000,
    ensures
        r == d * d,
        r < 0x1_0000_0000_0000_0000,
{
    let magnitude: u64 = if d < 0 { (-d) as u64 } else { d as u64 };
    assert(magnitude * magnitude == d * d) by (nonlinear_arith)
        requires
            magnitude == d || magnitude == -d,
    ;
    assert(magnitude * magnitude < 0x1_0000_0000_0000_0000) by (nonlinear_arith)
        requires
            magnitude < 0x1_0000_0000,
    ;
    (magnitude as u128) * (magnitude as u128)
}

/// The magnitude that fits component `d` of a vector of squared length `n`.
fn unit_magnitude(d: i64, n: u128) -> (q: i32)
    requires
        -0x1_0000_0000 < d < 0x1_0000_0000,
        0 < n < 0x2_0000_0000_0000_0000,
        d * d <= n,
    ensures
        is_unit_magnitude(q as int, d as int, n as int),
        q <= SCALE,
{
    let target: u128 = square(d) * (SCALE_SQUARED as u128);
    let mut low: u64 = 0;
    let mut high: u64 = 65537;
    assert(target < high * high * n) by (nonlinear_arith)
        requires
            target == d * d * 4294967296,
            d * d <= n,
            0 < n,
            high == 65537,
    ;
    assert(low * low * n <= target) by (nonlinear_arith)
        requires
            low == 0,
    ;
    while high - low > 1
        invariant
            low < high <= 65537,
            low * low * n <= target < high * high * n,
            n < 0x2_0000_0000_0000_0000,
        decreases high - low,
    {
        let mid: u64 = low + (high - low) / 2;
        assert(mid * mid <= 4295098369) by (nonlinear_arith)
            requires
                mid <= 65537,
        ;
        let mid_squared: u128 = (mid * mid) as u128;
        assert(mid_squared * n < 0x1_0000_0000_0000_0000_0000_0000_0000) by (nonlinear_arith)
            requires
                mid_squared <= 4295098369,
                n < 0x2_0000_0000_0000_0000,
        ;
        if mid_squared * n <= target {
            low = mid;
        } else {
            high = mid;
        }
    }
    low as i32
}

/// The unit vector along `(dx, dy)`.
fn unit_of(dx: i64, dy: i64) -> (r: Vec2)
    requires
        -0x1_0000_0000 < dx < 0x1_0000_0000,
        -0x1_0000_0000 < dy < 0x1_0000_0000,
    ensures
        r@ == (Vector { x: dx as int, y: dy as int }).unit(),
{
    if dx == 0 && dy == 0 {
        return Vec2::zero();
    }
    let n: u128 = square(dx) + square(dy);
    assert(n > 0) by (nonlinear_arith)
        requires
            n == dx * dx + dy * dy,
            dx != 0 || dy != 0,
    ;
    let qx: i32 = unit_magnitude(dx, n);
    let qy: i32 = unit_magnitude(dy, n);
    proof {
        lemma_unit_component(qx as int, dx as int, n as int);
        lemma_unit_component(qy as int, dy as int, n as int);
    }
    Vec2 { x: if dx < 0 { -qx } else { qx }, y: if dy < 0 { -qy } else { qy } }
}

/// A component has a magnitude only in a vector of positive length.
pub proof fn lemma_unit_magnitude_length(q: int, d: int, n: int)
    requires
        is_unit_magnitude(q, d, n),
    ensures
        n > 0,
{
    assert((q + 1) * (q + 1) * n - q * q * n == (2 * q + 1) * n) by (nonlinear_arith);
    assert(n > 0) by (nonlinear_arith)
        requires
            (2 * q + 1) * n > 0,
            q >= 0,
    ;
}

/// At most one magnitude fits a component.
pub proof fn lemma_unit_magnitude_unique(q1: int, q2: int, d: int, n: int)
    requires
        is_unit_magnitude(q1, d, n),
        is_unit_magnitude(q2, d, n),
    ensures
        q1 == q2,
{
    lemma_unit_magnitude_length(q1, d, n);
    lemma_squares_ordered(q1, q2 + 1, n);
    lemma_squares_ordered(q2, q1 + 1, n);
}

/// Among non-negative numbers, the smaller square belongs to the smaller
/// number, whatever positive factor both squares carry.
proof fn lemma_squares_ordered(a: int, b: int, n: int)
    requires
        0 <= a,
        0 <= b,
        0 < n,
        a * a * n < b * b * n,
    ensures
        a < b,
{
    if a >= b {
        assert(b * b <= a * a) by (nonlinear_arith)
            requires
                0 <= b <= a,
        ;
        assert(b * b * n <= a * a * n) by (nonlinear_arith)
            requires
                b * b <= a * a,
                0 < n,
        ;
    }
}

/// A magnitude that fits a component is the component's, up to its sign.
pub proof fn lemma_unit_component(q: int, d: int, n: int)
    requires
        is_unit_magnitude(q, d, n),
    ensures
        unit_component(d, n) == if d < 0 {
            -q
        } else {
            q
        },
{
    let chosen = choose|q: int| is_unit_magnitude(q, d, n);
    lemma_unit_magnitude_unique(chosen, q, d, n);
}

/// Searches upwards from `k` for the magnitude that fits.
proof fn lemma_unit_magnitude_from(k: int, d: int, n: int) -> (q: int)
    requires
        0 <= k <= SCALE,
        0 < n,
        d * d <= n,
        k * k * n <= d * d * SCALE_SQUARED,
    ensures
        is_unit_magnitude(q, d, n),
        k <= q <= SCALE,
    decreases SCALE - k,
{
    if d * d * SCALE_SQUARED < (k + 1) * (k + 1) * n {
        k
    } else {
        assert(k < SCALE) by (nonlinear_arith)
            requires
                (k + 1) * (k + 1) * n <= d * d * 4294967296,
                d * d <= n,
                0 < n,
                0 <= k <= 65536,
        ;
        lemma_unit_magnitude_from(k + 1, d, n)
    }
}

/// Every component of a vector of positive length has its magnitude, at most
/// one whole unit.
pub proof fn lemma_unit_magnitude_exists(d: int, n: int)
    requires
        0 < n,
        d * d <= n,
    ensures
        is_unit_magnitude(magnitude(unit_component(d, n)), d, n),
        magnitude(unit_component(d, n)) <= SCALE,
        d >= 0 ==> unit_component(d, n) >= 0,
        d <= 0 ==> unit_component(d, n) <= 0,
{
    assert(0 * 0 * n <= d * d * SCALE_SQUARED) by (nonlinear_arith);
    let q = lemma_unit_magnitude_from(0, d, n);
    lemma_unit_component(q, d, n);
    if d == 0 {
        assert(q < 1) by (nonlinear_arith)
            requires
                0 <= q,
                q * q * n <= d * d * 4294967296,
                d == 0,
                0 < n,
        ;
    }
}

/// The unit vector along any vector is a direction, and each of its
/// components points the way the vector's component does.
pub proof fn lemma_unit_is_direction(v: Vector)
    ensures
        v.unit().is_direction(),
        v != Vector::zero() ==> v.unit().is_unit(),
        v.x >= 0 ==> 0 <= v.unit().x <= SCALE,
        v.x <= 0 ==> -SCALE <= v.unit().x <= 0,
        v.y >= 0 ==> 0 <= v.unit().y <= SCALE,
        v.y <= 0 ==> -SCALE <= v.unit().y <= 0,
{
    if v != Vector::zero() {
        let n = v.norm_squared();
        assert(v.x * v.x <= n && v.y * v.y <= n && 0 < n) by (nonlinear_arith)
            requires
                n == v.x * v.x + v.y * v.y,
                v.x != 0 || v.y != 0,
        ;
        lemma_unit_magnitude_exists(v.x, n);
        lemma_unit_magnitude_exists(v.y, n);
        let u = v.unit();
        let qx = magnitude(u.x);
        let qy = magnitude(u.y);
        assert(u.x * u.x == qx * qx && u.y * u.y == qy * qy) by (nonlinear_arith)
            requires
                qx == u.x || qx == -u.x,
                qy == u.y || qy == -u.y,
        ;
        assert(qx * qx + qy * qy <= 4294967296) by (nonlinear_arith)
            requires
                qx * qx * n <= v.x * v.x * 4294967296,
                qy * qy * n <= v.y * v.y * 4294967296,
                n == v.x * v.x + v.y * v.y,
                0 < n,
        ;
        assert(4294967296 < (qx + 1) * (qx + 1) + (qy + 1) * (qy + 1)) by (nonlinear_arith)
            requires
                v.x * v.x * 4294967296 < (qx + 1) * (qx + 1) * n,
                v.y * v.y * 4294967296 < (qy + 1) * (qy + 1) * n,
                n == v.x * v.x + v.y * v.y,
                0 < n,
        ;
    }
}

} // verus!
