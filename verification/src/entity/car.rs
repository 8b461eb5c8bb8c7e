//! A car and the rule that steers it to its destination.
//!
//! A car is *seeking* until a tick finds it within reach of its destination;
//! that tick puts it exactly there and stops it, and it has *arrived*. From
//! then on a tick changes nothing.

use crate::math::{
    direction, lemma_unit_is_direction, lemma_unit_magnitude_exists, magnitude, Vec2, Vector,
    SCALE, SCALE_SQUARED,
};
use vstd::prelude::*;

verus! {

/// An entity that moves across the screen.
#[derive(Clone, Copy, PartialEq, Eq, Structural, Debug)]
pub struct Car {
    /// Where the car is.
    pub pos: Vec2,
    /// Where the car is heading: a unit vector, or zero while it stands.
    pub dir: Vec2,
    /// Whole units covered in one tick.
    pub speed: u16,
    /// Where the car is going.
    pub dest: Vec2,
}

/// Radius of the disc that marks a car on screen: ten whole units.
pub const CAR_RADIUS: i32 = 10 * SCALE;

/// The disc that marks a car on screen, in sub-units.
#[derive(Clone, Copy, PartialEq, Eq, Structural, Debug)]
pub struct Marker {
    pub center: Vec2,
    pub radius: i32,
}

/// A car's state over unbounded integers.
pub struct CarState {
    pub pos: Vector,
    pub dir: Vector,
    pub speed: int,
    pub dest: Vector,
}

impl View for Car {
    type V = CarState;

    open spec fn view(&self) -> CarState {
        CarState { pos: self.pos@, dir: self.dir@, speed: self.speed as int, dest: self.dest@ }
    }
}

impl CarState {
    /// The squared distance left to the destination, in squared sub-units.
    pub open spec fn distance_squared(self) -> int {
        self.dest.minus(self.pos).norm_squared()
    }

    /// The arrival test of a tick: the squared distance left, in squared
    /// whole units, is below the speed. The speed itself, not its square: a
    /// car of speed 5 is within reach less than the square root of 5 units
    /// from its destination, though it covers 5 units in a tick.
    pub open spec fn within_reach(self) -> bool {
        self.distance_squared() < self.speed * SCALE_SQUARED
    }

    /// At the destination and at rest.
    pub open spec fn arrived(self) -> bool {
        self.pos == self.dest && self.dir == Vector::zero()
    }

    /// The state with the direction turned towards `destination`.
    pub open spec fn pointed_to(self, destination: Vector) -> CarState {
        CarState { dir: destination.minus(self.pos).unit(), ..self }
    }

    /// The state one tick later, had the car kept its direction.
    pub open spec fn advanced(self) -> CarState {
        CarState { pos: self.pos.plus(self.dir.scaled(self.speed)), ..self }
    }

    /// The state one tick later.
    pub open spec fn step(self) -> CarState {
        if self.within_reach() {
            CarState { pos: self.dest, dir: Vector::zero(), ..self }
        } else {
            self.pointed_to(self.dest).advanced()
        }
    }

    /// What holds of every car in play: its speed is not negative, and its
    /// direction is zero or a unit vector.
    pub open spec fn well_formed(self) -> bool {
        &&& 0 <= self.speed
        &&& self.dir.is_direction()
    }

    /// The car is on the plane of representable points, and its destination
    /// lies at least one tick's travel inside that plane.
    pub open spec fn steerable(self) -> bool {
        &&& 0 <= self.speed
        &&& self.pos.representable()
        &&& self.dest.minus(Vector::units(self.speed, self.speed)).representable()
        &&& self.dest.plus(Vector::units(self.speed, self.speed)).representable()
    }
}

impl Car {
    /// A car at rest or under way at `pos`, with nowhere else to go yet.
    pub fn new(pos: Vec2, dir: Vec2, speed: u16) -> (car: Car)
        ensures
            car.pos == pos,
            car.dir == dir,
            car.speed == speed,
            car.dest == pos,
            car@.well_formed() <==> dir@.is_direction(),
    {
        Car { pos, dir, speed, dest: Vec2 { x: pos.x, y: pos.y } }
    }

    /// Turns the car towards `destination`.
    pub fn point_to(&mut self, destination: &Vec2)
        ensures
            final(self)@ == old(self)@.pointed_to(destination@),
            final(self)@.well_formed(),
    {
        proof {
            lemma_unit_is_direction(destination@.minus(self.pos@));
        }
        let dir: Vec2 = direction(&self.pos, destination);
        self.dir.x = dir.x;
        self.dir.y = dir.y;
    }

    /// Moves the car one tick along its direction.
    pub fn advance(&mut self)
        requires
            old(self)@.advanced().pos.representable(),
        ensures
            final(self)@ == old(self)@.advanced(),
            old(self)@.well_formed() ==> final(self)@.well_formed(),
    {
        let x: i64 = self.pos.x as i64 + self.dir.x as i64 * self.speed as i64;
        let y: i64 = self.pos.y as i64 + self.dir.y as i64 * self.speed as i64;
        self.pos.x = x as i32;
        self.pos.y = y as i32;
    }

    /// One tick of steering. Returns whether the car is within reach of its
    /// destination, in which case it now stands there.
    pub fn update(&mut self) -> (arrived: bool)
        requires
            old(self)@.step().pos.representable(),
        ensures
            final(self)@ == old(self)@.step(),
            final(self)@.well_formed(),
            arrived == old(self)@.within_reach(),
            arrived ==> final(self)@.arrived(),
    {
        let distance: u128 = self.pos.distance_squared(&self.dest);
        if distance < self.speed as u128 * SCALE_SQUARED as u128 {
            self.pos.x = self.dest.x;
            self.pos.y = self.dest.y;
            self.dir.x = 0;
            self.dir.y = 0;
            true
        } else {
            let destination: Vec2 = self.dest;
            self.point_to(&destination);
            self.advance();
            false
        }
    }

    /// The disc to paint for the car: centred where the car is.
    pub fn draw(&self) -> (marker: Marker)
        ensures
            marker.center == self.pos,
            marker.radius == CAR_RADIUS,
    {
        Marker { center: self.pos, radius: CAR_RADIUS }
    }

    /// Whether the car's destination lies far enough inside the plane of
    /// representable points for the car never to leave that plane.
    pub fn steerable(&self) -> (r: bool)
        ensures
            r == self@.steerable(),
    {
        let reach: i64 = self.speed as i64 * SCALE as i64;
        let low: i64 = i32::MIN as i64 + reach;
        let high: i64 = i32::MAX as i64 - reach;
        low <= self.dest.x as i64 && self.dest.x as i64 <= high && low <= self.dest.y as i64
            && self.dest.y as i64 <= high
    }

    /// Whether the car stands at its destination.
    pub fn arrived(&self) -> (r: bool)
        ensures
            r == self@.arrived(),
    {
        self.pos.x == self.dest.x && self.pos.y == self.dest.y && self.dir.x == 0 && self.dir.y == 0
    }
}

/// A tick that finds the car within reach of its destination puts it exactly
/// there, at rest.
pub proof fn lemma_step_within_reach_arrives(car: CarState)
    requires
        car.within_reach(),
    ensures
        car.step().arrived(),
        car.step().pos == car.dest,
        car.step().dir == Vector::zero(),
{
}

/// A tick changes nothing about a car that has arrived.
pub proof fn lemma_step_after_arrival(car: CarState)
    requires
        car.arrived(),
    ensures
        car.step() == car,
{
    assert(car.dest.minus(car.pos) == Vector::zero());
    assert(0 * car.speed == 0);
}

/// A tick leaves speed and destination alone, and leaves the car with a
/// direction that is zero or a unit vector, whatever its direction was.
pub proof fn lemma_step_keeps_course(car: CarState)
    ensures
        car.step().speed == car.speed,
        car.step().dest == car.dest,
        car.step().dir.is_direction(),
        0 <= car.speed ==> car.step().well_formed(),
{
    lemma_unit_is_direction(car.dest.minus(car.pos));
}

/// A tick that finds the car out of reach moves it by exactly its speed times
/// the unit vector towards the destination.
pub proof fn lemma_step_out_of_reach_advances(car: CarState)
    requires
        !car.within_reach(),
    ensures
        car.step().dir == car.dest.minus(car.pos).unit(),
        car.step().pos == car.pos.plus(car.step().dir.scaled(car.speed)),
{
}

/// How much closer a tick brings a car that it finds out of reach: with `way`
/// the way left before the tick and `dir` the direction the tick gives the
/// car, the squared distance shrinks by `speed * (2 * way.dir - speed *
/// dir.dir)`, which may be negative.
pub proof fn lemma_step_out_of_reach_gain(car: CarState)
    requires
        !car.within_reach(),
    ensures
        car.distance_squared() - car.step().distance_squared() == car.speed * (2
            * car.dest.minus(car.pos).dot(car.step().dir) - car.speed
            * car.step().dir.norm_squared()),
{
    let d = car.dest.minus(car.pos);
    let u = car.step().dir;
    let s = car.speed;
    let after = car.step().dest.minus(car.step().pos);
    assert(after.x == d.x - u.x * s && after.y == d.y - u.y * s);
    assert(d.x * d.x - after.x * after.x == s * (2 * (d.x * u.x) - s * (u.x * u.x)))
        by (nonlinear_arith)
        requires
            after.x == d.x - u.x * s,
    ;
    assert(d.y * d.y - after.y * after.y == s * (2 * (d.y * u.y) - s * (u.y * u.y)))
        by (nonlinear_arith)
        requires
            after.y == d.y - u.y * s,
    ;
    assert(s * (2 * (d.x * u.x) - s * (u.x * u.x)) + s * (2 * (d.y * u.y) - s * (u.y * u.y)) == s
        * (2 * (d.x * u.x + d.y * u.y) - s * (u.x * u.x + u.y * u.y))) by (nonlinear_arith);
}

/// For one component of the way left: moving by `s` times the rounded unit
/// component `a` does not overshoot by more than it gains, as long as the
/// speed stays below twice the distance.
proof fn lemma_component_gain(a: int, b: int, s: int, n: int)
    requires
        0 <= a,
        0 <= b,
        0 < s,
        0 < n,
        a * a * n <= b * b * SCALE_SQUARED,
        s * s * SCALE_SQUARED < 4 * n,
    ensures
        s * (a * a) <= 2 * (a * b),
        a > 0 ==> s * (a * a) < 2 * (a * b),
{
    if a > 0 {
        if s * a >= 2 * b {
            assert((s * a) * (s * a) >= (2 * b) * (2 * b)) by (nonlinear_arith)
                requires
                    s * a >= 2 * b,
                    0 <= b,
            ;
            assert(s * s * (a * a * n) >= 4 * (b * b) * n) by (nonlinear_arith)
                requires
                    (s * a) * (s * a) >= (2 * b) * (2 * b),
                    0 < n,
            ;
            assert(s * s * (a * a * n) <= (b * b) * (s * s * 4294967296)) by (nonlinear_arith)
                requires
                    a * a * n <= b * b * 4294967296,
                    0 < s,
            ;
            assert(b * b <= 0) by (nonlinear_arith)
                requires
                    4 * (b * b) * n <= (b * b) * (s * s * 4294967296),
                    s * s * 4294967296 < 4 * n,
            ;
            assert(b == 0) by (nonlinear_arith)
                requires
                    b * b <= 0,
            ;
            assert(a * a <= 0) by (nonlinear_arith)
                requires
                    a * a * n <= b * b * 4294967296,
                    b == 0,
                    0 < n,
            ;
            assert(false) by (nonlinear_arith)
                requires
                    a * a <= 0,
                    a > 0,
            ;
        }
        assert(s * (a * a) < 2 * (a * b)) by (nonlinear_arith)
            requires
                s * a < 2 * b,
                a > 0,
        ;
    } else {
        assert(s * (a * a) == 0 && 2 * (a * b) == 0) by (nonlinear_arith)
            requires
                a == 0,
        ;
    }
}

/// A tick that finds the car out of reach brings it strictly closer to its
/// destination, provided the car moves at all and its speed is below twice
/// the distance left (a faster car jumps past the destination and lands
/// farther away than it was).
pub proof fn lemma_step_out_of_reach_approaches(car: CarState)
    requires
        !car.within_reach(),
        0 < car.speed,
        car.speed * car.speed * SCALE_SQUARED < 4 * car.distance_squared(),
    ensures
        car.step().distance_squared() < car.distance_squared(),
{
    let d = car.dest.minus(car.pos);
    let n = d.norm_squared();
    let s = car.speed;
    let u = d.unit();
    let ax = magnitude(u.x);
    let ay = magnitude(u.y);
    let bx = magnitude(d.x);
    let by = magnitude(d.y);
    assert(0 < n) by (nonlinear_arith)
        requires
            s * s * 4294967296 < 4 * n,
    ;
    assert(d.x * d.x <= n && d.y * d.y <= n) by (nonlinear_arith)
        requires
            n == d.x * d.x + d.y * d.y,
    ;
    assert(d != Vector::zero()) by {
        if d == Vector::zero() {
            assert(n == 0) by (nonlinear_arith)
                requires
                    n == d.x * d.x + d.y * d.y,
                    d.x == 0,
                    d.y == 0,
            ;
        }
    }
    lemma_unit_magnitude_exists(d.x, n);
    lemma_unit_magnitude_exists(d.y, n);
    lemma_unit_is_direction(d);
    assert(bx * bx == d.x * d.x && by * by == d.y * d.y) by (nonlinear_arith)
        requires
            bx == d.x || bx == -d.x,
            by == d.y || by == -d.y,
    ;
    lemma_component_gain(ax, bx, s, n);
    lemma_component_gain(ay, by, s, n);
    assert(ax > 0 || ay > 0) by {
        if ax == 0 && ay == 0 {
            assert((ax + 1) * (ax + 1) + (ay + 1) * (ay + 1) == 2) by (nonlinear_arith)
                requires
                    ax == 0,
                    ay == 0,
            ;
        }
    }
    assert(u.x * u.x == ax * ax && u.x * d.x == ax * bx) by (nonlinear_arith)
        requires
            (u.x == ax && d.x == bx) || (u.x == -ax && d.x == -bx),
    ;
    assert(u.y * u.y == ay * ay && u.y * d.y == ay * by) by (nonlinear_arith)
        requires
            (u.y == ay && d.y == by) || (u.y == -ay && d.y == -by),
    ;
    lemma_step_out_of_reach_gain(car);
    assert(0 < s * (2 * (d.x * u.x + d.y * u.y) - s * (u.x * u.x + u.y * u.y)))
        by (nonlinear_arith)
        requires
            0 < s,
            u.x * u.x == ax * ax,
            u.y * u.y == ay * ay,
            u.x * d.x == ax * bx,
            u.y * d.y == ay * by,
            s * (ax * ax) <= 2 * (ax * bx),
            s * (ay * ay) <= 2 * (ay * by),
            s * (ax * ax) < 2 * (ax * bx) || s * (ay * ay) < 2 * (ay * by),
    ;
}

/// A tick keeps a steerable car steerable: where the destination lies at
/// least one tick's travel inside the representable plane, the car never
/// leaves that plane.
pub proof fn lemma_step_stays_steerable(car: CarState)
    requires
        car.steerable(),
    ensures
        car.step().pos.representable(),
        car.step().steerable(),
{
    if !car.within_reach() {
        let d = car.dest.minus(car.pos);
        let u = d.unit();
        let s = car.speed;
        lemma_unit_is_direction(d);
        assert(d.x >= 0 ==> 0 <= u.x * s <= s * SCALE) by (nonlinear_arith)
            requires
                d.x >= 0 ==> 0 <= u.x <= SCALE,
                0 <= s,
        ;
        assert(d.x <= 0 ==> -(s * SCALE) <= u.x * s <= 0) by (nonlinear_arith)
            requires
                d.x <= 0 ==> -SCALE <= u.x <= 0,
                0 <= s,
        ;
        assert(d.y >= 0 ==> 0 <= u.y * s <= s * SCALE) by (nonlinear_arith)
            requires
                d.y >= 0 ==> 0 <= u.y <= SCALE,
                0 <= s,
        ;
        assert(d.y <= 0 ==> -(s * SCALE) <= u.y * s <= 0) by (nonlinear_arith)
            requires
                d.y <= 0 ==> -SCALE <= u.y <= 0,
                0 <= s,
        ;
    }
}

} // verus!
