//! An immutable 3D point plus a timestamp, planar distance between points,
//! and the dead-reckoning position update.
//!
//! Coordinates are fixed-point milli-units; timestamps are seconds.

use vstd::prelude::*;
use crate::math::{abs_val, clamp_coord, clamp_coord_spec, displacement, isqrt,
    scaled_displacement, COORD_LIMIT, TIME_LIMIT, TRIG_ONE};
use crate::trig::{cos_milli, cos_of_heading, sin_milli, sin_of_heading};

verus! {

/// The timestamp a default-constructed location carries:
/// 2000-01-01 00:00:00 in epoch seconds.
pub const DEFAULT_TIME: i64 = 946_684_800;

#[derive(Clone, Copy, PartialEq, Eq, Structural, Debug)]
pub struct Location {
    pub x: i64,
    pub y: i64,
    pub z: i64,
    pub t: i64,
}

impl Location {
    /// All coordinates and the timestamp lie in the ranges the arithmetic
    /// of the simulator is proved for.
    pub open spec fn valid(self) -> bool {
        &&& abs_val(self.x as int) <= COORD_LIMIT as int
        &&& abs_val(self.y as int) <= COORD_LIMIT as int
        &&& abs_val(self.z as int) <= COORD_LIMIT as int
        &&& abs_val(self.t as int) <= TIME_LIMIT as int
    }

    pub open spec fn time(self) -> int {
        self.t as int
    }

    pub fn new(x: i64, y: i64, z: i64, t: i64) -> (r: Location)
        requires
            abs_val(x as int) <= COORD_LIMIT as int,
            abs_val(y as int) <= COORD_LIMIT as int,
            abs_val(z as int) <= COORD_LIMIT as int,
            abs_val(t as int) <= TIME_LIMIT as int,
        ensures
            r == (Location { x, y, z, t }),
            r.valid(),
    {
        Location { x, y, z, t }
    }

    pub fn new2(x: i64, y: i64, t: i64) -> (r: Location)
        requires
            abs_val(x as int) <= COORD_LIMIT as int,
            abs_val(y as int) <= COORD_LIMIT as int,
            abs_val(t as int) <= TIME_LIMIT as int,
        ensures
            r == (Location { x, y, z: 0i64, t }),
            r.valid(),
    {
        Location::new(x, y, 0, t)
    }

    pub fn get_xyz(&self) -> (r: (i64, i64, i64))
        ensures
            r == (self.x, self.y, self.z),
    {
        (self.x, self.y, self.z)
    }

    pub fn get_t(&self) -> (r: i64)
        ensures
            r as int == self.time(),
    {
        self.t
    }

    /// The squared planar distance between two points; the z components are
    /// ignored.
    pub open spec fn dist_sq(self, other: Location) -> int {
        let dx = self.x as int - other.x as int;
        let dy = self.y as int - other.y as int;
        dx * dx + dy * dy
    }

    /// The planar distance between two locations, in milli-units: the floor
    /// of the square root of the squared distance.
    pub fn distance(&self, other: &Location) -> (r: i64)
        requires
            self.valid(),
            other.valid(),
        ensures
            r >= 0,
            (r as int) * (r as int) <= self.dist_sq(*other),
            self.dist_sq(*other) < (r as int + 1) * (r as int + 1),
    {
        let dx: i64 = self.x - other.x;
        let dy: i64 = self.y - other.y;
        proof {
            assert(0 <= (dx as int) * (dx as int) <= 4_000_000_000_000_000_000_000_000_000_000_000_000
                && 0 <= (dy as int) * (dy as int)
                <= 4_000_000_000_000_000_000_000_000_000_000_000_000) by (nonlinear_arith)
                requires
                    abs_val(dx as int) <= 2_000_000_000_000_000_000,
                    abs_val(dy as int) <= 2_000_000_000_000_000_000,
            ;
        }
        let qx: u128 = ((dx as i128) * (dx as i128)) as u128;
        let qy: u128 = ((dy as i128) * (dy as i128)) as u128;
        let n: u128 = qx + qy;
        let r: u128 = isqrt(n);
        proof {
            assert(r <= 3_000_000_000_000_000_000u128) by (nonlinear_arith)
                requires
                    (r as int) * (r as int) <= n as int,
                    n <= 8_000_000_000_000_000_000_000_000_000_000_000_000u128,
            ;
        }
        r as i64
    }
}

impl Default for Location {
    /// The origin, at the default timestamp.
    fn default() -> (r: Location)
        ensures
            r == (Location { x: 0i64, y: 0i64, z: 0i64, t: DEFAULT_TIME }),
            r.valid(),
    {
        Location { x: 0, y: 0, z: 0, t: DEFAULT_TIME }
    }
}

/// The location reached by dead reckoning: travelling from `loc` with the
/// given heading (milli-degrees, clockwise from +y) and speed (milli-units
/// per hour) from `prev` to `curr` (seconds).  Each planar coordinate moves
/// by the scaled displacement and saturates at the coordinate range; z is
/// kept; the timestamp becomes `curr`.
pub open spec fn advanced_location(
    loc: Location,
    heading: int,
    speed: int,
    curr: int,
    prev: int,
) -> Location {
    Location {
        x: clamp_coord_spec(loc.x + displacement(speed, curr - prev, sin_milli(heading))) as i64,
        y: clamp_coord_spec(loc.y + displacement(speed, curr - prev, cos_milli(heading))) as i64,
        z: loc.z,
        t: curr as i64,
    }
}

/// On any heading, the displacement along each axis is bounded by the
/// distance travelled: speed times elapsed seconds over 3600.
pub proof fn lemma_displacement_bounded(speed: int, elapsed: int, trig: int)
    requires
        abs_val(trig) <= TRIG_ONE as int,
    ensures
        abs_val(displacement(speed, elapsed, trig)) <= abs_val(speed * elapsed) / 3600,
{
    let a = abs_val(speed * elapsed) / 3600;
    assert(0 <= (a * abs_val(trig)) / 1_000_000 <= a) by (nonlinear_arith)
        requires
            a >= 0,
            0 <= abs_val(trig) <= 1_000_000,
    ;
}

/// The displacement's direction follows the heading: for forward motion,
/// headings east of north (0 to 180 degrees) never move the point west,
/// and headings west of north (180 to 360 degrees) never move it east.
pub proof fn lemma_displacement_direction(heading: int, speed: int, elapsed: int)
    requires
        0 <= speed,
        0 <= elapsed,
        0 <= heading <= 360_000,
    ensures
        heading <= 180_000 ==> displacement(speed, elapsed, sin_milli(heading)) >= 0,
        heading >= 180_000 ==> displacement(speed, elapsed, sin_milli(heading)) <= 0,
{
    crate::trig::lemma_sin_sign(heading);
    let s = sin_milli(heading);
    let p = speed * elapsed;
    assert(p >= 0) by (nonlinear_arith)
        requires
            p == speed * elapsed,
            speed >= 0,
            elapsed >= 0,
    ;
    let mag = ((abs_val(p) / 3600) * abs_val(s)) / (TRIG_ONE as int);
    assert(mag >= 0) by (nonlinear_arith)
        requires
            abs_val(p) >= 0,
            abs_val(s) >= 0,
            mag == ((abs_val(p) / 3600) * abs_val(s)) / 1_000_000,
    ;
    if s == 0 {
        assert(mag == 0) by (nonlinear_arith)
            requires
                abs_val(s) == 0,
                mag == ((abs_val(p) / 3600) * abs_val(s)) / 1_000_000,
        ;
    }
}

/// Dead-reckoning round trip along the east axis: advancing from `loc` on
/// heading 90 degrees for a duration moves exactly `speed * elapsed / 3600`
/// milli-units east and nothing north; advancing the result west (270
/// degrees) for the same duration returns to the starting planar point.
/// The displacement magnitude therefore equals speed times hours, and its
/// direction matches the heading, exactly on the cardinal axes.
pub proof fn lemma_dead_reckoning_round_trip(loc: Location, speed: i64, prev: i64, mid: i64, curr: i64)
    requires
        loc.valid(),
        0 <= speed <= COORD_LIMIT,
        prev <= mid <= curr,
        abs_val(prev as int) <= TIME_LIMIT as int,
        abs_val(mid as int) <= TIME_LIMIT as int,
        abs_val(curr as int) <= TIME_LIMIT as int,
        curr - mid == mid - prev,
        abs_val(loc.x + (speed * (mid - prev)) / 3600) <= COORD_LIMIT as int,
    ensures
        ({
            let d = (speed * (mid as int - prev as int)) / 3600;
            let there = advanced_location(loc, 90_000, speed as int, mid as int, prev as int);
            let back = advanced_location(there, 270_000, speed as int, curr as int, mid as int);
            there.x == loc.x + d && there.y == loc.y && there.z == loc.z && back.x == loc.x
                && back.y == loc.y
        }),
{
    let e = mid as int - prev as int;
    let p = speed * e;
    assert(p >= 0) by (nonlinear_arith)
        requires
            p == speed * e,
            speed >= 0,
            e >= 0,
    ;
    let d = p / 3600;
    crate::trig::lemma_trig_cardinal();
    assert(displacement(speed as int, e, TRIG_ONE as int) == d) by (nonlinear_arith)
        requires
            p >= 0,
            p == speed * e,
            d == p / 3600,
            displacement(speed as int, e, TRIG_ONE as int) == ((abs_val(speed * e) / 3600) * abs_val(
                TRIG_ONE as int,
            )) / (TRIG_ONE as int),
    ;
    assert(displacement(speed as int, e, -(TRIG_ONE as int)) == -d) by (nonlinear_arith)
        requires
            p >= 0,
            p == speed * e,
            d == p / 3600,
            displacement(speed as int, e, -(TRIG_ONE as int)) == -(((abs_val(speed * e) / 3600)
                * abs_val(-(TRIG_ONE as int))) / (TRIG_ONE as int)),
    ;
    let a = abs_val(speed * e) / 3600;
    assert((a * abs_val(0)) / 1_000_000 == 0) by (nonlinear_arith)
        requires
            abs_val(0) == 0,
    ;
    assert(displacement(speed as int, e, 0) == 0);
    assert(d >= 0) by (nonlinear_arith)
        requires
            p >= 0,
            d == p / 3600,
    ;
}

/// Calculate a new position using dead reckoning.
pub fn calc_new_position(loc: Location, heading: i64, speed: i64, curr_tm: i64, prev_tm: i64) -> (r:
    Location)
    requires
        loc.valid(),
        abs_val(speed as int) <= COORD_LIMIT as int,
        abs_val(curr_tm as int) <= TIME_LIMIT as int,
        abs_val(prev_tm as int) <= TIME_LIMIT as int,
    ensures
        r == advanced_location(loc, heading as int, speed as int, curr_tm as int, prev_tm as int),
        r.valid(),
        r.time() == curr_tm as int,
        r.z == loc.z,
{
    let s: i64 = sin_of_heading(heading);
    let c: i64 = cos_of_heading(heading);
    let elapsed: i64 = curr_tm - prev_tm;
    let dx: i128 = scaled_displacement(speed, elapsed, s);
    let dy: i128 = scaled_displacement(speed, elapsed, c);
    proof {
        assert(abs_val((speed as int) * (elapsed as int))
            <= 40_000_000_000_000_000_000_000_000_000_000) by (nonlinear_arith)
            requires
                abs_val(speed as int) <= 1_000_000_000_000_000_000,
                abs_val(elapsed as int) <= 40_000_000_000_000,
        ;
    }
    let nx: i64 = clamp_coord((loc.x as i128) + dx);
    let ny: i64 = clamp_coord((loc.y as i128) + dy);
    Location { x: nx, y: ny, z: loc.z, t: curr_tm }
}

} // verus!
