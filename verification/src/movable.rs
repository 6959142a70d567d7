//! The simulated entities — Cruiser, Carrier and Fighter — their deployment
//! and maneuver state machines, and the closed `Movable` variant that
//! dispatches orders and per-tick repositioning over them.

use vstd::prelude::*;
use crate::location::{advanced_location, calc_new_position, Location, DEFAULT_TIME};
use crate::math::{abs_val, lemma_isqrt_le, COORD_LIMIT, TIME_LIMIT};
use crate::order::{coord_ok, time_ok, Order, OrderV, UNCHANGED};
use crate::trig::{atan2_compass, atan2_spec};

verus! {

/// The timestamp a newly created cruiser carries: 2019-01-01 00:00:00.
pub const CRUISER_EPOCH: i64 = 1_546_300_800;

/// The mathematical state of a ship (cruiser or carrier): the model that
/// every contract over ships speaks of.
pub ghost struct ShipV {
    pub name: Seq<char>,
    pub id: Seq<char>,
    pub at: int,
    pub loc: Location,
    pub is_deployed: bool,
    pub was_deployed: bool,
    pub heading: int,
    pub speed: int,
    pub max_speed: int,
    pub hl: Seq<Location>,
    pub cap: int,
}

impl ShipV {
    pub open spec fn wf(self) -> bool {
        &&& time_ok(self.at)
        &&& self.loc.valid()
        &&& coord_ok(self.speed)
    }
}

/// A ship deployed at (x, y, 0) at time `t` with the given heading and
/// speed; the new location is appended to the history.
pub open spec fn ship_deployed(v: ShipV, x: i64, y: i64, head: i64, spd: i64, t: i64) -> ShipV {
    let l = Location { x, y, z: 0i64, t };
    ShipV {
        is_deployed: true,
        was_deployed: true,
        loc: l,
        hl: v.hl.push(l),
        heading: head as int,
        speed: spd as int,
        at: t as int,
        ..v
    }
}

/// New ship orders: heading and speed each change only when the supplied
/// value is not the sentinel; the position is untouched.
pub open spec fn ship_changed(v: ShipV, head: i64, spd: i64) -> ShipV {
    ShipV {
        heading: if head != UNCHANGED {
            head as int
        } else {
            v.heading
        },
        speed: if spd != UNCHANGED {
            spd as int
        } else {
            v.speed
        },
        ..v
    }
}

/// A ship repositioned to tick time `t` by dead reckoning; a tick at the
/// ship's own timestamp changes nothing.
pub open spec fn ship_repositioned(v: ShipV, t: i64) -> ShipV {
    if v.at == t as int {
        v
    } else {
        let l = advanced_location(v.loc, v.heading, v.speed, t as int, v.at);
        ShipV { loc: l, hl: v.hl.push(l), at: t as int, ..v }
    }
}

/// Order dispatch for ships: only ship orders are meaningful; any other
/// kind is a no-op.
pub open spec fn ship_executed(v: ShipV, o: OrderV) -> ShipV {
    match o {
        OrderV::DeployShip { start_x, start_y, heading, speed, extime, .. } => ship_deployed(
            v,
            start_x,
            start_y,
            heading,
            speed,
            extime,
        ),
        OrderV::ChangeShip { heading, speed, .. } => ship_changed(v, heading, speed),
        _ => v,
    }
}

pub struct Cruiser {
    pub name: String,
    pub id: String,
    pub at: i64,
    pub loc: Location,
    pub is_deployed: bool,
    pub was_deployed: bool,
    pub heading: i64,
    pub speed: i64,
    pub max_speed: i64,
    pub hl: Vec<Location>,
    pub max_missles: i64,
}

impl View for Cruiser {
    type V = ShipV;

    open spec fn view(&self) -> ShipV {
        ShipV {
            name: self.name@,
            id: self.id@,
            at: self.at as int,
            loc: self.loc,
            is_deployed: self.is_deployed,
            was_deployed: self.was_deployed,
            heading: self.heading as int,
            speed: self.speed as int,
            max_speed: self.max_speed as int,
            hl: self.hl@,
            cap: self.max_missles as int,
        }
    }
}

/// The state of a newly created cruiser: undeployed at the origin.
pub open spec fn new_cruiser_v(name: Seq<char>, id: Seq<char>, max_speed: i64, max_missles: i64) -> ShipV {
    ShipV {
        name,
        id,
        at: CRUISER_EPOCH as int,
        loc: Location { x: 0i64, y: 0i64, z: 0i64, t: DEFAULT_TIME },
        is_deployed: false,
        was_deployed: false,
        heading: 0,
        speed: 0,
        max_speed: max_speed as int,
        hl: Seq::<Location>::empty(),
        cap: max_missles as int,
    }
}

impl Cruiser {
    pub fn new(name: String, id: String, max_speed: i64, max_missles: i64) -> (r: Self)
        ensures
            r@ == new_cruiser_v(name@, id@, max_speed, max_missles),
            r@.wf(),
    {
        let r = Cruiser {
            name,
            id,
            at: CRUISER_EPOCH,
            loc: Location::default(),
            is_deployed: false,
            was_deployed: false,
            heading: 0,
            speed: 0,
            max_speed,
            hl: Vec::new(),
            max_missles,
        };
        proof {
            assert(r@.hl =~= Seq::<Location>::empty());
        }
        r
    }

    pub fn get_is_deployed(&self) -> (r: bool)
        ensures
            r == self@.is_deployed,
    {
        self.is_deployed
    }

    pub fn get_was_deployed(&self) -> (r: bool)
        ensures
            r == self@.was_deployed,
    {
        self.was_deployed
    }

    pub fn get_id(&self) -> (r: String)
        ensures
            r@ == self@.id,
    {
        self.id.clone()
    }

    pub fn get_name(&self) -> (r: String)
        ensures
            r@ == self@.name,
    {
        self.name.clone()
    }

    pub fn get_location(&self) -> (r: Location)
        ensures
            r == self@.loc,
    {
        self.loc
    }

    pub fn get_history(&self) -> (r: &Vec<Location>)
        ensures
            r@ == self@.hl,
    {
        &self.hl
    }

    pub fn deploy(&mut self, x: i64, y: i64, head: i64, spd: i64, t: i64) -> (r: bool)
        requires
            coord_ok(x as int),
            coord_ok(y as int),
            coord_ok(spd as int),
            time_ok(t as int),
        ensures
            final(self)@ == ship_deployed(old(self)@, x, y, head, spd, t),
            final(self)@.wf(),
            r == true,
    {
        self.is_deployed = true;
        self.was_deployed = true;
        self.loc = Location::new(x, y, 0, t);
        self.hl.push(self.loc);
        self.heading = head;
        self.speed = spd;
        self.at = t;
        true
    }

    pub fn change(&mut self, head: i64, spd: i64, _alt: i64, _t: i64) -> (r: bool)
        requires
            old(self)@.wf(),
            coord_ok(spd as int),
        ensures
            final(self)@ == ship_changed(old(self)@, head, spd),
            final(self)@.wf(),
            r == true,
    {
        if head != UNCHANGED {
            self.heading = head;
        }
        if spd != UNCHANGED {
            self.speed = spd;
        }
        true
    }

    pub fn update_position(&mut self, t: i64)
        requires
            old(self)@.wf(),
            time_ok(t as int),
        ensures
            final(self)@ == ship_repositioned(old(self)@, t),
            final(self)@.wf(),
    {
        if self.at == t {
            return ;
        }
        self.loc = calc_new_position(self.loc, self.heading, self.speed, t, self.at);
        self.hl.push(self.loc);
        self.at = t;
    }

    /// Determine which order we have received and apply the transition
    /// associated with it.
    pub fn execute(&mut self, order: &Order)
        requires
            old(self)@.wf(),
            order.valid(),
        ensures
            final(self)@ == ship_executed(old(self)@, order@),
            final(self)@.wf(),
    {
        match order {
            Order::DeployShipOrder(o) => {
                self.deploy(o.start_x, o.start_y, o.heading, o.speed, o.extime);
            },
            Order::ChangeShipOrder(o) => {
                self.change(o.heading, o.speed, 0, o.extime);
            },
            _ => {},
        }
    }
}

pub struct Carrier {
    pub name: String,
    pub id: String,
    pub at: i64,
    pub loc: Location,
    pub is_deployed: bool,
    pub was_deployed: bool,
    pub heading: i64,
    pub speed: i64,
    pub max_speed: i64,
    pub hl: Vec<Location>,
    pub max_aircraft: i64,
}

impl View for Carrier {
    type V = ShipV;

    open spec fn view(&self) -> ShipV {
        ShipV {
            name: self.name@,
            id: self.id@,
            at: self.at as int,
            loc: self.loc,
            is_deployed: self.is_deployed,
            was_deployed: self.was_deployed,
            heading: self.heading as int,
            speed: self.speed as int,
            max_speed: self.max_speed as int,
            hl: self.hl@,
            cap: self.max_aircraft as int,
        }
    }
}

/// The state of a newly created carrier: undeployed at the origin.
pub open spec fn new_carrier_v(name: Seq<char>, id: Seq<char>, max_speed: i64, max_aircraft: i64) -> ShipV {
    ShipV {
        name,
        id,
        at: DEFAULT_TIME as int,
        loc: Location { x: 0i64, y: 0i64, z: 0i64, t: DEFAULT_TIME },
        is_deployed: false,
        was_deployed: false,
        heading: 0,
        speed: 0,
        max_speed: max_speed as int,
        hl: Seq::<Location>::empty(),
        cap: max_aircraft as int,
    }
}

impl Carrier {
    pub fn new(name: String, id: String, max_speed: i64, max_aircraft: i64) -> (r: Self)
        ensures
            r@ == new_carrier_v(name@, id@, max_speed, max_aircraft),
            r@.wf(),
    {
        let r = Carrier {
            name,
            id,
            at: DEFAULT_TIME,
            loc: Location::default(),
            is_deployed: false,
            was_deployed: false,
            heading: 0,
            speed: 0,
            max_speed,
            hl: Vec::new(),
            max_aircraft,
        };
        proof {
            assert(r@.hl =~= Seq::<Location>::empty());
        }
        r
    }

    pub fn get_is_deployed(&self) -> (r: bool)
        ensures
            r == self@.is_deployed,
    {
        self.is_deployed
    }

    pub fn get_was_deployed(&self) -> (r: bool)
        ensures
            r == self@.was_deployed,
    {
        self.was_deployed
    }

    pub fn get_id(&self) -> (r: String)
        ensures
            r@ == self@.id,
    {
        self.id.clone()
    }

    pub fn get_name(&self) -> (r: String)
        ensures
            r@ == self@.name,
    {
        self.name.clone()
    }

    pub fn get_location(&self) -> (r: Location)
        ensures
            r == self@.loc,
    {
        self.loc
    }

    pub fn get_history(&self) -> (r: &Vec<Location>)
        ensures
            r@ == self@.hl,
    {
        &self.hl
    }

    pub fn deploy(&mut self, x: i64, y: i64, head: i64, spd: i64, t: i64) -> (r: bool)
        requires
            coord_ok(x as int),
            coord_ok(y as int),
            coord_ok(spd as int),
            time_ok(t as int),
        ensures
            final(self)@ == ship_deployed(old(self)@, x, y, head, spd, t),
            final(self)@.wf(),
            r == true,
    {
        self.is_deployed = true;
        self.was_deployed = true;
        self.loc = Location::new(x, y, 0, t);
        self.hl.push(self.loc);
        self.heading = head;
        self.speed = spd;
        self.at = t;
        true
    }

    pub fn change(&mut self, head: i64, spd: i64, _alt: i64, _t: i64) -> (r: bool)
        requires
            old(self)@.wf(),
            coord_ok(spd as int),
        ensures
            final(self)@ == ship_changed(old(self)@, head, spd),
            final(self)@.wf(),
            r == true,
    {
        if head != UNCHANGED {
            self.heading = head;
        }
        if spd != UNCHANGED {
            self.speed = spd;
        }
        true
    }

    pub fn update_position(&mut self, t: i64)
        requires
            old(self)@.wf(),
            time_ok(t as int),
        ensures
            final(self)@ == ship_repositioned(old(self)@, t),
            final(self)@.wf(),
    {
        if self.at == t {
            return ;
        }
        self.loc = calc_new_position(self.loc, self.heading, self.speed, t, self.at);
        self.hl.push(self.loc);
        self.at = t;
    }

    /// Determine which order we have received and apply the transition
    /// associated with it.
    pub fn execute(&mut self, order: &Order)
        requires
            old(self)@.wf(),
            order.valid(),
        ensures
            final(self)@ == ship_executed(old(self)@, order@),
            final(self)@.wf(),
    {
        match order {
            Order::DeployShipOrder(o) => {
                self.deploy(o.start_x, o.start_y, o.heading, o.speed, o.extime);
            },
            Order::ChangeShipOrder(o) => {
                self.change(o.heading, o.speed, 0, o.extime);
            },
            _ => {},
        }
    }
}

/// The mathematical state of a fighter.
pub ghost struct FighterV {
    pub name: Seq<char>,
    pub id: Seq<char>,
    pub at: int,
    pub loc: Location,
    pub is_deployed: bool,
    pub was_deployed: bool,
    pub heading: int,
    pub speed: int,
    pub max_speed: int,
    pub hl: Seq<Location>,
    pub is_landing: bool,
    pub ship_id: Seq<char>,
    pub ship_loc: Location,
    pub max_ceiling: int,
    pub altitude: int,
    pub max_bombs: int,
}

impl FighterV {
    pub open spec fn wf(self) -> bool {
        &&& time_ok(self.at)
        &&& self.loc.valid()
        &&& self.ship_loc.valid()
        &&& coord_ok(self.speed)
        &&& coord_ok(self.altitude)
    }
}

/// A fighter takes off from its carrier's (cached) location, at the given
/// altitude; the direct x/y parameters of a ship deployment do not apply.
pub open spec fn fighter_deployed(v: FighterV, head: i64, spd: i64, alt: i64, t: i64) -> FighterV {
    let l = Location { x: v.ship_loc.x, y: v.ship_loc.y, z: alt, t };
    FighterV {
        is_deployed: true,
        was_deployed: true,
        loc: l,
        hl: v.hl.push(l),
        heading: head as int,
        speed: spd as int,
        altitude: alt as int,
        at: t as int,
        ..v
    }
}

/// New aircraft orders: speed and altitude change unless the sentinel is
/// supplied; the heading changes only when, in addition, the fighter is not
/// landing (a landing fighter steers toward its carrier automatically).
pub open spec fn fighter_changed(v: FighterV, head: i64, spd: i64, alt: i64) -> FighterV {
    FighterV {
        speed: if spd != UNCHANGED {
            spd as int
        } else {
            v.speed
        },
        altitude: if alt != UNCHANGED {
            alt as int
        } else {
            v.altitude
        },
        heading: if !v.is_landing && head != UNCHANGED {
            head as int
        } else {
            v.heading
        },
        ..v
    }
}

/// A land order: the target carrier is recorded and the landing flag set;
/// the position is untouched.
pub open spec fn fighter_landing_ordered(v: FighterV, ship_id: Seq<char>) -> FighterV {
    FighterV { ship_id, is_landing: true, ..v }
}

/// Division by 60 truncating toward zero, as the landing-range computation
/// performs it.
pub open spec fn trunc_div_60(s: int) -> int {
    if s >= 0 {
        s / 60
    } else {
        -((-s) / 60)
    }
}

/// Whether a fighter at `loc` moving at `speed` can close the remaining gap
/// to `carrier` within one simulated minute: its planar distance (the floor
/// square root of the squared distance) is at most speed / 60.
pub open spec fn can_land_spec(loc: Location, carrier: Location, speed: int) -> bool {
    let r = trunc_div_60(speed);
    r >= 0 && loc.dist_sq(carrier) < (r + 1) * (r + 1)
}

/// A fighter repositioned to tick time `t`, with its carrier at `carrier`:
/// dead reckoning for the planar motion, the z coordinate overridden by the
/// current altitude.  A landing fighter within landing range becomes
/// grounded in the same tick — deployment and landing flags cleared and
/// altitude zeroed, so the tick's history entry already shows altitude 0;
/// a landing fighter out of range steers toward the carrier instead.  A
/// tick at the fighter's own timestamp changes nothing.
pub open spec fn fighter_repositioned(v: FighterV, t: i64, carrier: Location) -> FighterV {
    if v.at == t as int {
        v
    } else {
        let m0 = advanced_location(v.loc, v.heading, v.speed, t as int, v.at);
        let m = Location { x: m0.x, y: m0.y, z: v.altitude as i64, t: m0.t };
        if v.is_landing && can_land_spec(m, carrier, v.speed) {
            let g = Location { x: m.x, y: m.y, z: 0i64, t: m.t };
            FighterV {
                ship_loc: carrier,
                loc: g,
                hl: v.hl.push(g),
                at: t as int,
                is_deployed: false,
                is_landing: false,
                altitude: 0,
                ..v
            }
        } else if v.is_landing {
            FighterV {
                ship_loc: carrier,
                loc: m,
                hl: v.hl.push(m),
                at: t as int,
                heading: atan2_spec(carrier.x - m.x, carrier.y - m.y),
                ..v
            }
        } else {
            FighterV { ship_loc: carrier, loc: m, hl: v.hl.push(m), at: t as int, ..v }
        }
    }
}

/// Order dispatch for fighters: only aircraft orders are meaningful; any
/// other kind is a no-op.
pub open spec fn fighter_executed(v: FighterV, o: OrderV) -> FighterV {
    match o {
        OrderV::DeployAircraft { heading, speed, altitude, extime, .. } => fighter_deployed(
            v,
            heading,
            speed,
            altitude,
            extime,
        ),
        OrderV::ChangeAircraft { heading, speed, altitude, .. } => fighter_changed(
            v,
            heading,
            speed,
            altitude,
        ),
        OrderV::LandAircraft { ship_id, .. } => fighter_landing_ordered(v, ship_id),
        _ => v,
    }
}

pub struct Fighter {
    pub name: String,
    pub id: String,
    pub at: i64,
    pub loc: Location,
    pub is_deployed: bool,
    pub was_deployed: bool,
    pub heading: i64,
    pub speed: i64,
    pub max_speed: i64,
    pub hl: Vec<Location>,
    pub is_landing: bool,
    pub ship_id: String,
    pub ship_loc: Location,
    pub max_ceiling: i64,
    pub altitude: i64,
    pub max_bombs: i64,
}

impl View for Fighter {
    type V = FighterV;

    open spec fn view(&self) -> FighterV {
        FighterV {
            name: self.name@,
            id: self.id@,
            at: self.at as int,
            loc: self.loc,
            is_deployed: self.is_deployed,
            was_deployed: self.was_deployed,
            heading: self.heading as int,
            speed: self.speed as int,
            max_speed: self.max_speed as int,
            hl: self.hl@,
            is_landing: self.is_landing,
            ship_id: self.ship_id@,
            ship_loc: self.ship_loc,
            max_ceiling: self.max_ceiling as int,
            altitude: self.altitude as int,
            max_bombs: self.max_bombs as int,
        }
    }
}

/// The state of a newly created fighter: undeployed at the origin, with
/// its home carrier recorded.
pub open spec fn new_fighter_v(
    name: Seq<char>,
    id: Seq<char>,
    max_speed: i64,
    ship_id: Seq<char>,
    max_ceiling: i64,
    max_bombs: i64,
) -> FighterV {
    FighterV {
        name,
        id,
        at: DEFAULT_TIME as int,
        loc: Location { x: 0i64, y: 0i64, z: 0i64, t: DEFAULT_TIME },
        is_deployed: false,
        was_deployed: false,
        heading: 0,
        speed: 0,
        max_speed: max_speed as int,
        hl: Seq::<Location>::empty(),
        is_landing: false,
        ship_id,
        ship_loc: Location { x: 0i64, y: 0i64, z: 0i64, t: DEFAULT_TIME },
        max_ceiling: max_ceiling as int,
        altitude: 0,
        max_bombs: max_bombs as int,
    }
}

impl Fighter {
    pub fn new(
        name: String,
        id: String,
        max_speed: i64,
        ship_id: String,
        max_ceiling: i64,
        max_bombs: i64,
    ) -> (r: Self)
        ensures
            r@ == new_fighter_v(name@, id@, max_speed, ship_id@, max_ceiling, max_bombs),
            r@.wf(),
    {
        let r = Fighter {
            name,
            id,
            at: DEFAULT_TIME,
            loc: Location::default(),
            is_deployed: false,
            was_deployed: false,
            heading: 0,
            speed: 0,
            max_speed,
            hl: Vec::new(),
            is_landing: false,
            ship_id,
            ship_loc: Location::default(),
            max_ceiling,
            altitude: 0,
            max_bombs,
        };
        proof {
            assert(r@.hl =~= Seq::<Location>::empty());
        }
        r
    }

    pub fn get_is_deployed(&self) -> (r: bool)
        ensures
            r == self@.is_deployed,
    {
        self.is_deployed
    }

    pub fn get_was_deployed(&self) -> (r: bool)
        ensures
            r == self@.was_deployed,
    {
        self.was_deployed
    }

    pub fn get_id(&self) -> (r: String)
        ensures
            r@ == self@.id,
    {
        self.id.clone()
    }

    pub fn get_name(&self) -> (r: String)
        ensures
            r@ == self@.name,
    {
        self.name.clone()
    }

    pub fn get_location(&self) -> (r: Location)
        ensures
            r == self@.loc,
    {
        self.loc
    }

    pub fn get_history(&self) -> (r: &Vec<Location>)
        ensures
            r@ == self@.hl,
    {
        &self.hl
    }

    pub fn deploy(&mut self, head: i64, spd: i64, alt: i64, t: i64) -> (r: bool)
        requires
            old(self)@.wf(),
            coord_ok(spd as int),
            coord_ok(alt as int),
            time_ok(t as int),
        ensures
            final(self)@ == fighter_deployed(old(self)@, head, spd, alt, t),
            final(self)@.wf(),
            r == true,
    {
        self.is_deployed = true;
        self.was_deployed = true;
        self.loc = Location::new(self.ship_loc.x, self.ship_loc.y, alt, t);
        self.hl.push(self.loc);
        self.heading = head;
        self.speed = spd;
        self.altitude = alt;
        self.at = t;
        true
    }

    pub fn land(&mut self, ship_id: String, _t: i64) -> (r: bool)
        ensures
            final(self)@ == fighter_landing_ordered(old(self)@, ship_id@),
            r == true,
    {
        self.ship_id = ship_id;
        self.is_landing = true;
        true
    }

    pub fn change(&mut self, head: i64, spd: i64, alt: i64, _t: i64) -> (r: bool)
        requires
            old(self)@.wf(),
            coord_ok(spd as int),
            coord_ok(alt as int),
        ensures
            final(self)@ == fighter_changed(old(self)@, head, spd, alt),
            final(self)@.wf(),
            r == true,
    {
        if spd != UNCHANGED {
            self.speed = spd;
        }
        if alt != UNCHANGED {
            self.altitude = alt;
        }
        if !self.is_landing && head != UNCHANGED {
            self.heading = head;
        }
        true
    }

    /// Determine if the fighter can land on its carrier.
    fn can_land(&self) -> (r: bool)
        requires
            self@.wf(),
        ensures
            r == can_land_spec(self@.loc, self@.ship_loc, self@.speed),
    {
        let d: i64 = self.loc.distance(&self.ship_loc);
        let reach: i64 = if self.speed >= 0 {
            self.speed / 60
        } else {
            -((-self.speed) / 60)
        };
        proof {
            if reach >= 0 {
                lemma_isqrt_le(d as int, reach as int, self@.loc.dist_sq(self@.ship_loc));
            }
        }
        d <= reach
    }

    /// Set the heading to point at the target carrier.
    fn goto_carrier(&mut self)
        requires
            old(self)@.wf(),
        ensures
            final(self)@ == (FighterV {
                heading: atan2_spec(
                    old(self)@.ship_loc.x - old(self)@.loc.x,
                    old(self)@.ship_loc.y - old(self)@.loc.y,
                ),
                ..old(self)@
            }),
    {
        let dx: i64 = self.ship_loc.x - self.loc.x;
        let dy: i64 = self.ship_loc.y - self.loc.y;
        self.heading = atan2_compass(dx, dy);
    }

    pub fn update_position(&mut self, t: i64, carrier: Location)
        requires
            old(self)@.wf(),
            time_ok(t as int),
            carrier.valid(),
        ensures
            final(self)@ == fighter_repositioned(old(self)@, t, carrier),
            final(self)@.wf(),
    {
        if self.at == t {
            return ;
        }
        self.ship_loc = carrier;
        let moved = calc_new_position(self.loc, self.heading, self.speed, t, self.at);
        let mut l = moved;
        l.z = self.altitude;
        self.loc = l;
        self.at = t;
        if self.is_landing {
            if self.can_land() {
                self.is_deployed = false;
                self.is_landing = false;
                self.altitude = 0;
                let mut g = self.loc;
                g.z = 0;
                self.loc = g;
                self.hl.push(g);
            } else {
                self.hl.push(self.loc);
                self.goto_carrier();
            }
        } else {
            self.hl.push(self.loc);
        }
    }

    /// Determine which order we have received and apply the transition
    /// associated with it.
    pub fn execute(&mut self, order: &Order)
        requires
            old(self)@.wf(),
            order.valid(),
        ensures
            final(self)@ == fighter_executed(old(self)@, order@),
            final(self)@.wf(),
    {
        match order {
            Order::DeployAircraftOrder(o) => {
                self.deploy(o.heading, o.speed, o.altitude, o.extime);
            },
            Order::ChangeAircraftOrder(o) => {
                self.change(o.heading, o.speed, o.altitude, o.extime);
            },
            Order::LandAircraftOrder(o) => {
                self.land(o.ship_id.clone(), o.extime);
            },
            _ => {},
        }
    }
}

/// The closed set of entity kinds: a single dispatch point per operation,
/// with exhaustiveness checked at every match.
pub enum Movable {
    Cruiser(Cruiser),
    Carrier(Carrier),
    Fighter(Fighter),
}

/// The mathematical state of an entity of any kind.
pub ghost enum MovableV {
    Cruiser(ShipV),
    Carrier(ShipV),
    Fighter(FighterV),
}

impl MovableV {
    pub open spec fn wf(self) -> bool {
        match self {
            MovableV::Cruiser(v) => v.wf(),
            MovableV::Carrier(v) => v.wf(),
            MovableV::Fighter(v) => v.wf(),
        }
    }

    pub open spec fn spec_id(self) -> Seq<char> {
        match self {
            MovableV::Cruiser(v) => v.id,
            MovableV::Carrier(v) => v.id,
            MovableV::Fighter(v) => v.id,
        }
    }

    pub open spec fn spec_name(self) -> Seq<char> {
        match self {
            MovableV::Cruiser(v) => v.name,
            MovableV::Carrier(v) => v.name,
            MovableV::Fighter(v) => v.name,
        }
    }

    pub open spec fn deployed(self) -> bool {
        match self {
            MovableV::Cruiser(v) => v.is_deployed,
            MovableV::Carrier(v) => v.is_deployed,
            MovableV::Fighter(v) => v.is_deployed,
        }
    }

    pub open spec fn once_deployed(self) -> bool {
        match self {
            MovableV::Cruiser(v) => v.was_deployed,
            MovableV::Carrier(v) => v.was_deployed,
            MovableV::Fighter(v) => v.was_deployed,
        }
    }

    pub open spec fn position(self) -> Location {
        match self {
            MovableV::Cruiser(v) => v.loc,
            MovableV::Carrier(v) => v.loc,
            MovableV::Fighter(v) => v.loc,
        }
    }

    pub open spec fn history(self) -> Seq<Location> {
        match self {
            MovableV::Cruiser(v) => v.hl,
            MovableV::Carrier(v) => v.hl,
            MovableV::Fighter(v) => v.hl,
        }
    }

    /// The id of the carrier a fighter steers by; ships have none.
    pub open spec fn carrier_ref(self) -> Option<Seq<char>> {
        match self {
            MovableV::Fighter(v) => Some(v.ship_id),
            _ => None,
        }
    }

    /// The entity's current timestamp.
    pub open spec fn at_time(self) -> int {
        match self {
            MovableV::Cruiser(v) => v.at,
            MovableV::Carrier(v) => v.at,
            MovableV::Fighter(v) => v.at,
        }
    }
}

/// Order dispatch over the entity kinds: each kind applies only the order
/// kinds meaningful to it; every other combination is a no-op.
pub open spec fn mov_executed(m: MovableV, o: OrderV) -> MovableV {
    match m {
        MovableV::Cruiser(v) => MovableV::Cruiser(ship_executed(v, o)),
        MovableV::Carrier(v) => MovableV::Carrier(ship_executed(v, o)),
        MovableV::Fighter(v) => MovableV::Fighter(fighter_executed(v, o)),
    }
}

/// Per-tick repositioning over the entity kinds; only a fighter reads its
/// carrier's location.
pub open spec fn mov_repositioned(m: MovableV, t: i64, carrier: Option<Location>) -> MovableV {
    match m {
        MovableV::Cruiser(v) => MovableV::Cruiser(ship_repositioned(v, t)),
        MovableV::Carrier(v) => MovableV::Carrier(ship_repositioned(v, t)),
        MovableV::Fighter(v) => match carrier {
            Some(c) => MovableV::Fighter(fighter_repositioned(v, t, c)),
            None => MovableV::Fighter(v),
        },
    }
}

/// A zero-duration tick changes nothing: repositioning an entity that
/// already stands at the tick's timestamp appends no history entry and
/// moves nothing.
pub proof fn lemma_zero_tick_noop(m: MovableV, t: i64, carrier: Option<Location>)
    requires
        m.at_time() == t as int,
    ensures
        mov_repositioned(m, t, carrier) == m,
{
}

/// Repositioning twice at one timestamp equals repositioning once: the
/// second call is a zero-duration tick.
pub proof fn lemma_reposition_idempotent(m: MovableV, t: i64, carrier: Option<Location>)
    ensures
        mov_repositioned(mov_repositioned(m, t, carrier), t, carrier) == mov_repositioned(
            m,
            t,
            carrier,
        ),
{
    let r = mov_repositioned(m, t, carrier);
    if m.at_time() == t as int {
        lemma_zero_tick_noop(m, t, carrier);
    } else {
        match m {
            MovableV::Cruiser(v) => {},
            MovableV::Carrier(v) => {},
            MovableV::Fighter(v) => {},
        }
    }
}

/// Landing convergence, the completing step: a landing fighter whose
/// repositioned planar distance to its carrier is within reach (at most
/// speed / 60) becomes grounded in that same tick — deployment and landing
/// flags cleared and altitude zeroed — and the tick's history entry
/// already shows altitude zero.
pub proof fn lemma_landing_completes(v: FighterV, t: i64, c: Location)
    requires
        v.is_landing,
        v.at != t as int,
    ensures
        ({
            let m0 = advanced_location(v.loc, v.heading, v.speed, t as int, v.at);
            let m = Location { x: m0.x, y: m0.y, z: v.altitude as i64, t: m0.t };
            can_land_spec(m, c, v.speed) ==> {
                let r = fighter_repositioned(v, t, c);
                &&& !r.is_deployed
                &&& !r.is_landing
                &&& r.altitude == 0
                &&& r.hl == v.hl.push(Location { x: m.x, y: m.y, z: 0i64, t: m.t })
                &&& r.hl.len() == v.hl.len() + 1
                &&& r.hl.last().z == 0
            }
        }),
{
}

/// Landing convergence, the stability step: a fighter that is not in the
/// landing state is never put into it by repositioning — only a land
/// order sets the flag — so a fighter that has completed its landing
/// never oscillates back.
pub proof fn lemma_no_oscillation(v: FighterV, t: i64, c: Location, o: OrderV)
    requires
        !v.is_landing,
    ensures
        !fighter_repositioned(v, t, c).is_landing,
        !(o is LandAircraft) ==> !fighter_executed(v, o).is_landing,
{
}

impl View for Movable {
    type V = MovableV;

    open spec fn view(&self) -> MovableV {
        match self {
            Movable::Cruiser(c) => MovableV::Cruiser(c@),
            Movable::Carrier(c) => MovableV::Carrier(c@),
            Movable::Fighter(f) => MovableV::Fighter(f@),
        }
    }
}

impl Movable {
    pub fn get_is_deployed(&self) -> (r: bool)
        ensures
            r == self@.deployed(),
    {
        match self {
            Movable::Cruiser(c) => c.get_is_deployed(),
            Movable::Carrier(c) => c.get_is_deployed(),
            Movable::Fighter(f) => f.get_is_deployed(),
        }
    }

    pub fn get_was_deployed(&self) -> (r: bool)
        ensures
            r == self@.once_deployed(),
    {
        match self {
            Movable::Cruiser(c) => c.get_was_deployed(),
            Movable::Carrier(c) => c.get_was_deployed(),
            Movable::Fighter(f) => f.get_was_deployed(),
        }
    }

    pub fn get_id(&self) -> (r: String)
        ensures
            r@ == self@.spec_id(),
    {
        match self {
            Movable::Cruiser(c) => c.get_id(),
            Movable::Carrier(c) => c.get_id(),
            Movable::Fighter(f) => f.get_id(),
        }
    }

    pub fn get_name(&self) -> (r: String)
        ensures
            r@ == self@.spec_name(),
    {
        match self {
            Movable::Cruiser(c) => c.get_name(),
            Movable::Carrier(c) => c.get_name(),
            Movable::Fighter(f) => f.get_name(),
        }
    }

    pub fn get_location(&self) -> (r: Location)
        ensures
            r == self@.position(),
    {
        match self {
            Movable::Cruiser(c) => c.get_location(),
            Movable::Carrier(c) => c.get_location(),
            Movable::Fighter(f) => f.get_location(),
        }
    }

    pub fn get_history(&self) -> (r: &Vec<Location>)
        ensures
            r@ == self@.history(),
    {
        match self {
            Movable::Cruiser(c) => c.get_history(),
            Movable::Carrier(c) => c.get_history(),
            Movable::Fighter(f) => f.get_history(),
        }
    }

    /// The id of the carrier a fighter steers by; ships have none.
    pub fn get_carrier_id(&self) -> (r: Option<String>)
        ensures
            match r {
                Some(s) => self@.carrier_ref() == Some(s@),
                None => self@.carrier_ref() is None,
            },
    {
        match self {
            Movable::Fighter(f) => Some(f.ship_id.clone()),
            _ => None,
        }
    }

    /// Whether this entity's id is the given one.
    pub fn matches_id(&self, id: &String) -> (r: bool)
        ensures
            r == (self@.spec_id() == id@),
    {
        match self {
            Movable::Cruiser(c) => c.id == *id,
            Movable::Carrier(c) => c.id == *id,
            Movable::Fighter(f) => f.id == *id,
        }
    }

    pub fn execute(&mut self, order: &Order)
        requires
            old(self)@.wf(),
            order.valid(),
        ensures
            final(self)@ == mov_executed(old(self)@, order@),
            final(self)@.wf(),
    {
        match self {
            Movable::Cruiser(c) => c.execute(order),
            Movable::Carrier(c) => c.execute(order),
            Movable::Fighter(f) => f.execute(order),
        }
    }

    pub fn update_position(&mut self, t: i64, carrier: Option<Location>)
        requires
            old(self)@.wf(),
            time_ok(t as int),
            old(self)@ is Fighter ==> carrier is Some,
            carrier is Some ==> carrier.unwrap().valid(),
        ensures
            final(self)@ == mov_repositioned(old(self)@, t, carrier),
            final(self)@.wf(),
    {
        match self {
            Movable::Cruiser(c) => c.update_position(t),
            Movable::Carrier(c) => c.update_position(t),
            Movable::Fighter(f) => {
                match carrier {
                    Some(c) => f.update_position(t, c),
                    None => {},
                }
            },
        }
    }
}

} // verus!
