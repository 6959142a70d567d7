//! Scheduled orders: a closed set of order kinds, each carrying a target
//! entity id and an execution timestamp.  Orders compare by execution
//! timestamp alone.
//!
//! Angles are milli-degrees, speeds/coordinates/altitudes milli-units and
//! timestamps seconds; the value -1000 (that is, -1.0) for a heading, speed
//! or altitude is the sentinel meaning "leave this field unchanged".

use vstd::prelude::*;
use crate::math::{abs_val, COORD_LIMIT, TIME_LIMIT};

verus! {

/// The sentinel parameter value (-1.0 in milli-units) meaning "no change
/// requested".
pub const UNCHANGED: i64 = -1000;

pub open spec fn coord_ok(v: int) -> bool {
    abs_val(v) <= COORD_LIMIT as int
}

pub open spec fn time_ok(t: int) -> bool {
    abs_val(t) <= TIME_LIMIT as int
}

#[derive(Clone, Debug)]
pub struct DeployShip {
    pub id: String,
    pub extime: i64,
    pub start_x: i64,
    pub start_y: i64,
    pub heading: i64,
    pub speed: i64,
}

impl DeployShip {
    pub open spec fn valid(self) -> bool {
        &&& time_ok(self.extime as int)
        &&& coord_ok(self.start_x as int)
        &&& coord_ok(self.start_y as int)
        &&& coord_ok(self.speed as int)
    }

    pub fn new(a: i64, id: String, x: i64, y: i64, head: i64, spd: i64) -> (r: Self)
        requires
            time_ok(a as int),
            coord_ok(x as int),
            coord_ok(y as int),
            coord_ok(spd as int),
        ensures
            r == (DeployShip { id, extime: a, start_x: x, start_y: y, heading: head, speed: spd }),
            r.valid(),
    {
        DeployShip { extime: a, id, start_x: x, start_y: y, heading: head, speed: spd }
    }

    pub fn get_id(&self) -> (r: String)
        ensures
            r@ == self.id@,
    {
        self.id.clone()
    }

    pub fn get_extime(&self) -> (r: i64)
        ensures
            r == self.extime,
    {
        self.extime
    }
}

#[derive(Clone, Debug)]
pub struct DeployAircraft {
    pub id: String,
    pub extime: i64,
    pub heading: i64,
    pub speed: i64,
    pub altitude: i64,
}

impl DeployAircraft {
    pub open spec fn valid(self) -> bool {
        &&& time_ok(self.extime as int)
        &&& coord_ok(self.speed as int)
        &&& coord_ok(self.altitude as int)
    }

    pub fn new(a: i64, id: String, head: i64, spd: i64, alt: i64) -> (r: Self)
        requires
            time_ok(a as int),
            coord_ok(spd as int),
            coord_ok(alt as int),
        ensures
            r == (DeployAircraft { id, extime: a, heading: head, speed: spd, altitude: alt }),
            r.valid(),
    {
        DeployAircraft { extime: a, id, heading: head, speed: spd, altitude: alt }
    }

    pub fn get_id(&self) -> (r: String)
        ensures
            r@ == self.id@,
    {
        self.id.clone()
    }

    pub fn get_extime(&self) -> (r: i64)
        ensures
            r == self.extime,
    {
        self.extime
    }
}

#[derive(Clone, Debug)]
pub struct ChangeShip {
    pub id: String,
    pub extime: i64,
    pub heading: i64,
    pub speed: i64,
}

impl ChangeShip {
    pub open spec fn valid(self) -> bool {
        &&& time_ok(self.extime as int)
        &&& coord_ok(self.speed as int)
    }

    pub fn new(a: i64, id: String, head: i64, spd: i64) -> (r: Self)
        requires
            time_ok(a as int),
            coord_ok(spd as int),
        ensures
            r == (ChangeShip { id, extime: a, heading: head, speed: spd }),
            r.valid(),
    {
        ChangeShip { extime: a, id, heading: head, speed: spd }
    }

    pub fn get_id(&self) -> (r: String)
        ensures
            r@ == self.id@,
    {
        self.id.clone()
    }

    pub fn get_extime(&self) -> (r: i64)
        ensures
            r == self.extime,
    {
        self.extime
    }
}

#[derive(Clone, Debug)]
pub struct ChangeAircraft {
    pub id: String,
    pub extime: i64,
    pub heading: i64,
    pub speed: i64,
    pub altitude: i64,
}

impl ChangeAircraft {
    pub open spec fn valid(self) -> bool {
        &&& time_ok(self.extime as int)
        &&& coord_ok(self.speed as int)
        &&& coord_ok(self.altitude as int)
    }

    pub fn new(a: i64, id: String, head: i64, spd: i64, alt: i64) -> (r: Self)
        requires
            time_ok(a as int),
            coord_ok(spd as int),
            coord_ok(alt as int),
        ensures
            r == (ChangeAircraft { id, extime: a, heading: head, speed: spd, altitude: alt }),
            r.valid(),
    {
        ChangeAircraft { extime: a, id, heading: head, speed: spd, altitude: alt }
    }

    pub fn get_id(&self) -> (r: String)
        ensures
            r@ == self.id@,
    {
        self.id.clone()
    }

    pub fn get_extime(&self) -> (r: i64)
        ensures
            r == self.extime,
    {
        self.extime
    }
}

#[derive(Clone, Debug)]
pub struct LandAircraft {
    pub id: String,
    pub extime: i64,
    pub ship_id: String,
}

impl LandAircraft {
    pub open spec fn valid(self) -> bool {
        time_ok(self.extime as int)
    }

    pub fn new(a: i64, id: String, ship_id: String) -> (r: Self)
        requires
            time_ok(a as int),
        ensures
            r == (LandAircraft { id, extime: a, ship_id }),
            r.valid(),
    {
        LandAircraft { extime: a, id, ship_id }
    }

    pub fn get_id(&self) -> (r: String)
        ensures
            r@ == self.id@,
    {
        self.id.clone()
    }

    pub fn get_extime(&self) -> (r: i64)
        ensures
            r == self.extime,
    {
        self.extime
    }
}

#[derive(Clone, Debug)]
pub enum Order {
    DeployShipOrder(DeployShip),
    DeployAircraftOrder(DeployAircraft),
    ChangeShipOrder(ChangeShip),
    ChangeAircraftOrder(ChangeAircraft),
    LandAircraftOrder(LandAircraft),
}

/// The mathematical reading of an order: entity ids as character
/// sequences, every numeric payload as the fixed-point integer it holds.
pub ghost enum OrderV {
    DeployShip { id: Seq<char>, extime: i64, start_x: i64, start_y: i64, heading: i64, speed: i64 },
    DeployAircraft { id: Seq<char>, extime: i64, heading: i64, speed: i64, altitude: i64 },
    ChangeShip { id: Seq<char>, extime: i64, heading: i64, speed: i64 },
    ChangeAircraft { id: Seq<char>, extime: i64, heading: i64, speed: i64, altitude: i64 },
    LandAircraft { id: Seq<char>, extime: i64, ship_id: Seq<char> },
}

impl OrderV {
    /// The id of the entity the order addresses.
    pub open spec fn target(self) -> Seq<char> {
        match self {
            OrderV::DeployShip { id, .. } => id,
            OrderV::DeployAircraft { id, .. } => id,
            OrderV::ChangeShip { id, .. } => id,
            OrderV::ChangeAircraft { id, .. } => id,
            OrderV::LandAircraft { id, .. } => id,
        }
    }

    /// The execution timestamp, in seconds.
    pub open spec fn extime(self) -> int {
        match self {
            OrderV::DeployShip { extime, .. } => extime as int,
            OrderV::DeployAircraft { extime, .. } => extime as int,
            OrderV::ChangeShip { extime, .. } => extime as int,
            OrderV::ChangeAircraft { extime, .. } => extime as int,
            OrderV::LandAircraft { extime, .. } => extime as int,
        }
    }

    pub open spec fn wf(self) -> bool {
        match self {
            OrderV::DeployShip { extime, start_x, start_y, speed, .. } => time_ok(extime as int)
                && coord_ok(start_x as int) && coord_ok(start_y as int) && coord_ok(speed as int),
            OrderV::DeployAircraft { extime, speed, altitude, .. } => time_ok(extime as int)
                && coord_ok(speed as int) && coord_ok(altitude as int),
            OrderV::ChangeShip { extime, speed, .. } => time_ok(extime as int) && coord_ok(
                speed as int,
            ),
            OrderV::ChangeAircraft { extime, speed, altitude, .. } => time_ok(extime as int)
                && coord_ok(speed as int) && coord_ok(altitude as int),
            OrderV::LandAircraft { extime, .. } => time_ok(extime as int),
        }
    }
}

impl View for Order {
    type V = OrderV;

    open spec fn view(&self) -> OrderV {
        match self {
            Order::DeployShipOrder(o) => OrderV::DeployShip {
                id: o.id@,
                extime: o.extime,
                start_x: o.start_x,
                start_y: o.start_y,
                heading: o.heading,
                speed: o.speed,
            },
            Order::DeployAircraftOrder(o) => OrderV::DeployAircraft {
                id: o.id@,
                extime: o.extime,
                heading: o.heading,
                speed: o.speed,
                altitude: o.altitude,
            },
            Order::ChangeShipOrder(o) => OrderV::ChangeShip {
                id: o.id@,
                extime: o.extime,
                heading: o.heading,
                speed: o.speed,
            },
            Order::ChangeAircraftOrder(o) => OrderV::ChangeAircraft {
                id: o.id@,
                extime: o.extime,
                heading: o.heading,
                speed: o.speed,
                altitude: o.altitude,
            },
            Order::LandAircraftOrder(o) => OrderV::LandAircraft {
                id: o.id@,
                extime: o.extime,
                ship_id: o.ship_id@,
            },
        }
    }
}

impl Order {
    /// The id of the entity the order addresses.
    pub open spec fn spec_id(self) -> Seq<char> {
        self.view().target()
    }

    /// The execution timestamp, in seconds.
    pub open spec fn spec_extime(self) -> int {
        self.view().extime()
    }

    pub open spec fn valid(self) -> bool {
        self.view().wf()
    }

    pub fn get_id(&self) -> (r: String)
        ensures
            r@ == self.spec_id(),
    {
        match self {
            Order::DeployShipOrder(o) => o.get_id(),
            Order::DeployAircraftOrder(o) => o.get_id(),
            Order::ChangeShipOrder(o) => o.get_id(),
            Order::ChangeAircraftOrder(o) => o.get_id(),
            Order::LandAircraftOrder(o) => o.get_id(),
        }
    }

    pub fn get_extime(&self) -> (r: i64)
        ensures
            r as int == self.spec_extime(),
    {
        match self {
            Order::DeployShipOrder(o) => o.get_extime(),
            Order::DeployAircraftOrder(o) => o.get_extime(),
            Order::ChangeShipOrder(o) => o.get_extime(),
            Order::ChangeAircraftOrder(o) => o.get_extime(),
            Order::LandAircraftOrder(o) => o.get_extime(),
        }
    }
}

/// Orders compare by execution timestamp alone; orders of different kinds
/// or targets are equal whenever their timestamps coincide.
impl PartialEq for Order {
    fn eq(&self, other: &Order) -> (r: bool) {
        self.get_extime() == other.get_extime()
    }
}

impl vstd::std_specs::cmp::PartialEqSpecImpl for Order {
    open spec fn obeys_eq_spec() -> bool {
        true
    }

    open spec fn eq_spec(&self, other: &Order) -> bool {
        self.spec_extime() == other.spec_extime()
    }
}

impl Eq for Order {}

} // verus!
