//! A deterministic, time-stepped discrete-event simulator of mobile naval
//! entities (ships and aircraft) that receive scheduled orders and update
//! their position over simulated time by dead reckoning.
//!
//! All quantities are held as fixed-point integers so that every computation
//! is exact and checkable:
//! - coordinates, speeds and altitudes are in milli-units (1000 = 1.0);
//! - headings are in milli-degrees, measured clockwise from the +y axis;
//! - timestamps are in seconds.

pub mod location;
pub mod math;
pub mod movable;
pub mod order;
pub mod parse;
pub mod sim_manager;
pub mod trig;
