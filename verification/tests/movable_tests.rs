use seawarfare_rs::location::Location;
use seawarfare_rs::movable::{Carrier, Cruiser, Fighter};
use seawarfare_rs::order::{DeployShip, LandAircraft, Order};

fn ts(y: i32, mo: u32, d: u32, h: u32, mi: u32, s: u32) -> i64 {
    chrono::NaiveDate::from_ymd_opt(y, mo, d)
        .unwrap()
        .and_hms_opt(h, mi, s)
        .unwrap()
        .and_utc()
        .timestamp()
}

#[test]
fn test_cruiser_new() {
    let a = Cruiser::new(String::from("Chelsey"), String::from("I264"), 12_000, 30);
    assert_eq!(a.get_name(), "Chelsey");
    assert_eq!(a.get_id(), "I264");
    assert!(!a.get_is_deployed());
    assert!(!a.get_was_deployed());
    assert_eq!(a.max_speed, 12_000);
    assert_eq!(a.max_missles, 30);
    assert!(a.get_history().is_empty());
}

#[test]
fn test_carrier_new() {
    let a = Carrier::new(String::from("Gertrude"), String::from("P131"), 25_000, 15);
    assert_eq!(a.get_name(), "Gertrude");
    assert_eq!(a.get_id(), "P131");
    assert!(!a.get_is_deployed());
    assert_eq!(a.max_aircraft, 15);
}

#[test]
fn test_fighter_new() {
    let a = Fighter::new(
        String::from("Brunhilde"),
        String::from("G264"),
        500_000,
        String::from("P131"),
        100_000_000,
        20,
    );
    assert_eq!(a.get_name(), "Brunhilde");
    assert_eq!(a.get_id(), "G264");
    assert_eq!(a.ship_id, "P131");
    assert!(!a.is_landing);
    assert_eq!(a.altitude, 0);
}

#[test]
fn test_execute_order() {
    let mut a = Cruiser::new(String::from("Chelsey"), String::from("I264"), 12_000, 30);
    let atime = ts(2015, 10, 21, 17, 2, 0);
    let op = DeployShip::new(atime, String::from("CGN-39"), 0, 0, 0, 0);
    let order = Order::DeployShipOrder(op);
    a.execute(&order);
    assert!(a.get_is_deployed());
    assert!(a.get_was_deployed());
    assert_eq!(a.at, atime);
    assert_eq!(a.get_history().len(), 1);
}

#[test]
fn test_cruiser_deploy_and_change() {
    let mut a = Cruiser::new(String::from("Chelsey"), String::from("I264"), 12_000, 30);
    let t = ts(2019, 7, 14, 12, 0, 0);
    assert!(a.deploy(10_000, 20_000, 90_000, 8_000, t));
    assert_eq!(a.get_location().get_xyz(), (10_000, 20_000, 0));
    assert_eq!(a.heading, 90_000);
    assert_eq!(a.speed, 8_000);
    // the sentinel -1.0 leaves a field unchanged
    assert!(a.change(-1000, 9_000, 0, t));
    assert_eq!(a.heading, 90_000);
    assert_eq!(a.speed, 9_000);
    assert!(a.change(180_000, -1000, 0, t));
    assert_eq!(a.heading, 180_000);
    assert_eq!(a.speed, 9_000);
}

#[test]
fn test_update_position_zero_duration_is_noop() {
    let mut a = Cruiser::new(String::from("Chelsey"), String::from("I264"), 12_000, 30);
    let t = ts(2019, 7, 14, 12, 0, 0);
    a.deploy(0, 0, 0, 60_000, t);
    a.update_position(t + 60);
    let len_after_first = a.get_history().len();
    let pos = a.get_location().get_xyz();
    // repositioning again at the same timestamp adds nothing and moves nothing
    a.update_position(t + 60);
    assert_eq!(a.get_history().len(), len_after_first);
    assert_eq!(a.get_location().get_xyz(), pos);
}

#[test]
fn test_fighter_deploy_takes_off_from_carrier() {
    let mut f = Fighter::new(
        String::from("Hornet"),
        String::from("FA18C_1"),
        1_000_000,
        String::from("CVN-68"),
        50_000_000,
        10,
    );
    let t = ts(2020, 1, 1, 0, 0, 0);
    assert!(f.deploy(90_000, 300_000, 10_000_000, t));
    // takes off from the carrier's cached location (the origin), at altitude
    assert_eq!(f.get_location().get_xyz(), (0, 0, 10_000_000));
    assert_eq!(f.altitude, 10_000_000);
    assert!(f.get_is_deployed());
}

#[test]
fn test_fighter_change_ignores_heading_while_landing() {
    let mut f = Fighter::new(
        String::from("Hornet"),
        String::from("FA18C_1"),
        1_000_000,
        String::from("CVN-68"),
        50_000_000,
        10,
    );
    let t = ts(2020, 1, 1, 0, 0, 0);
    f.deploy(90_000, 300_000, 10_000_000, t);
    f.land(String::from("CVN-68"), t);
    assert!(f.is_landing);
    f.change(45_000, 200_000, -1000, t);
    // speed changes, heading does not while landing
    assert_eq!(f.speed, 200_000);
    assert_eq!(f.heading, 90_000);
}

#[test]
fn test_fighter_lands_within_reach() {
    let mut f = Fighter::new(
        String::from("Hornet"),
        String::from("FA18C_1"),
        1_000_000,
        String::from("CVN-68"),
        50_000_000,
        10,
    );
    let t = ts(2020, 1, 1, 0, 0, 0);
    let carrier_loc = Location::new2(0, 0, t);
    f.deploy(90_000, 300_000, 10_000_000, t);
    f.land(String::from("CVN-68"), t);
    // one minute east covers 5 units; distance 5 <= 300/60 = 5: grounded
    f.update_position(t + 60, carrier_loc);
    assert!(!f.get_is_deployed());
    assert!(!f.is_landing);
    assert_eq!(f.altitude, 0);
    let last = f.get_history()[f.get_history().len() - 1];
    assert_eq!(last.get_xyz(), (5000, 0, 0));
    // grounding happened exactly once: the flags never oscillate back
    assert!(f.get_was_deployed());
}

#[test]
fn test_fighter_steers_toward_carrier_when_out_of_reach() {
    let mut f = Fighter::new(
        String::from("Hornet"),
        String::from("FA18C_1"),
        1_000_000,
        String::from("CVN-68"),
        50_000_000,
        10,
    );
    let t = ts(2020, 1, 1, 0, 0, 0);
    let carrier_loc = Location::new2(0, 0, t);
    f.deploy(90_000, 600_000, 10_000_000, t);
    f.land(String::from("CVN-68"), t);
    // one minute east covers 10 units; reach is 600/60 = 10 units only after
    // the next minute, so the fighter turns west instead
    f.update_position(t + 120, carrier_loc);
    assert!(f.get_is_deployed());
    assert!(f.is_landing);
    assert_eq!(f.heading, 270_000);
}
