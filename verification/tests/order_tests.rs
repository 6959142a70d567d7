use seawarfare_rs::order::{
    ChangeAircraft, ChangeShip, DeployAircraft, DeployShip, LandAircraft, Order,
};

fn ts(y: i32, mo: u32, d: u32, h: u32, mi: u32, s: u32) -> i64 {
    chrono::NaiveDate::from_ymd_opt(y, mo, d)
        .unwrap()
        .and_hms_opt(h, mi, s)
        .unwrap()
        .and_utc()
        .timestamp()
}

#[test]
fn test_deploy_ship_new() {
    let atime = ts(2015, 10, 21, 17, 2, 0);
    let a = DeployShip::new(atime, String::from("CGN-39"), 0, 0, 0, 0);
    assert_eq!(a.get_id(), "CGN-39");
    assert_eq!(a.get_extime(), atime);
}

#[test]
fn test_deploy_aircraft_new() {
    let atime = ts(2015, 11, 21, 17, 10, 0);
    let a = DeployAircraft::new(atime, String::from("FA18C_1"), 0, 0, 0);
    assert_eq!(a.get_id(), "FA18C_1");
    assert_eq!(a.get_extime(), atime);
}

#[test]
fn test_change_ship_new() {
    let atime = ts(2015, 11, 21, 17, 12, 0);
    let a = ChangeShip::new(atime, String::from("CGN-39"), 0, 100_000);
    assert_eq!(a.get_id(), "CGN-39");
    assert_eq!(a.get_extime(), atime);
    assert_eq!(a.speed, 100_000);
}

#[test]
fn test_change_aircraft_new() {
    let atime = ts(2015, 11, 21, 17, 13, 0);
    let a = ChangeAircraft::new(atime, String::from("FA18C_1"), 0, 500_000, -1000);
    assert_eq!(a.get_id(), "FA18C_1");
    assert_eq!(a.get_extime(), atime);
    assert_eq!(a.altitude, -1000);
}

#[test]
fn test_land_aircraft_new() {
    let atime = ts(2015, 11, 21, 17, 13, 0);
    let a = LandAircraft::new(atime, String::from("FA18C_1"), String::from("CVN-68"));
    assert_eq!(a.get_id(), "FA18C_1");
    assert_eq!(a.ship_id, "CVN-68");
    assert_eq!(a.get_extime(), atime);
}

#[test]
fn test_order_equals() {
    let atime = ts(2015, 10, 21, 17, 2, 0);
    let a = DeployShip::new(atime, String::from("CGN-39"), 0, 0, 0, 0);
    let b = DeployShip::new(atime, String::from("CVN-68"), 1000, 1000, 0, 0);
    assert!(Order::DeployShipOrder(a) == Order::DeployShipOrder(b));
}

#[test]
fn test_order_equals_not() {
    let atime = ts(2015, 10, 21, 17, 2, 0);
    let a = DeployShip::new(atime, String::from("CGN-39"), 0, 0, 0, 0);
    let btime = atime - 1;
    let b = DeployShip::new(btime, String::from("CVN-68"), 1000, 1000, 0, 0);
    assert!(Order::DeployShipOrder(a) != Order::DeployShipOrder(b));
}

#[test]
fn test_order_get_id_dispatch() {
    let atime = ts(2015, 10, 21, 17, 2, 0);
    let o = Order::LandAircraftOrder(LandAircraft::new(
        atime,
        String::from("FA18C_1"),
        String::from("CVN-68"),
    ));
    assert_eq!(o.get_id(), "FA18C_1");
    assert_eq!(o.get_extime(), atime);
}
