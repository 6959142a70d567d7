use seawarfare_rs::location::{calc_new_position, Location};

fn ts(y: i32, mo: u32, d: u32, h: u32, mi: u32, s: u32) -> i64 {
    chrono::NaiveDate::from_ymd_opt(y, mo, d)
        .unwrap()
        .and_hms_opt(h, mi, s)
        .unwrap()
        .and_utc()
        .timestamp()
}

#[test]
fn test_location_new() {
    let t = ts(2015, 10, 21, 17, 2, 0);
    let l = Location::new(1000, 2000, 3000, t);
    assert_eq!(l.get_xyz(), (1000, 2000, 3000));
    assert_eq!(l.get_t(), t);
}

#[test]
fn test_location_new2() {
    let t = ts(2015, 10, 21, 17, 2, 0);
    let l = Location::new2(1000, 2000, t);
    assert_eq!(l.get_xyz(), (1000, 2000, 0));
    assert_eq!(l.get_t(), t);
}

#[test]
fn test_location_default() {
    let l = Location::default();
    assert_eq!(l.get_xyz(), (0, 0, 0));
    assert_eq!(l.get_t(), ts(2000, 1, 1, 0, 0, 0));
}

#[test]
fn test_distance_pythagorean() {
    let t = ts(2015, 10, 21, 17, 2, 0);
    let a = Location::new2(0, 0, t);
    let b = Location::new(3000, 4000, 9999, t);
    // 3-4-5 triangle; the z component is ignored
    assert_eq!(a.distance(&b), 5000);
    assert_eq!(b.distance(&a), 5000);
    assert_eq!(a.distance(&a), 0);
}

#[test]
fn test_distance_rounds_down() {
    let t = ts(2015, 10, 21, 17, 2, 0);
    let a = Location::new2(0, 0, t);
    let b = Location::new2(1000, 1000, t);
    // sqrt(2) thousandths, floor: 1414
    assert_eq!(a.distance(&b), 1414);
}

#[test]
fn test_dead_reckoning_east() {
    let t0 = ts(2020, 1, 1, 0, 0, 0);
    let start = Location::new2(0, 0, t0);
    // heading 90 degrees (east), 60 units/hour, one minute: 1 unit east
    let moved = calc_new_position(start, 90_000, 60_000, t0 + 60, t0);
    assert_eq!(moved.get_xyz(), (1000, 0, 0));
    assert_eq!(moved.get_t(), t0 + 60);
}

#[test]
fn test_dead_reckoning_north_keeps_z() {
    let t0 = ts(2020, 1, 1, 0, 0, 0);
    let start = Location::new(0, 0, 7000, t0);
    // heading 0 (north), 3600 units/hour for 10 seconds: 10 units north
    let moved = calc_new_position(start, 0, 3_600_000, t0 + 10, t0);
    assert_eq!(moved.get_xyz(), (0, 10_000, 7000));
}

#[test]
fn test_dead_reckoning_round_trip_west() {
    let t0 = ts(2020, 1, 1, 0, 0, 0);
    let start = Location::new2(500, -200, t0);
    let there = calc_new_position(start, 90_000, 300_000, t0 + 120, t0);
    assert_eq!(there.get_xyz(), (500 + 10_000, -200, 0));
    let back = calc_new_position(there, 270_000, 300_000, t0 + 240, t0 + 120);
    assert_eq!(back.get_xyz(), (500, -200, 0));
}

#[test]
fn test_dead_reckoning_zero_duration() {
    let t0 = ts(2020, 1, 1, 0, 0, 0);
    let start = Location::new2(123, 456, t0);
    let moved = calc_new_position(start, 45_000, 999_000, t0, t0);
    assert_eq!(moved.get_xyz(), (123, 456, 0));
}
