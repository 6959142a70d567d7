use seawarfare_rs::movable::Movable;
use seawarfare_rs::sim_manager::SimManager;

fn ts(y: i32, mo: u32, d: u32, h: u32, mi: u32, s: u32) -> i64 {
    chrono::NaiveDate::from_ymd_opt(y, mo, d)
        .unwrap()
        .and_hms_opt(h, mi, s)
        .unwrap()
        .and_utc()
        .timestamp()
}

fn lines(texts: &[&str]) -> Vec<String> {
    texts.iter().map(|s| s.to_string()).collect()
}

#[test]
fn test_init_start_stop() {
    let mut sim = SimManager::new();
    let ok = sim.init(&lines(&[
        "# a comment",
        "",
        "StartSim 10/21/2015 17:02:00",
        "EndSim 10/21/2015 18:02:00",
    ]));
    assert!(ok);
    assert_eq!(sim.get_start(), ts(2015, 10, 21, 17, 2, 0));
    assert_eq!(sim.get_stop(), ts(2015, 10, 21, 18, 2, 0));
}

#[test]
fn test_init_rejects_bad_keyword() {
    let mut sim = SimManager::new();
    assert!(!sim.init(&lines(&["Bogus 10/21/2015 17:02:00"])));
}

#[test]
fn test_init_rejects_bad_timestamp() {
    let mut sim = SimManager::new();
    assert!(!sim.init(&lines(&["StartSim 99/99/9999 17:02:00"])));
    let mut sim2 = SimManager::new();
    assert!(!sim2.init(&lines(&["StartSim 10/21/2015"])));
}

#[test]
fn test_init_rejects_bad_number() {
    let mut sim = SimManager::new();
    assert!(!sim.init(&lines(&["CreateCruiser Chelsey I264 twelve 30"])));
    let mut sim2 = SimManager::new();
    assert!(!sim2.init(&lines(&["CreateCruiser Chelsey I264 12"])));
}

#[test]
fn test_init_builds_navy() {
    let mut sim = SimManager::new();
    let ok = sim.init(&lines(&[
        "CreateCruiser Chelsey I264 12 30",
        "CreateAircraftCarrier Nimitz CVN-68 25 70",
        "CreateFighter Hornet FA18C_1 CVN-68 1000 50000 10",
    ]));
    assert!(ok);
    let navy = sim.get_navy();
    assert_eq!(navy.len(), 3);
    assert_eq!(navy[0].get_id(), "I264");
    assert_eq!(navy[1].get_id(), "CVN-68");
    assert_eq!(navy[2].get_id(), "FA18C_1");
    match &navy[0] {
        Movable::Cruiser(c) => {
            assert_eq!(c.max_speed, 12_000);
            assert_eq!(c.max_missles, 30);
        },
        _ => panic!("expected a cruiser"),
    }
}

#[test]
fn test_init_replaces_duplicate_id() {
    let mut sim = SimManager::new();
    let ok = sim.init(&lines(&[
        "CreateCruiser Chelsey I264 12 30",
        "CreateCruiser Chelsey2 I264 14 40",
    ]));
    assert!(ok);
    let navy = sim.get_navy();
    assert_eq!(navy.len(), 1);
    assert_eq!(navy[0].get_name(), "Chelsey2");
}

#[test]
fn test_order_queue_sorted_and_stable() {
    let mut sim = SimManager::new();
    let ok = sim.init(&lines(&[
        "CreateCruiser A CA-1 12 30",
        "CreateCruiser B CA-2 12 30",
        // two orders at one time, in file order, then an earlier one
        "ChangeShipOrders 07/14/2019 12:10:00 CA-1 90 10",
        "ChangeShipOrders 07/14/2019 12:10:00 CA-2 180 10",
        "ChangeShipOrders 07/14/2019 12:00:00 CA-2 270 10",
    ]));
    assert!(ok);
    let q = sim.get_orders();
    assert_eq!(q.len(), 3);
    // the earlier order comes first; the equal-time pair keeps file order
    assert_eq!(q[0].order.get_extime(), ts(2019, 7, 14, 12, 0, 0));
    assert_eq!(q[0].order.get_id(), "CA-2");
    assert_eq!(q[1].order.get_extime(), ts(2019, 7, 14, 12, 10, 0));
    assert_eq!(q[1].order.get_id(), "CA-1");
    assert_eq!(q[2].order.get_extime(), ts(2019, 7, 14, 12, 10, 0));
    assert_eq!(q[2].order.get_id(), "CA-2");
    assert!(q[0].rank == 2 && q[1].rank == 0 && q[2].rank == 1);
}

#[test]
fn test_unknown_target_order_is_dropped() {
    let mut sim = SimManager::new();
    let ok = sim.init(&lines(&[
        "StartSim 07/14/2019 12:00:00",
        "EndSim 07/14/2019 12:02:00",
        "CreateCruiser Chelsey I264 12 30",
        "DeployShip 07/14/2019 12:00:00 GHOST 0 0 90 10",
    ]));
    assert!(ok);
    assert_eq!(sim.get_orders().len(), 1);
    // the run survives the unknown id, drops the order, and no entity moves
    assert!(sim.execute());
    assert_eq!(sim.get_orders().len(), 0);
    let navy = sim.get_navy();
    assert!(!navy[0].get_is_deployed());
    assert!(navy[0].get_history().is_empty());
}

#[test]
fn test_do_update_deploys_and_repositions() {
    let mut sim = SimManager::new();
    let ok = sim.init(&lines(&[
        "CreateCruiser Chelsey I264 12 30",
        "DeployShip 07/14/2019 12:00:00 I264 0 0 90 60",
    ]));
    assert!(ok);
    let t0 = ts(2019, 7, 14, 12, 0, 0);
    assert!(sim.do_update(t0));
    // the deploy order executed and the same tick's repositioning was a
    // zero-duration no-op: one history entry at the deploy point
    assert_eq!(sim.get_navy()[0].get_history().len(), 1);
    assert!(sim.do_update(t0 + 60));
    let hist = sim.get_navy()[0].get_history();
    assert_eq!(hist.len(), 2);
    // 60 units/hour east for one minute: one unit
    assert_eq!(hist[1].get_xyz(), (1000, 0, 0));
}

#[test]
fn test_missing_carrier_is_fatal() {
    let mut sim = SimManager::new();
    let ok = sim.init(&lines(&[
        "StartSim 01/01/2020 00:00:00",
        "EndSim 01/01/2020 00:02:00",
        "CreateFighter Hornet FA18C_1 NOWHERE 1000 50000 10",
        "DeployAircraft 01/01/2020 00:00:00 FA18C_1 90 300 10000",
    ]));
    assert!(ok);
    // the fighter's carrier id resolves to nothing: the run aborts
    assert!(!sim.execute());
}

#[test]
fn test_landing_scenario_end_to_end() {
    let mut sim = SimManager::new();
    let ok = sim.init(&lines(&[
        "StartSim 01/01/2020 00:00:00",
        "EndSim 01/01/2020 00:20:00",
        "CreateAircraftCarrier Nimitz CVN-68 0 70",
        "CreateFighter Hornet FA18C_1 CVN-68 1000 50000 10",
        "DeployAircraft 01/01/2020 00:00:00 FA18C_1 90 300 10000",
        "LandAircraft 01/01/2020 00:05:00 CVN-68 FA18C_1",
    ]));
    assert!(ok);
    assert!(sim.execute());
    let t0 = ts(2020, 1, 1, 0, 0, 0);
    let navy = sim.get_navy();
    let fighter = match &navy[1] {
        Movable::Fighter(f) => f,
        _ => panic!("expected the fighter"),
    };
    // flying east at 300 units/hour, 5 units per tick; the land order takes
    // effect at minute five, with the fighter 25 units out
    let hist = fighter.get_history();
    assert_eq!(hist[0].get_xyz(), (0, 0, 10_000_000));
    assert_eq!(hist[0].get_t(), t0);
    assert_eq!(hist[5].get_xyz(), (25_000, 0, 10_000_000));
    // by the next tick the heading has been overridden toward the carrier
    assert_eq!(fighter.heading, 270_000);
    assert_eq!(hist[6].get_xyz(), (20_000, 0, 10_000_000));
    // at the first tick within reach (distance 5 <= 300/60) it grounds,
    // with altitude zero in that same tick's history entry, and stays down
    let last = hist[hist.len() - 1];
    assert_eq!(last.get_xyz(), (5_000, 0, 0));
    assert_eq!(last.get_t(), t0 + 9 * 60);
    assert_eq!(hist.len(), 10);
    assert!(!fighter.is_deployed);
    assert!(!fighter.is_landing);
    assert_eq!(fighter.altitude, 0);
    assert!(fighter.was_deployed);
}

#[test]
fn test_change_orders_sentinel() {
    let mut sim = SimManager::new();
    let ok = sim.init(&lines(&[
        "StartSim 07/14/2019 12:00:00",
        "EndSim 07/14/2019 12:03:00",
        "CreateCruiser Chelsey I264 12 30",
        "DeployShip 07/14/2019 12:00:00 I264 0 0 0 60",
        "ChangeShipOrders 07/14/2019 12:02:00 I264 90 -1",
    ]));
    assert!(ok);
    assert!(sim.execute());
    let navy = sim.get_navy();
    match &navy[0] {
        Movable::Cruiser(c) => {
            // the heading changed at minute two; the sentinel kept the speed
            assert_eq!(c.heading, 90_000);
            assert_eq!(c.speed, 60_000);
            // one minute north, then one minute east with the new heading
            assert_eq!(c.get_location().get_xyz(), (1000, 1000, 0));
        },
        _ => panic!("expected the cruiser"),
    }
}
