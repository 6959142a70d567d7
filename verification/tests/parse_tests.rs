use seawarfare_rs::parse::{parse_milli, parse_whole, str_eq, tokenize};
use seawarfare_rs::sim_manager::Opcode;
use seawarfare_rs::trig::{atan2_compass, cos_of_heading, sin_of_heading};

#[test]
fn test_tokenize_splits_on_whitespace() {
    let toks = tokenize("DeployShip  07/14/2019 12:00:00  CGN-39 10 10 90 20");
    assert_eq!(toks.len(), 8);
    assert_eq!(toks[0], "DeployShip");
    assert_eq!(toks[1], "07/14/2019");
    assert_eq!(toks[7], "20");
}

#[test]
fn test_tokenize_blank_and_edges() {
    assert!(tokenize("").is_empty());
    assert!(tokenize(" \t ").is_empty());
    let toks = tokenize("  one  ");
    assert_eq!(toks, vec![String::from("one")]);
}

#[test]
fn test_parse_milli_values() {
    assert_eq!(parse_milli("12"), Some(12_000));
    assert_eq!(parse_milli("12.5"), Some(12_500));
    assert_eq!(parse_milli("-1"), Some(-1000));
    assert_eq!(parse_milli("-1.0"), Some(-1000));
    assert_eq!(parse_milli("0.123456"), Some(123));
    assert_eq!(parse_milli("0.07"), Some(70));
    assert_eq!(parse_milli("90"), Some(90_000));
}

#[test]
fn test_parse_milli_rejects() {
    assert_eq!(parse_milli(""), None);
    assert_eq!(parse_milli("abc"), None);
    assert_eq!(parse_milli("1."), None);
    assert_eq!(parse_milli(".5"), None);
    assert_eq!(parse_milli("1.2.3"), None);
    assert_eq!(parse_milli("1e5"), None);
    assert_eq!(parse_milli("1234567890123456"), None);
}

#[test]
fn test_parse_whole_values() {
    assert_eq!(parse_whole("30"), Some(30));
    assert_eq!(parse_whole("-7"), Some(-7));
    assert_eq!(parse_whole(""), None);
    assert_eq!(parse_whole("3.5"), None);
    assert_eq!(parse_whole("x"), None);
}

#[test]
fn test_str_eq() {
    assert!(str_eq("StartSim", "StartSim"));
    assert!(!str_eq("StartSim", "StopSim"));
    assert!(!str_eq("a", "ab"));
}

#[test]
fn test_opcode_new() {
    assert_eq!(Opcode::new("StartSim"), Opcode::StartSim);
    assert_eq!(Opcode::new("EndSim"), Opcode::EndSim);
    assert_eq!(Opcode::new("CreateFighter"), Opcode::CreateFighter);
    assert_eq!(Opcode::new("LandAircraft"), Opcode::LandAircraft);
    assert_eq!(Opcode::new("Bogus"), Opcode::Invalid);
    assert_eq!(Opcode::new(""), Opcode::Invalid);
}

#[test]
fn test_trig_cardinal_points() {
    assert_eq!(sin_of_heading(0), 0);
    assert_eq!(cos_of_heading(0), 1_000_000);
    assert_eq!(sin_of_heading(90_000), 1_000_000);
    assert_eq!(cos_of_heading(90_000), 0);
    assert_eq!(sin_of_heading(180_000), 0);
    assert_eq!(cos_of_heading(180_000), -1_000_000);
    assert_eq!(sin_of_heading(270_000), -1_000_000);
    assert_eq!(cos_of_heading(270_000), 0);
    assert_eq!(sin_of_heading(30_000), 500_000);
    // headings wrap
    assert_eq!(sin_of_heading(450_000), 1_000_000);
    assert_eq!(sin_of_heading(-90_000), -1_000_000);
}

#[test]
fn test_atan2_axes() {
    assert_eq!(atan2_compass(0, 1000), 0);
    assert_eq!(atan2_compass(1000, 0), 90_000);
    assert_eq!(atan2_compass(0, -1000), 180_000);
    assert_eq!(atan2_compass(-1000, 0), 270_000);
    assert_eq!(atan2_compass(0, 0), 0);
}

#[test]
fn test_atan2_quadrants() {
    let ne = atan2_compass(1000, 1000);
    assert!(ne > 0 && ne < 90_000);
    let se = atan2_compass(1000, -1000);
    assert!(se > 90_000 && se <= 180_000);
    let sw = atan2_compass(-1000, -1000);
    assert!(sw >= 180_000 && sw < 270_000);
    let nw = atan2_compass(-1000, 1000);
    assert!(nw > 270_000 && nw < 360_000);
}
