use macbatt::battery::{parse_battery_text, parse_pmset_output, Dialect};
use macbatt::types::{BatteryError, ChargingStatus};

#[test]
fn status_line_discharging_with_estimate() {
    let text = "Now drawing from 'Battery Power'\n -InternalBattery-0 (id=12345)\t45%; discharging; 2:30 remaining present: true";
    let info = parse_pmset_output(text).unwrap();
    assert_eq!(info.percentage, 45);
    assert_eq!(info.status, ChargingStatus::Discharging);
    assert_eq!(info.time_remaining, Some(9000));
    assert!(info.time_to_full.is_none());
}

#[test]
fn status_line_charging_with_estimate() {
    let text = "-InternalBattery-0 (id=7)\t63%; charging; 0:45 until charged";
    let info = parse_pmset_output(text).unwrap();
    assert_eq!(info.percentage, 63);
    assert_eq!(info.status, ChargingStatus::Charging);
    assert_eq!(info.time_to_full, Some(2700));
    assert!(info.time_remaining.is_none());
}

#[test]
fn status_line_charged() {
    let text = "100%; charged; 0:00 remaining";
    let info = parse_pmset_output(text).unwrap();
    assert_eq!(info.percentage, 100);
    assert_eq!(info.status, ChargingStatus::Charged);
    assert!(info.time_remaining.is_none());
    assert!(info.time_to_full.is_none());
}

#[test]
fn status_line_ac_attached_case_insensitive() {
    let text = "95%; AC attached; not a word about anything else";
    let info = parse_pmset_output(text).unwrap();
    assert_eq!(info.status, ChargingStatus::Charged);
}

#[test]
fn status_line_unknown_without_markers() {
    let text = "battery level 50% and nothing more";
    let info = parse_pmset_output(text).unwrap();
    assert_eq!(info.status, ChargingStatus::Unknown);
    assert!(info.time_remaining.is_none());
}

#[test]
fn status_line_no_estimate_marker_means_absent() {
    let text = "45%; discharging; (no estimate) present: true";
    let info = parse_pmset_output(text).unwrap();
    assert_eq!(info.status, ChargingStatus::Discharging);
    assert!(info.time_remaining.is_none());
}

#[test]
fn status_line_calculating_marker_means_absent() {
    let text = "45%; discharging; calculating; 2:30 remaining";
    let info = parse_pmset_output(text).unwrap();
    assert!(info.time_remaining.is_none());
}

#[test]
fn status_line_missing_percentage() {
    let text = "discharging; 2:30 remaining";
    match parse_pmset_output(text) {
        Err(BatteryError::ParseError(m)) => assert_eq!(m, "Could not find percentage"),
        other => panic!("expected a parse error, got {:?}", other),
    }
}

#[test]
fn status_line_out_of_range_percentage() {
    let text = "999%; discharging";
    match parse_pmset_output(text) {
        Err(BatteryError::ParseError(m)) => assert_eq!(m, "Invalid percentage value"),
        other => panic!("expected a parse error, got {:?}", other),
    }
}

#[test]
fn status_line_first_percent_group_wins() {
    let text = "12%; discharging; later also 99%";
    let info = parse_pmset_output(text).unwrap();
    assert_eq!(info.percentage, 12);
}

#[test]
fn status_line_long_clock_group() {
    let text = "45%; discharging; 10:05 remaining";
    let info = parse_pmset_output(text).unwrap();
    assert_eq!(info.time_remaining, Some(10 * 3600 + 5 * 60));
}

#[test]
fn status_line_oversized_clock_group_is_absent() {
    let text = "45%; discharging; 99999999999999999999:30 remaining";
    let info = parse_pmset_output(text).unwrap();
    assert_eq!(info.status, ChargingStatus::Discharging);
    assert!(info.time_remaining.is_none());
}

#[test]
fn dispatch_status_line() {
    let text = "45%; discharging; 2:30 remaining";
    let info = parse_battery_text(Dialect::StatusLine, text).unwrap();
    assert_eq!(info.percentage, 45);
    assert_eq!(info.time_remaining, Some(9000));
}
