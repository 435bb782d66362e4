use macbatt::battery::{determine_charging_status, parse_battery_text, parse_field_bool,
    parse_field_u64, parse_ioreg_output, Dialect};
use macbatt::types::{BatteryError, ChargingStatus};

fn dump(flags: &str, battery_data: &str, extra: &str) -> String {
    format!(
        "+-o AppleSmartBattery  <class AppleSmartBattery>\n{}\n\"BatteryData\" = {{{}}}\n{}\n",
        flags, battery_data, extra
    )
}

#[test]
fn registry_external_power_reads_charged() {
    let text = dump(
        "\"ExternalConnected\" = Yes\n\"IsCharging\" = No\n\"FullyCharged\" = No",
        "\"Voltage\"=12345,\"UISoc\"=90,\"CycleCount\"=210",
        "\"TimeRemaining\" = 120",
    );
    let info = parse_ioreg_output(&text).unwrap();
    assert_eq!(info.percentage, 90);
    assert_eq!(info.status, ChargingStatus::Charged);
    assert!(info.time_remaining.is_none());
    assert!(info.time_to_full.is_none());
}

#[test]
fn registry_time_to_full_sentinel_is_absent() {
    let text = dump(
        "\"ExternalConnected\" = Yes\n\"IsCharging\" = Yes\n\"FullyCharged\" = No",
        "\"UISoc\"=40",
        "\"AvgTimeToFull\" = 65535",
    );
    let info = parse_ioreg_output(&text).unwrap();
    assert_eq!(info.status, ChargingStatus::Charging);
    assert!(info.time_to_full.is_none());
}

#[test]
fn registry_time_to_full_in_minutes() {
    let text = dump(
        "\"ExternalConnected\" = Yes\n\"IsCharging\" = Yes\n\"FullyCharged\" = No",
        "\"UISoc\"=40",
        "\"AvgTimeToFull\" = 30",
    );
    let info = parse_ioreg_output(&text).unwrap();
    assert_eq!(info.status, ChargingStatus::Charging);
    assert_eq!(info.time_to_full, Some(30 * 60));
    assert!(info.time_remaining.is_none());
}

#[test]
fn registry_discharging_time_remaining() {
    let text = dump(
        "\"ExternalConnected\" = No\n\"IsCharging\" = No\n\"FullyCharged\" = No",
        "\"UISoc\"=55",
        "\"TimeRemaining\" = 120",
    );
    let info = parse_ioreg_output(&text).unwrap();
    assert_eq!(info.percentage, 55);
    assert_eq!(info.status, ChargingStatus::Discharging);
    assert_eq!(info.time_remaining, Some(120 * 60));
    assert!(info.time_to_full.is_none());
}

#[test]
fn registry_fully_charged_flag_wins() {
    let text = dump(
        "\"ExternalConnected\" = Yes\n\"IsCharging\" = Yes\n\"FullyCharged\" = Yes",
        "\"UISoc\"=100",
        "",
    );
    let info = parse_ioreg_output(&text).unwrap();
    assert_eq!(info.status, ChargingStatus::Charged);
}

#[test]
fn registry_missing_charge_field_is_a_parse_error() {
    let text = dump("\"IsCharging\" = No", "\"Voltage\"=11000", "");
    match parse_ioreg_output(&text) {
        Err(BatteryError::ParseError(m)) => {
            assert_eq!(m, "Could not find UISoc in BatteryData");
        },
        other => panic!("expected a parse error, got {:?}", other),
    }
}

#[test]
fn registry_missing_block_is_a_parse_error() {
    let text = "\"IsCharging\" = No\n\"UISoc\"=50\n".to_string();
    match parse_ioreg_output(&text) {
        Err(BatteryError::ParseError(m)) => {
            assert_eq!(m, "Could not find UISoc in BatteryData");
        },
        other => panic!("expected a parse error, got {:?}", other),
    }
}

#[test]
fn registry_out_of_range_charge_is_invalid() {
    let text = dump("\"IsCharging\" = No", "\"UISoc\"=150", "");
    match parse_ioreg_output(&text) {
        Err(BatteryError::ParseError(m)) => {
            assert_eq!(m, "Invalid UISoc value");
        },
        other => panic!("expected a parse error, got {:?}", other),
    }
}

#[test]
fn registry_charge_fraction_comes_from_the_nested_block() {
    let text = dump(
        "\"ExternalConnected\" = No\n\"IsCharging\" = No\n\"FullyCharged\" = No\n\"CurrentCapacity\" = 4000",
        "\"DesignCapacity\"=5000,\"UISoc\"=77",
        "",
    );
    let info = parse_ioreg_output(&text).unwrap();
    assert_eq!(info.percentage, 77);
}

#[test]
fn field_u64_reads_first_digit_run() {
    let text = "\"TimeRemaining\" = 95 and later \"TimeRemaining\" = 42";
    assert_eq!(parse_field_u64(text, "TimeRemaining"), Some(95));
    assert_eq!(parse_field_u64(text, "AvgTimeToFull"), None);
}

#[test]
fn field_u64_skips_a_digitless_key_occurrence() {
    let text = "\"TimeRemaining\" = x\n\"TimeRemaining\" = 42";
    assert_eq!(parse_field_u64(text, "TimeRemaining"), Some(42));
}

#[test]
fn registry_skips_an_empty_battery_data_group() {
    let text = "\"IsCharging\" = No\n\"BatteryData\" = {}\n\"BatteryData\" = {\"UISoc\"=70}\n";
    let info = parse_ioreg_output(text).unwrap();
    assert_eq!(info.percentage, 70);
}

#[test]
fn registry_skips_a_digitless_field_inside_the_group() {
    let text = "\"IsCharging\" = No\n\"BatteryData\" = {\"UISoc\"=n/a,\"UISoc\"=66}\n";
    let info = parse_ioreg_output(text).unwrap();
    assert_eq!(info.percentage, 66);
}

#[test]
fn registry_unclosed_group_is_a_parse_error() {
    let text = "\"IsCharging\" = No\n\"BatteryData\" = {\"UISoc\"=50\n";
    match parse_ioreg_output(text) {
        Err(BatteryError::ParseError(m)) => {
            assert_eq!(m, "Could not find UISoc in BatteryData");
        },
        other => panic!("expected a parse error, got {:?}", other),
    }
}

#[test]
fn field_bool_requires_the_affirmative_marker() {
    let text = "\"IsCharging\" = No\n\"ExternalConnected\" = Yes";
    assert!(!parse_field_bool(text, "IsCharging"));
    assert!(parse_field_bool(text, "ExternalConnected"));
}

#[test]
fn status_priority_of_flags() {
    assert_eq!(determine_charging_status(true, true, true), ChargingStatus::Charged);
    assert_eq!(determine_charging_status(true, false, false), ChargingStatus::Charging);
    assert_eq!(determine_charging_status(false, true, false), ChargingStatus::Charged);
    assert_eq!(determine_charging_status(false, false, false), ChargingStatus::Discharging);
}

#[test]
fn registry_oversized_minute_count_is_absent() {
    let text = dump(
        "\"ExternalConnected\" = No\n\"IsCharging\" = No\n\"FullyCharged\" = No",
        "\"UISoc\"=55",
        "\"TimeRemaining\" = 999999999999999999999999",
    );
    let info = parse_ioreg_output(&text).unwrap();
    assert_eq!(info.status, ChargingStatus::Discharging);
    assert!(info.time_remaining.is_none());
}

#[test]
fn dispatch_registry_dump() {
    let text = dump(
        "\"ExternalConnected\" = No\n\"IsCharging\" = No\n\"FullyCharged\" = No",
        "\"UISoc\"=66",
        "",
    );
    let info = parse_battery_text(Dialect::RegistryDump, &text).unwrap();
    assert_eq!(info.percentage, 66);
    assert_eq!(info.status, ChargingStatus::Discharging);
}
