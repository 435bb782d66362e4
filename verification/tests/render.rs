use macbatt::display::{format_battery_display, format_charging_status, format_duration,
    format_live_mode_indicator, format_percentage, format_time_remaining, format_time_to_full};
use macbatt::types::{BatteryInfo, BatteryState, ChargingStatus};

fn info(
    percentage: u8,
    status: ChargingStatus,
    time_remaining: Option<u64>,
    time_to_full: Option<u64>,
) -> BatteryInfo {
    BatteryInfo { percentage, status, time_remaining, time_to_full }
}

#[test]
fn duration_with_hours() {
    assert_eq!(format_duration(9000), "2h 30m");
}

#[test]
fn duration_without_hours() {
    assert_eq!(format_duration(1800), "30m");
}

#[test]
fn duration_zero() {
    assert_eq!(format_duration(0), "0m");
}

#[test]
fn duration_whole_hour() {
    assert_eq!(format_duration(3600), "1h 0m");
}

#[test]
fn duration_truncates_seconds() {
    assert_eq!(format_duration(3661), "1h 1m");
}

#[test]
fn percentage_normal_is_plain() {
    assert_eq!(format_percentage(50, &BatteryState::Normal), "50%");
}

#[test]
fn percentage_warning_is_marked_yellow() {
    assert_eq!(
        format_percentage(10, &BatteryState::Warning),
        "\u{1b}[33m\u{26a0}\u{1b}[0m \u{1b}[33m10%\u{1b}[0m"
    );
}

#[test]
fn percentage_critical_is_marked_red() {
    assert_eq!(
        format_percentage(4, &BatteryState::Critical),
        "\u{1b}[31m\u{26a0}\u{1b}[0m \u{1b}[31m4%\u{1b}[0m"
    );
}

#[test]
fn charging_status_labels() {
    assert_eq!(format_charging_status(&ChargingStatus::Charging), "Charging");
    assert_eq!(format_charging_status(&ChargingStatus::Discharging), "Discharging");
    assert_eq!(format_charging_status(&ChargingStatus::Charged), "Charged");
    assert_eq!(format_charging_status(&ChargingStatus::Unknown), "Unknown");
}

#[test]
fn full_battery_overrides_computed_charge_time() {
    let i = info(100, ChargingStatus::Charging, None, Some(600));
    assert_eq!(format_time_to_full(&i, &ChargingStatus::Charging), "Fully Charged");
    let report = format_battery_display(&i, &BatteryState::Normal);
    assert!(report.contains("Charge Time: Fully Charged\n"));
    assert!(!report.contains("10m"));
}

#[test]
fn full_battery_charged_reads_fully_charged() {
    let i = info(100, ChargingStatus::Charged, Some(60), None);
    assert_eq!(format_time_remaining(&i, &ChargingStatus::Charged), "Fully Charged");
}

#[test]
fn discharging_without_estimate_reads_calculating() {
    let i = info(50, ChargingStatus::Discharging, None, None);
    assert_eq!(format_time_remaining(&i, &ChargingStatus::Discharging), "Calculating");
    let report = format_battery_display(&i, &BatteryState::Normal);
    assert!(report.contains("Time Left:   Calculating\n"));
}

#[test]
fn charging_without_estimate_reads_calculating() {
    let i = info(50, ChargingStatus::Charging, None, None);
    assert_eq!(format_time_to_full(&i, &ChargingStatus::Charging), "Calculating");
}

#[test]
fn time_cells_read_not_applicable_for_other_statuses() {
    let i = info(50, ChargingStatus::Charged, Some(60), Some(60));
    assert_eq!(format_time_remaining(&i, &ChargingStatus::Charged), "N/A");
    assert_eq!(format_time_to_full(&i, &ChargingStatus::Unknown), "N/A");
}

#[test]
fn full_report_for_a_discharging_battery() {
    let i = info(75, ChargingStatus::Discharging, Some(9000), None);
    let expected = format!(
        "Battery Status\n{}\nCharge:      75%\nStatus:      Discharging\nTime Left:   2h 30m\n",
        "\u{2501}".repeat(14)
    );
    assert_eq!(format_battery_display(&i, &BatteryState::Normal), expected);
}

#[test]
fn full_report_hides_time_lines_for_charged() {
    let i = info(80, ChargingStatus::Charged, None, None);
    let report = format_battery_display(&i, &BatteryState::Normal);
    assert!(!report.contains("Time Left"));
    assert!(!report.contains("Charge Time"));
    assert!(report.contains("Status:      Charged\n"));
}

#[test]
fn live_mode_indicator_names_the_interval() {
    assert_eq!(
        format_live_mode_indicator(5),
        "\n[Live mode: Updates every 5s | Press Ctrl+C to exit]"
    );
}
