//! Rendering a battery reading as a styled, human-readable text block.

use vstd::prelude::*;
use vstd::string::{StrSliceExecFns, StringExecFns};
use crate::text::{dec_str, u64_to_dec};
use crate::types::{BatteryInfo, BatteryState, ChargingStatus};

verus! {

/// A duration in seconds rendered as hours and minutes: `Hh Mm` when there
/// is a whole hour, else just `Mm`.
pub open spec fn spec_format_duration(total_seconds: u64) -> Seq<char> {
    let hours = total_seconds as int / 3600;
    let minutes = (total_seconds as int % 3600) / 60;
    if hours > 0 {
        dec_str(hours) + "h "@ + dec_str(minutes) + "m"@
    } else {
        dec_str(minutes) + "m"@
    }
}

/// The percentage with its severity styling: plain when normal, and a
/// colored warning marker and colored digits otherwise.
pub open spec fn spec_format_percentage(percentage: u8, state: BatteryState) -> Seq<char> {
    match state {
        BatteryState::Critical => "\u{1b}[31m\u{26a0}\u{1b}[0m \u{1b}[31m"@ + dec_str(
            percentage as int,
        ) + "%\u{1b}[0m"@,
        BatteryState::Warning => "\u{1b}[33m\u{26a0}\u{1b}[0m \u{1b}[33m"@ + dec_str(
            percentage as int,
        ) + "%\u{1b}[0m"@,
        BatteryState::Normal => dec_str(percentage as int) + "%"@,
    }
}

/// The label of a charging status.
pub open spec fn spec_format_charging_status(status: ChargingStatus) -> Seq<char> {
    match status {
        ChargingStatus::Charging => "Charging"@,
        ChargingStatus::Discharging => "Discharging"@,
        ChargingStatus::Charged => "Charged"@,
        ChargingStatus::Unknown => "Unknown"@,
    }
}

/// The time-left cell: a full battery on power reads "Fully Charged"
/// whatever estimate is stored; otherwise a discharging battery shows its
/// estimate, or "Calculating" without one; any other status reads "N/A".
pub open spec fn spec_format_time_remaining(
    info: BatteryInfo,
    status: ChargingStatus,
) -> Seq<char> {
    if info.percentage == 100 && (status == ChargingStatus::Charged || status
        == ChargingStatus::Charging) {
        "Fully Charged"@
    } else {
        match status {
            ChargingStatus::Discharging => match info.time_remaining {
                Option::Some(d) => spec_format_duration(d),
                Option::None => "Calculating"@,
            },
            _ => "N/A"@,
        }
    }
}

/// The charge-time cell: a full battery on power reads "Fully Charged"
/// whatever estimate is stored; otherwise a charging battery shows its
/// estimate, or "Calculating" without one; any other status reads "N/A".
pub open spec fn spec_format_time_to_full(info: BatteryInfo, status: ChargingStatus) -> Seq<
    char,
> {
    if info.percentage == 100 && (status == ChargingStatus::Charged || status
        == ChargingStatus::Charging) {
        "Fully Charged"@
    } else {
        match status {
            ChargingStatus::Charging => match info.time_to_full {
                Option::Some(d) => spec_format_duration(d),
                Option::None => "Calculating"@,
            },
            _ => "N/A"@,
        }
    }
}

/// The whole report: header, charge and status lines always; a time-left
/// line only while discharging; a charge-time line only while charging.
pub open spec fn spec_format_battery_display(info: BatteryInfo, state: BatteryState) -> Seq<
    char,
> {
    "Battery Status\n"@ + "\u{2501}\u{2501}\u{2501}\u{2501}\u{2501}\u{2501}\u{2501}\u{2501}\u{2501}\u{2501}\u{2501}\u{2501}\u{2501}\u{2501}\n"@
        + "Charge:      "@ + spec_format_percentage(info.percentage, state) + "\n"@
        + "Status:      "@ + spec_format_charging_status(info.status) + "\n"@ + (
    if info.status == ChargingStatus::Discharging {
        "Time Left:   "@ + spec_format_time_remaining(info, info.status) + "\n"@
    } else {
        Seq::<char>::empty()
    }) + (if info.status == ChargingStatus::Charging {
        "Charge Time: "@ + spec_format_time_to_full(info, info.status) + "\n"@
    } else {
        Seq::<char>::empty()
    })
}

/// The refresh-indicator line of live mode.
pub open spec fn spec_live_mode_indicator(refresh_interval: u64) -> Seq<char> {
    "\n[Live mode: Updates every "@ + dec_str(refresh_interval as int)
        + "s | Press Ctrl+C to exit]"@
}

/// A full battery on power reads "Fully Charged" in both time cells,
/// whatever estimates the reading stores.
pub proof fn lemma_full_battery_reads_fully_charged(info: BatteryInfo)
    requires
        info.percentage == 100,
        info.status == ChargingStatus::Charging || info.status == ChargingStatus::Charged,
    ensures
        spec_format_time_remaining(info, info.status) == "Fully Charged"@,
        spec_format_time_to_full(info, info.status) == "Fully Charged"@,
{
}

/// A discharging battery without an estimate reads "Calculating" in its
/// time-left cell, whatever the percentage.
pub proof fn lemma_discharging_without_estimate_reads_calculating(info: BatteryInfo)
    requires
        info.status == ChargingStatus::Discharging,
        info.time_remaining is None,
    ensures
        spec_format_time_remaining(info, info.status) == "Calculating"@,
{
}

/// Renders a duration given in whole seconds.
pub fn format_duration(total_seconds: u64) -> (r: String)
    ensures
        r@ == spec_format_duration(total_seconds),
{
    let hours = total_seconds / 3600;
    let minutes = (total_seconds % 3600) / 60;
    if hours > 0 {
        let mut s = u64_to_dec(hours);
        s.append("h ");
        let ms = u64_to_dec(minutes);
        s.append(ms.as_str());
        s.append("m");
        proof {
            assert(s@ =~= spec_format_duration(total_seconds));
        }
        s
    } else {
        let mut s = u64_to_dec(minutes);
        s.append("m");
        s
    }
}

/// Renders the percentage with its severity marker and color.
pub fn format_percentage(percentage: u8, state: &BatteryState) -> (r: String)
    ensures
        r@ == spec_format_percentage(percentage, *state),
{
    match state {
        BatteryState::Critical => {
            let mut s = "\u{1b}[31m\u{26a0}\u{1b}[0m \u{1b}[31m".to_owned();
            let ds = u64_to_dec(percentage as u64);
            s.append(ds.as_str());
            s.append("%\u{1b}[0m");
            proof {
                assert(s@ =~= spec_format_percentage(percentage, *state));
            }
            s
        },
        BatteryState::Warning => {
            let mut s = "\u{1b}[33m\u{26a0}\u{1b}[0m \u{1b}[33m".to_owned();
            let ds = u64_to_dec(percentage as u64);
            s.append(ds.as_str());
            s.append("%\u{1b}[0m");
            proof {
                assert(s@ =~= spec_format_percentage(percentage, *state));
            }
            s
        },
        BatteryState::Normal => {
            let mut s = u64_to_dec(percentage as u64);
            s.append("%");
            s
        },
    }
}

/// Renders the charging status as its label.
pub fn format_charging_status(status: &ChargingStatus) -> (r: String)
    ensures
        r@ == spec_format_charging_status(*status),
{
    match status {
        ChargingStatus::Charging => "Charging".to_owned(),
        ChargingStatus::Discharging => "Discharging".to_owned(),
        ChargingStatus::Charged => "Charged".to_owned(),
        ChargingStatus::Unknown => "Unknown".to_owned(),
    }
}

/// Renders the time-left cell.
pub fn format_time_remaining(info: &BatteryInfo, status: &ChargingStatus) -> (r: String)
    ensures
        r@ == spec_format_time_remaining(*info, *status),
{
    if info.percentage == 100 && (matches!(status, ChargingStatus::Charged) || matches!(
        status,
        ChargingStatus::Charging,
    )) {
        return "Fully Charged".to_owned();
    }
    match status {
        ChargingStatus::Discharging => {
            match info.time_remaining {
                Some(duration) => format_duration(duration),
                None => "Calculating".to_owned(),
            }
        },
        _ => "N/A".to_owned(),
    }
}

/// Renders the charge-time cell.
pub fn format_time_to_full(info: &BatteryInfo, status: &ChargingStatus) -> (r: String)
    ensures
        r@ == spec_format_time_to_full(*info, *status),
{
    if info.percentage == 100 && (matches!(status, ChargingStatus::Charged) || matches!(
        status,
        ChargingStatus::Charging,
    )) {
        return "Fully Charged".to_owned();
    }
    match status {
        ChargingStatus::Charging => {
            match info.time_to_full {
                Some(duration) => format_duration(duration),
                None => "Calculating".to_owned(),
            }
        },
        _ => "N/A".to_owned(),
    }
}

/// Renders the whole report for one reading.
pub fn format_battery_display(info: &BatteryInfo, state: &BatteryState) -> (r: String)
    ensures
        r@ == spec_format_battery_display(*info, *state),
{
    let mut output = String::new();
    output.append("Battery Status\n");
    output.append(
        "\u{2501}\u{2501}\u{2501}\u{2501}\u{2501}\u{2501}\u{2501}\u{2501}\u{2501}\u{2501}\u{2501}\u{2501}\u{2501}\u{2501}\n",
    );
    output.append("Charge:      ");
    let percentage_str = format_percentage(info.percentage, state);
    output.append(percentage_str.as_str());
    output.append("\n");
    output.append("Status:      ");
    let status_str = format_charging_status(&info.status);
    output.append(status_str.as_str());
    output.append("\n");
    if matches!(info.status, ChargingStatus::Discharging) {
        output.append("Time Left:   ");
        let time_left_str = format_time_remaining(info, &info.status);
        output.append(time_left_str.as_str());
        output.append("\n");
    }
    if matches!(info.status, ChargingStatus::Charging) {
        output.append("Charge Time: ");
        let charge_time_str = format_time_to_full(info, &info.status);
        output.append(charge_time_str.as_str());
        output.append("\n");
    }
    proof {
        assert(output@ =~= spec_format_battery_display(*info, *state));
    }
    output
}

/// Renders the refresh indicator of live mode.
pub fn format_live_mode_indicator(refresh_interval: u64) -> (r: String)
    ensures
        r@ == spec_live_mode_indicator(refresh_interval),
{
    let mut s = "\n[Live mode: Updates every ".to_owned();
    let ds = u64_to_dec(refresh_interval);
    s.append(ds.as_str());
    s.append("s | Press Ctrl+C to exit]");
    proof {
        assert(s@ =~= spec_live_mode_indicator(refresh_interval));
    }
    s
}

} // verus!
