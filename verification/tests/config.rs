use macbatt::types::{BatteryError, Config};

fn config(refresh_interval: u64, threshold: u8) -> Config {
    Config { live_mode: false, refresh_interval, threshold }
}

#[test]
fn zero_interval_is_rejected() {
    let r = config(0, 20).validate();
    assert_eq!(r, Err("Refresh interval must be a positive integer".to_string()));
}

#[test]
fn zero_threshold_is_rejected() {
    let r = config(5, 0).validate();
    assert_eq!(r, Err("Threshold must be between 1 and 100".to_string()));
}

#[test]
fn threshold_above_hundred_is_rejected() {
    let r = config(5, 101).validate();
    assert_eq!(r, Err("Threshold must be between 1 and 100".to_string()));
}

#[test]
fn threshold_boundaries_are_inclusive() {
    assert!(config(5, 1).validate().is_ok());
    assert!(config(5, 100).validate().is_ok());
}

#[test]
fn positive_interval_is_accepted() {
    assert!(config(1, 20).validate().is_ok());
}

#[test]
fn interval_is_checked_before_threshold() {
    let r = config(0, 0).validate();
    assert_eq!(r, Err("Refresh interval must be a positive integer".to_string()));
}

#[test]
fn error_messages_name_their_category() {
    assert_eq!(
        BatteryError::CommandFailed("boom".to_string()).message(),
        "Command failed: boom"
    );
    assert_eq!(
        BatteryError::ParseError("no field".to_string()).message(),
        "Parse error: no field"
    );
    assert_eq!(
        BatteryError::InvalidThreshold("0".to_string()).message(),
        "Invalid threshold: 0"
    );
    assert_eq!(
        BatteryError::InvalidInterval("0".to_string()).message(),
        "Invalid interval: 0"
    );
}
