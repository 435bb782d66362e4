//! The value types of the library: configuration, battery readings, the
//! severity scale and the error kinds.

use vstd::prelude::*;
use vstd::string::StringExecFns;

verus! {

/// Runtime configuration: monitoring mode, refresh interval in seconds and
/// the warning threshold in percent.
#[derive(Debug, Clone, Copy)]
pub struct Config {
    pub live_mode: bool,
    pub refresh_interval: u64,
    pub threshold: u8,
}

impl Config {
    /// A configuration is valid when the interval is positive and the
    /// threshold lies between 1 and 100, both ends included.
    pub open spec fn valid(&self) -> bool {
        &&& self.refresh_interval >= 1
        &&& 1 <= self.threshold <= 100
    }

    /// Checks the configuration, reporting the first violated rule.
    pub fn validate(&self) -> (r: Result<(), String>)
        ensures
            r is Ok <==> self.valid(),
            self.refresh_interval == 0 ==> (r matches Err(m)
                && m@ == "Refresh interval must be a positive integer"@),
            self.refresh_interval >= 1 && !(1 <= self.threshold <= 100) ==> (r matches Err(m)
                && m@ == "Threshold must be between 1 and 100"@),
    {
        if self.refresh_interval == 0 {
            return Err("Refresh interval must be a positive integer".to_owned());
        }
        if self.threshold < 1 || self.threshold > 100 {
            return Err("Threshold must be between 1 and 100".to_owned());
        }
        Ok(())
    }
}

/// Whether the battery is being filled, drained, or is already full.
/// `Unknown` is the fallback when no pattern in the raw text matches.
#[derive(Debug, Clone, Copy, PartialEq, Eq, Structural)]
pub enum ChargingStatus {
    Charging,
    Discharging,
    Charged,
    Unknown,
}

/// Severity of the current charge level relative to the threshold.
#[derive(Debug, Clone, Copy, PartialEq, Eq, Structural)]
pub enum BatteryState {
    Normal,
    Warning,
    Critical,
}

/// One battery reading. The two time estimates are whole seconds; at most
/// one of them is present, depending on the charging status.
#[derive(Debug, Clone, Copy)]
pub struct BatteryInfo {
    pub percentage: u8,
    pub status: ChargingStatus,
    pub time_remaining: Option<u64>,
    pub time_to_full: Option<u64>,
}

impl BatteryInfo {
    /// Well-formed: the percentage is on the 0-100 scale and the two time
    /// estimates are mutually exclusive.
    pub open spec fn wf(&self) -> bool {
        &&& self.percentage <= 100
        &&& !(self.time_remaining is Some && self.time_to_full is Some)
    }
}

/// The failures a read cycle can end in.
#[derive(Debug, PartialEq, Eq)]
pub enum BatteryError {
    CommandFailed(String),
    ParseError(String),
    InvalidThreshold(String),
    InvalidInterval(String),
}

impl BatteryError {
    /// The rendered form of the error: its category followed by its cause.
    pub open spec fn spec_message(&self) -> Seq<char> {
        match self {
            BatteryError::CommandFailed(m) => "Command failed: "@ + m@,
            BatteryError::ParseError(m) => "Parse error: "@ + m@,
            BatteryError::InvalidThreshold(m) => "Invalid threshold: "@ + m@,
            BatteryError::InvalidInterval(m) => "Invalid interval: "@ + m@,
        }
    }

    /// Human-readable explanation, naming the error's category.
    pub fn message(&self) -> (r: String)
        ensures
            r@ == self.spec_message(),
    {
        match self {
            BatteryError::CommandFailed(m) => {
                let mut s = "Command failed: ".to_owned();
                s.append(m.as_str());
                s
            },
            BatteryError::ParseError(m) => {
                let mut s = "Parse error: ".to_owned();
                s.append(m.as_str());
                s
            },
            BatteryError::InvalidThreshold(m) => {
                let mut s = "Invalid threshold: ".to_owned();
                s.append(m.as_str());
                s
            },
            BatteryError::InvalidInterval(m) => {
                let mut s = "Invalid interval: ".to_owned();
                s.append(m.as_str());
                s
            },
        }
    }
}

} // verus!
