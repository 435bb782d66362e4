//! Core of a battery status reporter: parsing of the two raw-text dialects
//! that the underlying system commands produce, classification of the charge
//! level against a configured threshold, and plain-text rendering.

pub mod battery;
pub mod display;
pub mod text;
pub mod types;
