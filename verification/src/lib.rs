//! Environmental control for a pair of vivariums: fixed-point sensor
//! conversions, the fan/pump relay state machine, SHT3x frame decoding and the
//! byte-level plans that drive two HD44780 character LCDs.
//!
//! Everything here is pure logic over plain values; the firmware around it
//! performs the bus transfers, GPIO writes and delays that the plans describe.
pub mod config;
pub mod units;
pub mod sensor;
pub mod relays;
pub mod millis;
pub mod display;
