//! The protocol driver of the battery-monitor chip.

pub mod ltc6811;
pub mod pec;

pub use ltc6811::LTC6811;
