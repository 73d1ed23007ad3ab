//! Bus identifiers and the configured pack limits.

pub mod bms;

pub use bms::SLAVEBMS;
use vstd::prelude::*;

verus! {

/// Identifiers of the frames exchanged on the vehicle bus.
#[derive(Debug, Copy, Clone, PartialEq, Eq, Structural)]
pub enum CanMsg {
    /// Outbound voltage summary.
    VoltageId,
    /// Outbound temperature and current summary.
    TemperatureId,
    /// Inbound balancing toggle.
    Balancing,
    /// Outbound fault notification.
    ErrorId,
    /// Inbound diagnostic-mode toggle.
    Tech,
    /// Outbound diagnostic frame, cells 0 to 2.
    Tech1,
    /// Outbound diagnostic frame, cells 3 to 5.
    Tech2,
    /// Outbound diagnostic frame, cells 6 to 8.
    Tech3,
    /// Outbound diagnostic frame, cells 9 to 11.
    Tech4,
}

impl CanMsg {
    /// The 11-bit identifier that stands for this message on the bus.
    pub open spec fn raw(self) -> u16 {
        match self {
            CanMsg::VoltageId => 0x54,
            CanMsg::TemperatureId => 0x55,
            CanMsg::Balancing => 0x1A4,
            CanMsg::ErrorId => 0x14,
            CanMsg::Tech => 0x365,
            CanMsg::Tech1 => 0x366,
            CanMsg::Tech2 => 0x367,
            CanMsg::Tech3 => 0x368,
            CanMsg::Tech4 => 0x369,
        }
    }

    pub fn as_raw(&self) -> (id: u16)
        ensures
            id == self.raw(),
            id <= 0x7FF,
    {
        match self {
            CanMsg::VoltageId => 0x54,
            CanMsg::TemperatureId => 0x55,
            CanMsg::Balancing => 0x1A4,
            CanMsg::ErrorId => 0x14,
            CanMsg::Tech => 0x365,
            CanMsg::Tech1 => 0x366,
            CanMsg::Tech2 => 0x367,
            CanMsg::Tech3 => 0x368,
            CanMsg::Tech4 => 0x369,
        }
    }
}

/// The cell-voltage limits of the pack, in units of 0.1 mV.
#[derive(Debug, Copy, Clone, PartialEq, Eq, Structural)]
pub enum VOLTAGES {
    MAXVOLTAGE,
    MINVOLTAGE,
}

impl VOLTAGES {
    pub open spec fn raw(self) -> u16 {
        match self {
            VOLTAGES::MAXVOLTAGE => 42800,
            VOLTAGES::MINVOLTAGE => 32000,
        }
    }

    pub fn as_raw(&self) -> (limit: u16)
        ensures
            limit == self.raw(),
    {
        match self {
            VOLTAGES::MAXVOLTAGE => 42800,
            VOLTAGES::MINVOLTAGE => 32000,
        }
    }
}

/// The temperature limits of the pack, in the units of the thermistor
/// readings.
#[derive(Debug, Copy, Clone, PartialEq, Eq, Structural)]
pub enum TEMPERATURES {
    MAXTEMP,
    MINTEMP,
}

impl TEMPERATURES {
    pub open spec fn raw(self) -> u16 {
        match self {
            TEMPERATURES::MAXTEMP => 600,
            TEMPERATURES::MINTEMP => 100,
        }
    }

    pub fn _as_raw(&self) -> (limit: u16)
        ensures
            limit == self.raw(),
    {
        match self {
            TEMPERATURES::MAXTEMP => 600,
            TEMPERATURES::MINTEMP => 100,
        }
    }
}

} // verus!
