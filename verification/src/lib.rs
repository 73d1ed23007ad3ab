//! Monitoring and safety core of a battery-pack slave board: the checksum and
//! framing of the monitor chip's protocol, the rolling pack state, the bus
//! frames and the safety supervisor, as verified functions on plain values.

pub mod arith;
pub mod can_management;
pub mod ltc_management;
pub mod supervisor;
pub mod types;
