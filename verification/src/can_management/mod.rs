//! The bus messaging layer: the fixed layouts of the outbound telemetry
//! frames and the decoding of the inbound control frames.

pub mod frame;

use crate::arith::lemma_add_multiple;
use crate::types::bms::{RollingState, SLAVEBMS};
use crate::types::CanMsg;
pub use frame::CanFrame;
use vstd::prelude::*;

verus! {

/// Byte `n` of the two's-complement form of `value`, counted from the least
/// significant one.
pub open spec fn byte_of(value: int, n: int) -> int {
    if n == 0 {
        value % 0x100
    } else if n == 1 {
        (value / 0x100) % 0x100
    } else if n == 2 {
        (value / 0x1_0000) % 0x100
    } else {
        (value / 0x100_0000) % 0x100
    }
}

/// The two bytes of a sixteen-bit field, low byte first.
pub open spec fn le16(value: int) -> Seq<u8> {
    seq![byte_of(value, 0) as u8, byte_of(value, 1) as u8]
}

/// The four bytes of a thirty-two-bit field, low byte first.
pub open spec fn le32(value: int) -> Seq<u8> {
    seq![
        byte_of(value, 0) as u8,
        byte_of(value, 1) as u8,
        byte_of(value, 2) as u8,
        byte_of(value, 3) as u8,
    ]
}

/// Payload of the voltage summary: minimum, maximum, mean, and the total in
/// hundredths, each as a sixteen-bit field.
pub open spec fn voltage_summary(pack: RollingState) -> Seq<u8> {
    le16(pack.min_volt) + le16(pack.max_volt) + le16(pack.avg_volt) + le16(pack.tot_volt / 100)
}

/// Payload of the temperature and current summary: maximum and minimum
/// temperature as sixteen-bit fields, then the current in thirty-two bits.
pub open spec fn temperature_summary(pack: RollingState) -> Seq<u8> {
    le16(pack.max_temp) + le16(pack.min_temp) + le32(pack.current)
}

/// Cells carried by one diagnostic frame.
pub const CELLS_PER_FRAME: usize = 3;

/// Diagnostic frames that cover the whole pack.
pub const NUM_TECH_FRAMES: usize = 4;

/// Payload of diagnostic frame `group`: three consecutive cell voltages of
/// the cycle closed last.
pub open spec fn diagnostic_payload(pack: RollingState, group: int) -> Seq<u8> {
    le16(pack.cell(3 * group) as int) + le16(pack.cell(3 * group + 1) as int) + le16(
        pack.cell(3 * group + 2) as int,
    )
}

/// The identifier of diagnostic frame `group`.
pub open spec fn diagnostic_id(group: int) -> u16 {
    if group == 0 {
        CanMsg::Tech1.raw()
    } else if group == 1 {
        CanMsg::Tech2.raw()
    } else if group == 2 {
        CanMsg::Tech3.raw()
    } else {
        CanMsg::Tech4.raw()
    }
}

/// Byte `byte_num` of `value`, counted from the least significant one.
pub fn get_byte(value: u32, byte_num: usize) -> (byte: u8)
    requires
        byte_num < 4,
    ensures
        byte == byte_of(value as int, byte_num as int),
{
    if byte_num == 0 {
        assert(value & 0xFF == value % 0x100) by (bit_vector);
        (value & 0xFF) as u8
    } else if byte_num == 1 {
        assert((value >> 8) & 0xFF == (value / 0x100) % 0x100) by (bit_vector);
        ((value >> 8) & 0xFF) as u8
    } else if byte_num == 2 {
        assert((value >> 16) & 0xFF == (value / 0x1_0000) % 0x100) by (bit_vector);
        ((value >> 16) & 0xFF) as u8
    } else {
        assert((value >> 24) & 0xFF == (value / 0x100_0000) % 0x100) by (bit_vector);
        ((value >> 24) & 0xFF) as u8
    }
}

/// The low four bytes of a value do not change when 2^32 is added to it.
pub proof fn lemma_byte_of_wraps(value: int, n: int)
    requires
        0 <= n < 4,
    ensures
        byte_of(value + 0x1_0000_0000, n) == byte_of(value, n),
{
    if n == 0 {
        lemma_add_multiple(value, 0x100, 0x100_0000);
    } else if n == 1 {
        lemma_add_multiple(value, 0x100, 0x100_0000);
        lemma_add_multiple(value / 0x100, 0x100, 0x1_0000);
    } else if n == 2 {
        lemma_add_multiple(value, 0x1_0000, 0x1_0000);
        lemma_add_multiple(value / 0x1_0000, 0x100, 0x100);
    } else {
        lemma_add_multiple(value, 0x100_0000, 0x100);
        lemma_add_multiple(value / 0x100_0000, 0x100, 1);
    }
}

/// The thirty-two bits of `value` in two's complement.
fn twos_complement(value: i32) -> (bits: u32)
    ensures
        forall|n: int| 0 <= n < 4 ==> #[trigger] byte_of(bits as int, n) == byte_of(value as int, n),
{
    if value >= 0 {
        value as u32
    } else {
        proof {
            assert forall|n: int| 0 <= n < 4 implies #[trigger] byte_of(
                value + 0x1_0000_0000,
                n,
            ) == byte_of(value as int, n) by {
                lemma_byte_of_wraps(value as int, n);
            }
        }
        (value as i64 + 0x1_0000_0000i64) as u32
    }
}

/// The voltage summary and the temperature and current summary of the pack,
/// in the order in which they are sent.
pub fn can_operation(bms: &SLAVEBMS) -> (frames: [CanFrame; 2])
    ensures
        frames@[0]@.id == CanMsg::VoltageId.raw(),
        frames@[0]@.payload == voltage_summary(bms@),
        frames@[1]@.id == CanMsg::TemperatureId.raw(),
        frames@[1]@.payload == temperature_summary(bms@),
{
    let tot_v: u32 = bms.tot_volt() / 100;
    let can_first: [u8; 8] = [
        get_byte(bms.min_volt() as u32, 0),
        get_byte(bms.min_volt() as u32, 1),
        get_byte(bms.max_volt() as u32, 0),
        get_byte(bms.max_volt() as u32, 1),
        get_byte(bms.avg_volt() as u32, 0),
        get_byte(bms.avg_volt() as u32, 1),
        get_byte(tot_v, 0),
        get_byte(tot_v, 1),
    ];
    let first = CanFrame::new(CanMsg::VoltageId.as_raw(), &can_first);
    assert(first@.payload =~= voltage_summary(bms@));
    let current: u32 = twos_complement(bms.current());
    let can_second: [u8; 8] = [
        get_byte(bms.max_temp() as u32, 0),
        get_byte(bms.max_temp() as u32, 1),
        get_byte(bms.min_temp() as u32, 0),
        get_byte(bms.min_temp() as u32, 1),
        get_byte(current, 0),
        get_byte(current, 1),
        get_byte(current, 2),
        get_byte(current, 3),
    ];
    let second = CanFrame::new(CanMsg::TemperatureId.as_raw(), &can_second);
    assert(second@.payload =~= temperature_summary(bms@));
    [first, second]
}

/// Diagnostic frame `group`, with the voltages of cells `3 * group` to
/// `3 * group + 2`.
fn tech_frame(bms: &SLAVEBMS, group: usize) -> (frame: CanFrame)
    requires
        group < NUM_TECH_FRAMES,
    ensures
        frame@.id == diagnostic_id(group as int),
        frame@.payload == diagnostic_payload(bms@, group as int),
{
    let first: usize = CELLS_PER_FRAME * group;
    let payload: [u8; 6] = [
        get_byte(bms.cell_volts(first) as u32, 0),
        get_byte(bms.cell_volts(first) as u32, 1),
        get_byte(bms.cell_volts(first + 1) as u32, 0),
        get_byte(bms.cell_volts(first + 1) as u32, 1),
        get_byte(bms.cell_volts(first + 2) as u32, 0),
        get_byte(bms.cell_volts(first + 2) as u32, 1),
    ];
    let id: u16 = if group == 0 {
        CanMsg::Tech1.as_raw()
    } else if group == 1 {
        CanMsg::Tech2.as_raw()
    } else if group == 2 {
        CanMsg::Tech3.as_raw()
    } else {
        CanMsg::Tech4.as_raw()
    };
    let frame = CanFrame::new(id, &payload);
    assert(frame@.payload =~= diagnostic_payload(bms@, group as int));
    frame
}

/// The per-cell diagnostic frames, in the order in which they are sent:
/// four frames of three cells each cover the twelve cells.
pub fn can_operation_tech(bms: &SLAVEBMS) -> (frames: [CanFrame; 4])
    ensures
        forall|group: int|
            0 <= group < NUM_TECH_FRAMES ==> {
                &&& (#[trigger] frames@[group])@.id == diagnostic_id(group)
                &&& frames@[group]@.payload == diagnostic_payload(bms@, group)
            },
{
    [tech_frame(bms, 0), tech_frame(bms, 1), tech_frame(bms, 2), tech_frame(bms, 3)]
}

/// The frame that reports a safety fault: the fault identifier with the
/// single payload byte 1.
pub fn error_frame() -> (frame: CanFrame)
    ensures
        frame@.id == CanMsg::ErrorId.raw(),
        frame@.payload == seq![1u8],
{
    let payload: [u8; 1] = [1];
    let frame = CanFrame::new(CanMsg::ErrorId.as_raw(), &payload);
    assert(frame@.payload =~= seq![1u8]);
    frame
}

/// What an inbound control frame asks for.
#[derive(Debug, Copy, Clone, PartialEq, Eq, Structural)]
pub enum ControlCommand {
    /// Request balancing, or cancel the request.
    Balancing(bool),
    /// Switch the diagnostic frames on or off.
    Diagnostic(bool),
}

/// The command that `frame` carries: the identifier selects the flag, and the
/// flag is set where byte 0 is nonzero and cleared where it is zero. A frame
/// with any other identifier carries none.
pub open spec fn control_of(frame: frame::BusFrame) -> Option<ControlCommand> {
    if frame.id == CanMsg::Balancing.raw() {
        Some(ControlCommand::Balancing(frame.padded()[0] != 0))
    } else if frame.id == CanMsg::Tech.raw() {
        Some(ControlCommand::Diagnostic(frame.padded()[0] != 0))
    } else {
        None
    }
}

/// Decodes an inbound frame by its identifier; unrecognised identifiers are
/// ignored.
pub fn read_can(frame: &CanFrame) -> (command: Option<ControlCommand>)
    ensures
        command == control_of(frame@),
{
    let id: u16 = frame.id();
    let bytes = frame.bytes();
    if id == CanMsg::Balancing.as_raw() {
        Some(ControlCommand::Balancing(bytes[0] >= 1))
    } else if id == CanMsg::Tech.as_raw() {
        Some(ControlCommand::Diagnostic(bytes[0] >= 1))
    } else {
        None
    }
}

} // verus!
