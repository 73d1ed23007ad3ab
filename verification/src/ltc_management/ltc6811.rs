//! The driver's state and the frames it exchanges with the monitor chip:
//! the configuration mirror, the command framing, the decoding of register
//! groups and the balancing decision.

use super::pec::{calculate_pec, pec15};
use crate::arith::lemma_add_multiple;
use crate::types::bms::{round_div, CellFrame, RollingState, NUM_CELLS, NUM_TERMISTORS, SLAVEBMS};
use crate::types::VOLTAGES;
use vstd::arithmetic::power2::pow2;
use vstd::prelude::*;

verus! {

/// Write Configuration Register Group A
pub const WRCFGA: [u8; 2] = [0x00, 0x01];

/// Read Configuration Register Group A
pub const RDCFGA: [u8; 2] = [0x00, 0x02];

/// Read Cell Voltage Register Group A (cells 1-3)
pub const RDCVA: [u8; 2] = [0x00, 0x04];

/// Read Cell Voltage Register Group B (cells 4-6)
pub const RDCVB: [u8; 2] = [0x00, 0x06];

/// Read Cell Voltage Register Group C (cells 7-9)
pub const RDCVC: [u8; 2] = [0x00, 0x08];

/// Read Cell Voltage Register Group D (cells 10-12)
pub const RDCVD: [u8; 2] = [0x00, 0x0A];

/// Read Auxiliary Register Group A (for temperature)
pub const RDAUXA: [u8; 2] = [0x00, 0x0C];

/// Read Auxiliary Register Group B
pub const RDAUXB: [u8; 2] = [0x00, 0x0E];

/// Start Cell Voltage Conversion
pub const ADCV: [u8; 2] = [0x02, 0x60];

/// Start Auxiliary (GPIO) Conversion
pub const ADAX: [u8; 2] = [0x05, 0x60];

/// Time the chip takes to convert the cell voltages, in milliseconds.
pub const CELL_CONVERSION_MS: u64 = 6;

/// Time the chip takes to convert the auxiliary inputs, in milliseconds.
pub const TEMPERATURE_CONVERSION_MS: u64 = 10;

/// Reference voltage of the thermistor divider, in millivolts.
pub const VREF2_MV: u16 = 3300;

/// Reading of a thermistor shorted to ground: over temperature.
pub const MAX_TEMP: u16 = u16::MAX;

/// Reading of a disconnected thermistor.
pub const MIN_TEMP: u16 = 0;

/// Allowed voltage difference to the pack minimum before a cell is
/// discharged.
pub const BAL_EPSILON: u16 = 50;

/// Reference powered up.
pub const REFON: u8 = 0x00;

/// ADC mode option bit.
pub const ADCOPT: u8 = 0x00;

/// GPIO1 to GPIO5 as digital inputs: bits 3 to 7 of the first register.
pub const GPIOS: u8 = 0xF8;

/// Bytes in the configuration register group.
pub const CONFIG_LEN: usize = 6;

/// Bytes in a register group as it is read: six of data, two of checksum.
pub const GROUP_LEN: usize = 8;

/// Whether the driver is balancing the cells.
#[derive(Debug, Copy, Clone, PartialEq, Eq, Structural)]
pub enum MODE {
    NORMAL,
    BALANCING,
}

/// What the driver holds: the mirror of the configuration register group
/// and the operating mode.
pub struct DriverState {
    pub config: Seq<u8>,
    pub mode: MODE,
}

/// A command code followed by its packet error code.
pub open spec fn command_frame(cmd: Seq<u8>) -> Seq<u8> {
    cmd + pec15(cmd)
}

/// The frame that writes `config` to the chip: the write command with its
/// packet error code, then the six registers with theirs.
pub open spec fn write_config_frame(config: Seq<u8>) -> Seq<u8> {
    command_frame(WRCFGA@) + config + pec15(config)
}

/// A cell is discharged where it exceeds the pack minimum by more than the
/// allowed difference.
pub open spec fn needs_discharge(cell: u16, min: int) -> bool {
    cell - min > BAL_EPSILON
}

/// The discharge bitmap of the first `n` cells: bit `i` stands for cell `i`.
pub open spec fn bitmap_upto(pack: RollingState, n: int) -> int
    decreases n,
{
    if n <= 0 {
        0
    } else {
        bitmap_upto(pack, n - 1) + if needs_discharge(pack.cell(n - 1), pack.min_volt) {
            pow2((n - 1) as nat) as int
        } else {
            0
        }
    }
}

/// The discharge bitmap of the pack, one bit per cell.
pub open spec fn discharge_bitmap(pack: RollingState) -> int {
    bitmap_upto(pack, NUM_CELLS as int)
}

/// Whether bit `i` of `value` is set.
pub open spec fn bit_set(value: int, i: int) -> bool {
    (value / (pow2(i as nat) as int)) % 2 == 1
}

/// The bitmap of the first `n` cells fits `n` bits.
pub proof fn lemma_bitmap_upto_bound(pack: RollingState, n: int)
    requires
        0 <= n,
    ensures
        0 <= bitmap_upto(pack, n) < pow2(n as nat),
    decreases n,
{
    if n > 0 {
        lemma_bitmap_upto_bound(pack, n - 1);
        vstd::arithmetic::power2::lemma_pow2_unfold(n as nat);
    } else {
        vstd::arithmetic::power2::lemma2_to64();
    }
}

/// Bit `i` of the bitmap of the first `n` cells is set exactly where cell
/// `i` needs discharging.
pub proof fn lemma_bitmap_upto_bit(pack: RollingState, n: int, i: int)
    requires
        0 <= i < n,
    ensures
        bit_set(bitmap_upto(pack, n), i) <==> needs_discharge(pack.cell(i), pack.min_volt),
    decreases n,
{
    let weight: int = pow2(i as nat) as int;
    let lower: int = bitmap_upto(pack, n - 1);
    let top: int = if needs_discharge(pack.cell(n - 1), pack.min_volt) {
        1
    } else {
        0
    };
    vstd::arithmetic::power2::lemma_pow2_pos(i as nat);
    if i == n - 1 {
        lemma_bitmap_upto_bound(pack, i);
        assert(bitmap_upto(pack, n) == lower + top * weight) by (nonlinear_arith)
            requires
                bitmap_upto(pack, n) == lower + if top == 1 {
                    weight
                } else {
                    0
                },
                top == 0 || top == 1,
        ;
        lemma_add_multiple(lower, weight, top);
        vstd::arithmetic::div_mod::lemma_basic_div(lower, weight);
    } else {
        lemma_bitmap_upto_bit(pack, n - 1, i);
        let rest: int = pow2((n - 2 - i) as nat) as int;
        vstd::arithmetic::power2::lemma_pow2_adds((n - 1 - i) as nat, i as nat);
        vstd::arithmetic::power2::lemma_pow2_adds(1, (n - 2 - i) as nat);
        vstd::arithmetic::power2::lemma2_to64();
        assert(pow2((n - 1) as nat) == 2 * rest * weight) by (nonlinear_arith)
            requires
                pow2((n - 1 - i) as nat) == 2 * rest,
                pow2((n - 1) as nat) == pow2((n - 1 - i) as nat) * weight,
        ;
        assert(bitmap_upto(pack, n) == lower + (2 * rest * top) * weight) by (nonlinear_arith)
            requires
                bitmap_upto(pack, n) == lower + if top == 1 {
                    2 * rest * weight
                } else {
                    0
                },
                top == 0 || top == 1,
        ;
        lemma_add_multiple(lower, weight, 2 * rest * top);
        lemma_add_multiple(lower / weight, 2, rest * top);
        assert((rest * top) * 2 == 2 * rest * top) by (nonlinear_arith);
    }
}

/// The undervoltage comparison code: the lower limit in steps of sixteen
/// units, less one.
pub open spec fn undervoltage_code() -> int {
    VOLTAGES::MINVOLTAGE.raw() as int / 16 - 1
}

/// The overvoltage comparison code: the upper limit in steps of sixteen
/// units.
pub open spec fn overvoltage_code() -> int {
    VOLTAGES::MAXVOLTAGE.raw() as int / 16
}

/// The bitmap that a rebuilt configuration holds: that of the pack while
/// balancing with measurements at hand, and empty otherwise.
pub open spec fn rebuilt_bitmap(mode: MODE, pack: RollingState) -> int {
    if mode == MODE::BALANCING && pack.min_volt != 0 && pack.max_volt != 0 {
        discharge_bitmap(pack)
    } else {
        0
    }
}

/// The six configuration registers for a twelve-bit undervoltage code
/// `uv`, a twelve-bit overvoltage code `ov` and a discharge bitmap: the
/// codes are packed across registers 1 to 3, the bitmap is split eight and
/// four across registers 4 and 5.
pub open spec fn config_registers(uv: int, ov: int, bitmap: int) -> Seq<u8> {
    seq![
        GPIOS | ADCOPT,
        (uv % 256) as u8,
        ((ov % 16) * 16 + (uv / 256) % 16) as u8,
        ((ov / 16) % 256) as u8,
        (bitmap % 256) as u8,
        ((bitmap / 256) % 16) as u8,
    ]
}

/// The configuration as it is rebuilt for `mode` from the pack state.
pub open spec fn rebuilt_config(mode: MODE, pack: RollingState) -> Seq<u8> {
    config_registers(undervoltage_code(), overvoltage_code(), rebuilt_bitmap(mode, pack))
}

/// The configuration once the discharge bits are set to the pack's bitmap:
/// the other registers stay as they are.
pub open spec fn balanced_config(config: Seq<u8>, pack: RollingState) -> Seq<u8> {
    config.update(4, (discharge_bitmap(pack) % 256) as u8).update(
        5,
        ((discharge_bitmap(pack) / 256) % 16) as u8,
    )
}

/// Whether the configuration discharges cell `i`: cells 0 to 7 stand in
/// register 4, cells 8 to 11 in the low half of register 5.
pub open spec fn discharges(config: Seq<u8>, i: int) -> bool {
    if i < 8 {
        bit_set(config[4] as int, i)
    } else {
        bit_set(config[5] as int, i - 8)
    }
}

/// A configuration balanced for the pack discharges exactly the cells that
/// lie above the pack minimum by more than the allowed difference.
pub proof fn lemma_balanced_config_bits(config: Seq<u8>, pack: RollingState, i: int)
    requires
        config.len() == CONFIG_LEN,
        0 <= i < NUM_CELLS,
    ensures
        discharges(balanced_config(config, pack), i) <==> needs_discharge(
            pack.cell(i),
            pack.min_volt,
        ),
{
    let bitmap: int = discharge_bitmap(pack);
    lemma_bitmap_upto_bound(pack, NUM_CELLS as int);
    lemma_bitmap_upto_bit(pack, NUM_CELLS as int, i);
    vstd::arithmetic::power2::lemma2_to64();
    vstd::arithmetic::power2::lemma_pow2_pos(i as nat);
    let weight: int = pow2(i as nat) as int;
    if i < 8 {
        // bit i of the low byte is bit i of the bitmap
        vstd::arithmetic::power2::lemma_pow2_adds((8 - i) as nat, i as nat);
        vstd::arithmetic::power2::lemma_pow2_unfold((8 - i) as nat);
        let half: int = pow2((7 - i) as nat) as int;
        vstd::arithmetic::div_mod::lemma_fundamental_div_mod(bitmap, 256);
        assert(bitmap == bitmap % 256 + ((bitmap / 256) * (2 * half)) * weight) by (nonlinear_arith)
            requires
                bitmap == 256 * (bitmap / 256) + bitmap % 256,
                256 == (2 * half) * weight,
        ;
        lemma_add_multiple(bitmap % 256, weight, (bitmap / 256) * (2 * half));
        lemma_add_multiple((bitmap % 256) / weight, 2, (bitmap / 256) * half);
        assert(((bitmap / 256) * half) * 2 == (bitmap / 256) * (2 * half)) by (nonlinear_arith);
    } else {
        // bit i - 8 of the high byte is bit i of the bitmap
        let low: int = pow2((i - 8) as nat) as int;
        vstd::arithmetic::power2::lemma_pow2_adds(8, (i - 8) as nat);
        vstd::arithmetic::power2::lemma_pow2_pos((i - 8) as nat);
        vstd::arithmetic::div_mod::lemma_div_denominator(bitmap, 256, low);
        assert(256 * low == low * 256) by (nonlinear_arith);
    }
}

/// Balancing again on an unchanged pack yields the same configuration.
pub proof fn lemma_balance_idempotent(config: Seq<u8>, pack: RollingState)
    requires
        config.len() == CONFIG_LEN,
    ensures
        balanced_config(balanced_config(config, pack), pack) == balanced_config(config, pack),
{
    assert(balanced_config(balanced_config(config, pack), pack) =~= balanced_config(config, pack));
}

/// Register groups that carry the cell voltages.
pub const NUM_CELL_GROUPS: usize = 4;

/// Register groups that carry the auxiliary readings.
pub const NUM_AUX_GROUPS: usize = 2;

/// The reading held in two bytes, low byte first.
pub open spec fn word_le(lo: u8, hi: u8) -> u16 {
    (hi as int * 256 + lo as int) as u16
}

/// The reading held in two bytes, high byte first.
pub open spec fn word_be(hi: u8, lo: u8) -> u16 {
    (hi as int * 256 + lo as int) as u16
}

/// Whether a register group as read ends in the packet error code of its
/// six data bytes.
pub open spec fn group_intact(group: Seq<u8>) -> bool {
    group.subrange(6, 8) == pec15(group.subrange(0, 6))
}

/// The twelve cell voltages that the four groups carry: three to a group,
/// each in two bytes, low byte first.
pub open spec fn cell_readings(groups: Seq<[u8; 8]>) -> Seq<u16> {
    Seq::new(
        NUM_CELLS as nat,
        |i: int| word_le(groups[i / 3]@[2 * (i % 3)], groups[i / 3]@[2 * (i % 3) + 1]),
    )
}

/// The four raw codes that the two auxiliary groups carry: three in the
/// first group and one at the head of the second, each in two bytes, high
/// byte first.
pub open spec fn aux_readings(auxa: Seq<u8>, auxb: Seq<u8>) -> Seq<u16> {
    seq![
        word_be(auxa[0], auxa[1]),
        word_be(auxa[2], auxa[3]),
        word_be(auxa[4], auxa[5]),
        word_be(auxb[0], auxb[1]),
    ]
}

/// The divider voltage that a raw code stands for, in millivolts: a tenth
/// of a millivolt per count, rounded to the nearest millivolt.
pub open spec fn divider_millivolts(adc_raw: u16) -> int {
    round_div(adc_raw as int, 10)
}

/// A temperature held to the range between the two sentinel readings.
pub open spec fn clamped(celsius: int) -> u16 {
    if celsius < MIN_TEMP {
        MIN_TEMP
    } else if celsius > MAX_TEMP {
        MAX_TEMP
    } else {
        celsius as u16
    }
}

/// The temperature reported for a raw code, where `celsius` is what the
/// thermistor's Beta equation gives for the code's divider voltage. A code
/// of zero reads as a short: the highest temperature. A divider voltage at
/// or above the reference reads as an open circuit: the lowest. So does a
/// divider voltage of zero, at which the thermistor's resistance is zero and
/// has no logarithm. Otherwise the result is `celsius` held to the range of
/// the two.
pub open spec fn temperature_of(adc_raw: u16, celsius: int) -> u16 {
    if adc_raw == 0 {
        MAX_TEMP
    } else if divider_millivolts(adc_raw) >= VREF2_MV {
        MIN_TEMP
    } else if divider_millivolts(adc_raw) == 0 {
        MIN_TEMP
    } else {
        clamped(celsius)
    }
}

/// A register group whose packet error code did not match its data.
#[derive(Debug, Copy, Clone, PartialEq, Eq, Structural)]
pub struct PecFault {
    /// The first group of the read that failed, counted from zero.
    pub group: usize,
}

/// The driver of one monitor chip.
#[derive(Debug, Copy, Clone)]
pub struct LTC6811 {
    config: [u8; CONFIG_LEN],
    mode: MODE,
}

impl View for LTC6811 {
    type V = DriverState;

    closed spec fn view(&self) -> DriverState {
        DriverState { config: self.config@, mode: self.mode }
    }
}

impl LTC6811 {
    /// A driver in normal mode whose configuration mirror holds no
    /// thresholds yet and discharges no cell.
    pub fn new() -> (driver: LTC6811)
        ensures
            driver@.config == seq![0u8, 0u8, REFON, 0u8, 0u8, 0u8],
            driver@.mode == MODE::NORMAL,
    {
        let driver = LTC6811 { config: [0x00, 0x00, REFON, 0x00, 0x00, 0x00], mode: MODE::NORMAL };
        assert(driver@.config =~= seq![0u8, 0u8, REFON, 0u8, 0u8, 0u8]);
        driver
    }

    /// Every driver mirrors six registers.
    pub proof fn lemma_config_len(self)
        ensures
            self@.config.len() == CONFIG_LEN,
    {
    }

    /// The packet error code of `data`.
    pub fn calculate_pec(&self, data: &[u8]) -> (pec: [u8; 2])
        ensures
            pec@ == pec15(data@),
    {
        calculate_pec(data)
    }

    pub fn get_mode(&self) -> (mode: MODE)
        ensures
            mode == self@.mode,
    {
        self.mode
    }

    /// The mirror of the configuration register group.
    pub fn config(&self) -> (config: [u8; CONFIG_LEN])
        ensures
            config@ == self@.config,
    {
        self.config
    }

    /// The four bytes that send the command `cmd`.
    pub fn prepare_command(&self, cmd: [u8; 2]) -> (frame: [u8; 4])
        ensures
            frame@ == command_frame(cmd@),
    {
        let pec = self.calculate_pec(&cmd);
        let cmd_f: [u8; 4] = [cmd[0], cmd[1], pec[0], pec[1]];
        assert(cmd_f@ =~= command_frame(cmd@));
        cmd_f
    }

    /// The twelve bytes that write the configuration mirror to the chip.
    pub fn write_config(&self) -> (frame: [u8; 12])
        ensures
            frame@ == write_config_frame(self@.config),
    {
        let cmd = self.prepare_command(WRCFGA);
        let pec = self.calculate_pec(&self.config);
        let cmd_final: [u8; 12] = [
            cmd[0],
            cmd[1],
            cmd[2],
            cmd[3],
            self.config[0],
            self.config[1],
            self.config[2],
            self.config[3],
            self.config[4],
            self.config[5],
            pec[0],
            pec[1],
        ];
        assert(cmd_final@ =~= write_config_frame(self@.config));
        cmd_final
    }

    /// Rebuilds the configuration mirror for the present mode: the
    /// comparison thresholds from the pack limits, and the discharge bitmap
    /// from the pack state while balancing, else none. Returns the frame that
    /// writes the new configuration to the chip.
    pub fn init_cfg(&mut self, bms: &SLAVEBMS) -> (frame: [u8; 12])
        ensures
            final(self)@.mode == old(self)@.mode,
            final(self)@.config == rebuilt_config(old(self)@.mode, bms@),
            frame@ == write_config_frame(final(self)@.config),
    {
        let uv_val: u16 = (VOLTAGES::MINVOLTAGE.as_raw() / 16) - 1;
        let ov_val: u16 = VOLTAGES::MAXVOLTAGE.as_raw() / 16;
        let discharge_bitmap: u16 = if self.mode == MODE::BALANCING && bms.min_volt() != 0
            && bms.max_volt() != 0 {
            balancing_bitmap(bms)
        } else {
            0
        };
        proof {
            assert(uv_val & 0xFF == uv_val % 256) by (bit_vector);
            assert((((ov_val & 0xF) << 4) | ((uv_val & 0xF00) >> 8)) == (ov_val % 16) * 16 + (uv_val
                / 256) % 16) by (bit_vector);
            assert(ov_val >> 4 == (ov_val / 16) % 256) by (bit_vector)
                requires
                    ov_val < 0x1000,
            ;
            assert(discharge_bitmap & 0xFF == discharge_bitmap % 256) by (bit_vector);
            assert((discharge_bitmap >> 8) & 0x0F == (discharge_bitmap / 256) % 16) by (bit_vector);
        }
        self.config = [
            GPIOS | ADCOPT,
            (uv_val & 0xFF) as u8,
            (((ov_val & 0xF) << 4) | ((uv_val & 0xF00) >> 8)) as u8,
            (ov_val >> 4) as u8,
            (discharge_bitmap & 0xFF) as u8,
            ((discharge_bitmap >> 8) & 0x0F) as u8,
        ];
        assert(self@.config =~= rebuilt_config(self@.mode, bms@));
        self.write_config()
    }

    /// Changes the operating mode. Where `mode` is the present one nothing
    /// happens; otherwise the configuration is rebuilt for the new mode and
    /// the frame that writes it is returned.
    pub fn set_mode(&mut self, mode: MODE, bms: &SLAVEBMS) -> (frame: Option<[u8; 12]>)
        ensures
            final(self)@.mode == mode,
            mode == old(self)@.mode ==> final(self)@ == old(self)@ && frame is None,
            mode != old(self)@.mode ==> {
                &&& final(self)@.config == rebuilt_config(mode, bms@)
                &&& frame is Some
                &&& frame->Some_0@ == write_config_frame(final(self)@.config)
            },
    {
        if self.mode != mode {
            self.mode = mode;
            Some(self.init_cfg(bms))
        } else {
            None
        }
    }

    /// Sets the discharge bit of every cell that lies above the pack minimum
    /// by more than the allowed difference and clears the others. Returns the
    /// frame that writes the updated configuration to the chip.
    pub fn balance_cells(&mut self, bms: &SLAVEBMS) -> (frame: [u8; 12])
        ensures
            final(self)@.mode == old(self)@.mode,
            final(self)@.config == balanced_config(old(self)@.config, bms@),
            forall|i: int|
                0 <= i < NUM_CELLS ==> (#[trigger] discharges(final(self)@.config, i)
                    <==> needs_discharge(bms@.cell(i), bms@.min_volt)),
            frame@ == write_config_frame(final(self)@.config),
    {
        let discharge_bitmap: u16 = balancing_bitmap(bms);
        proof {
            assert(discharge_bitmap & 0xFF == discharge_bitmap % 256) by (bit_vector);
            assert((discharge_bitmap >> 8) & 0x0F == (discharge_bitmap / 256) % 16) by (bit_vector);
        }
        self.config[4] = (discharge_bitmap & 0xFF) as u8;
        self.config[5] = ((discharge_bitmap >> 8) & 0x0F) as u8;
        proof {
            assert(self@.config =~= balanced_config(old(self)@.config, bms@));
            assert forall|i: int| 0 <= i < NUM_CELLS implies (#[trigger] discharges(self@.config, i)
                <==> needs_discharge(bms@.cell(i), bms@.min_volt)) by {
                lemma_balanced_config_bits(old(self)@.config, bms@, i);
            }
        }
        self.write_config()
    }

    /// Whether any cell still lies above the pack minimum by more than the
    /// allowed difference.
    pub fn check_need_balance(&self, bms: &SLAVEBMS) -> (need: bool)
        ensures
            need <==> exists|i: int|
                0 <= i < NUM_CELLS && needs_discharge(#[trigger] bms@.cell(i), bms@.min_volt),
    {
        let min_volt: u16 = bms.min_volt();
        let mut need: bool = false;
        let mut i: usize = 0;
        while i < NUM_CELLS
            invariant
                i <= NUM_CELLS,
                min_volt == bms@.min_volt,
                need <==> exists|j: int|
                    0 <= j < i && needs_discharge(#[trigger] bms@.cell(j), bms@.min_volt),
            decreases NUM_CELLS - i,
        {
            let cell_volt: u16 = bms.cell_volts(i);
            if cell_volt > min_volt && cell_volt - min_volt > BAL_EPSILON {
                need = true;
            }
            i = i + 1;
        }
        need
    }

    /// The commands that read the four cell-voltage register groups, in the
    /// order of the cells.
    pub fn cell_read_commands(&self) -> (frames: [[u8; 4]; NUM_CELL_GROUPS])
        ensures
            frames@[0]@ == command_frame(RDCVA@),
            frames@[1]@ == command_frame(RDCVB@),
            frames@[2]@ == command_frame(RDCVC@),
            frames@[3]@ == command_frame(RDCVD@),
    {
        [
            self.prepare_command(RDCVA),
            self.prepare_command(RDCVB),
            self.prepare_command(RDCVC),
            self.prepare_command(RDCVD),
        ]
    }

    /// The commands that read the two auxiliary register groups, in the
    /// order of the sensors.
    pub fn aux_read_commands(&self) -> (frames: [[u8; 4]; NUM_AUX_GROUPS])
        ensures
            frames@[0]@ == command_frame(RDAUXA@),
            frames@[1]@ == command_frame(RDAUXB@),
    {
        [self.prepare_command(RDAUXA), self.prepare_command(RDAUXB)]
    }

    /// Takes the four cell-voltage register groups as they were read, checks
    /// the packet error code of each, and stores the twelve voltages in the
    /// cycle in progress. A group whose code does not match is reported and
    /// its voltages are stored all the same.
    pub fn read_cell_voltages(
        &self,
        groups: &[[u8; GROUP_LEN]; NUM_CELL_GROUPS],
        bms: &mut SLAVEBMS,
    ) -> (outcome: Result<(), PecFault>)
        ensures
            final(bms)@ == old(bms)@.with_cells(cell_readings(groups@)),
            final(bms)@.wf(),
            match outcome {
                Ok(_) => forall|g: int|
                    0 <= g < NUM_CELL_GROUPS ==> group_intact((#[trigger] groups@[g])@),
                Err(fault) => {
                    &&& fault.group < NUM_CELL_GROUPS
                    &&& !group_intact(groups@[fault.group as int]@)
                    &&& forall|g: int| 0 <= g < fault.group ==> group_intact((#[trigger] groups@[g])@)
                },
            },
    {
        let mut outcome: Result<(), PecFault> = Ok(());
        let mut g: usize = 0;
        while g < NUM_CELL_GROUPS
            invariant
                g <= NUM_CELL_GROUPS,
                match outcome {
                    Ok(_) => forall|h: int| 0 <= h < g ==> group_intact((#[trigger] groups@[h])@),
                    Err(fault) => {
                        &&& fault.group < g
                        &&& !group_intact(groups@[fault.group as int]@)
                        &&& forall|h: int|
                            0 <= h < fault.group ==> group_intact((#[trigger] groups@[h])@)
                    },
                },
            decreases NUM_CELL_GROUPS - g,
        {
            if outcome.is_ok() && !pec_matches(&groups[g]) {
                outcome = Err(PecFault { group: g });
            }
            g = g + 1;
        }
        let ghost readings = cell_readings(groups@);
        let ghost before = bms@;
        proof {
            bms.lemma_view_wf();
            let slot: int = before.cursor;
            assert(before.frames[slot].cells =~= Seq::new(
                before.frames[slot].cells.len(),
                |k: int|
                    if k < 0 {
                        readings[k]
                    } else {
                        before.frames[slot].cells[k]
                    },
            ));
            assert(before.frames =~= before.frames.update(slot, before.frames[slot]));
        }
        let mut i: usize = 0;
        while i < NUM_CELLS
            invariant
                i <= NUM_CELLS,
                readings == cell_readings(groups@),
                before == old(bms)@,
                before.wf(),
                bms@ == (RollingState {
                    frames: before.frames.update(
                        before.cursor,
                        CellFrame {
                            cells: Seq::new(
                                before.frames[before.cursor].cells.len(),
                                |k: int|
                                    if k < i {
                                        readings[k]
                                    } else {
                                        before.frames[before.cursor].cells[k]
                                    },
                            ),
                            temps: before.frames[before.cursor].temps,
                        },
                    ),
                    ..before
                }),
            decreases NUM_CELLS - i,
        {
            let group: [u8; GROUP_LEN] = groups[i / 3];
            let at: usize = 2 * (i % 3);
            let value: u16 = word(group[at + 1], group[at]);
            let ghost prior = bms@;
            bms.update_cell(i, value);
            proof {
                let slot: int = before.cursor;
                assert(bms@.wf());
                assert(bms@.frames[slot].cells =~= Seq::new(
                    before.frames[slot].cells.len(),
                    |k: int|
                        if k < i + 1 {
                            readings[k]
                        } else {
                            before.frames[slot].cells[k]
                        },
                ));
                assert(bms@.frames =~= before.frames.update(slot, bms@.frames[slot]));
            }
            i = i + 1;
        }
        proof {
            let slot: int = before.cursor;
            assert(bms@.frames[slot].cells =~= readings);
        }
        outcome
    }

    /// Takes the two auxiliary register groups as they were read, checks the
    /// packet error code of each, and stores the four temperatures in the
    /// cycle in progress. `celsius` holds, for each raw code in turn, what
    /// the thermistor's Beta equation gives for the code's divider voltage. A
    /// group whose packet error code does not match is reported and its
    /// readings are stored all the same.
    pub fn read_temperatures(
        &self,
        auxa: &[u8; GROUP_LEN],
        auxb: &[u8; GROUP_LEN],
        celsius: &[i32; NUM_TERMISTORS],
        bms: &mut SLAVEBMS,
    ) -> (outcome: Result<(), PecFault>)
        ensures
            final(bms)@ == old(bms)@.with_temps(
                Seq::new(
                    NUM_TERMISTORS as nat,
                    |i: int| temperature_of(aux_readings(auxa@, auxb@)[i], celsius@[i] as int),
                ),
            ),
            final(bms)@.wf(),
            outcome == (if !group_intact(auxa@) {
                Err::<(), PecFault>(PecFault { group: 0 })
            } else if !group_intact(auxb@) {
                Err::<(), PecFault>(PecFault { group: 1 })
            } else {
                Ok::<(), PecFault>(())
            }),
    {
        let outcome: Result<(), PecFault> = if !pec_matches(auxa) {
            Err(PecFault { group: 0 })
        } else if !pec_matches(auxb) {
            Err(PecFault { group: 1 })
        } else {
            Ok(())
        };
        let codes: [u16; NUM_TERMISTORS] = aux_codes(auxa, auxb);
        let ghost temps = Seq::new(
            NUM_TERMISTORS as nat,
            |i: int| temperature_of(aux_readings(auxa@, auxb@)[i], celsius@[i] as int),
        );
        let ghost before = bms@;
        proof {
            bms.lemma_view_wf();
            let slot: int = before.cursor;
            assert(before.frames[slot].temps =~= Seq::new(
                before.frames[slot].temps.len(),
                |k: int|
                    if k < 0 {
                        temps[k]
                    } else {
                        before.frames[slot].temps[k]
                    },
            ));
            assert(before.frames =~= before.frames.update(slot, before.frames[slot]));
        }
        let mut i: usize = 0;
        while i < NUM_TERMISTORS
            invariant
                i <= NUM_TERMISTORS,
                codes@ == aux_readings(auxa@, auxb@),
                temps == Seq::new(
                    NUM_TERMISTORS as nat,
                    |i: int| temperature_of(aux_readings(auxa@, auxb@)[i], celsius@[i] as int),
                ),
                before == old(bms)@,
                before.wf(),
                bms@ == (RollingState {
                    frames: before.frames.update(
                        before.cursor,
                        CellFrame {
                            cells: before.frames[before.cursor].cells,
                            temps: Seq::new(
                                before.frames[before.cursor].temps.len(),
                                |k: int|
                                    if k < i {
                                        temps[k]
                                    } else {
                                        before.frames[before.cursor].temps[k]
                                    },
                            ),
                        },
                    ),
                    ..before
                }),
            decreases NUM_TERMISTORS - i,
        {
            let value: u16 = self.parse_temp(codes[i], celsius[i]);
            bms.update_temp(i, value);
            proof {
                let slot: int = before.cursor;
                assert(bms@.frames[slot].temps =~= Seq::new(
                    before.frames[slot].temps.len(),
                    |k: int|
                        if k < i + 1 {
                            temps[k]
                        } else {
                            before.frames[slot].temps[k]
                        },
                ));
                assert(bms@.frames =~= before.frames.update(slot, bms@.frames[slot]));
            }
            i = i + 1;
        }
        proof {
            let slot: int = before.cursor;
            assert(bms@.frames[slot].temps =~= temps);
        }
        outcome
    }

    /// The temperature reported for the raw code `adc_raw`, where `celsius`
    /// is what the thermistor's Beta equation gives for the divider voltage
    /// `thermistor_millivolts(adc_raw)`, rounded to a whole number.
    pub fn parse_temp(&self, adc_raw: u16, celsius: i32) -> (temp: u16)
        ensures
            temp == temperature_of(adc_raw, celsius as int),
            adc_raw == 0 ==> temp == MAX_TEMP,
            divider_millivolts(adc_raw) >= VREF2_MV ==> temp == MIN_TEMP,
    {
        if adc_raw == 0 {
            return MAX_TEMP;
        }
        let volt_mv: u16 = thermistor_millivolts(adc_raw);
        if volt_mv >= VREF2_MV {
            return MIN_TEMP;
        }
        if volt_mv == 0 {
            return MIN_TEMP;
        }
        if celsius < MIN_TEMP as i32 {
            MIN_TEMP
        } else if celsius > MAX_TEMP as i32 {
            MAX_TEMP
        } else {
            celsius as u16
        }
    }

    /// The command that starts the conversion of the cell voltages; the
    /// chip needs `CELL_CONVERSION_MS` before the result can be read.
    pub fn start_cell_conversion(&self) -> (frame: [u8; 4])
        ensures
            frame@ == command_frame(ADCV@),
    {
        self.prepare_command(ADCV)
    }

    /// The command that starts the conversion of the auxiliary inputs; the
    /// chip needs `TEMPERATURE_CONVERSION_MS` before the result can be read.
    pub fn start_temperature_conversion(&self) -> (frame: [u8; 4])
        ensures
            frame@ == command_frame(ADAX@),
    {
        self.prepare_command(ADAX)
    }
}

/// The discharge bitmap of the pack: bit `i` is set where cell `i` lies
/// above the pack minimum by more than the allowed difference.
fn balancing_bitmap(bms: &SLAVEBMS) -> (bitmap: u16)
    ensures
        bitmap == discharge_bitmap(bms@),
        bitmap < 0x1000,
{
    let min_volt: u16 = bms.min_volt();
    let mut bitmap: u16 = 0;
    let mut weight: u16 = 1;
    let mut i: usize = 0;
    proof {
        vstd::arithmetic::power2::lemma2_to64();
    }
    while i < NUM_CELLS
        invariant
            i <= NUM_CELLS,
            min_volt == bms@.min_volt,
            bitmap == bitmap_upto(bms@, i as int),
            weight == pow2(i as nat),
            bitmap < weight,
            weight <= 0x1000,
        decreases NUM_CELLS - i,
    {
        let cell_volt: u16 = bms.cell_volts(i);
        proof {
            vstd::arithmetic::power2::lemma_pow2_unfold((i + 1) as nat);
            vstd::arithmetic::power2::lemma2_to64();
        }
        if cell_volt > min_volt && cell_volt - min_volt > BAL_EPSILON {
            bitmap = bitmap + weight;
        }
        i = i + 1;
        weight = 2 * weight;
    }
    bitmap
}

/// Whether a register group as read ends in the packet error code of its
/// six data bytes.
pub fn pec_matches(group: &[u8; GROUP_LEN]) -> (intact: bool)
    ensures
        intact == group_intact(group@),
{
    let data = vstd::slice::slice_subrange(group.as_slice(), 0, 6);
    let pec = calculate_pec(data);
    proof {
        let tail = group@.subrange(6, 8);
        assert(tail.len() == 2 && tail[0] == group@[6] && tail[1] == group@[7]);
        if pec[0] == group[6] && pec[1] == group[7] {
            assert(tail =~= pec@);
        }
    }
    pec[0] == group[6] && pec[1] == group[7]
}

/// The sixteen-bit reading with high byte `hi` and low byte `lo`.
fn word(hi: u8, lo: u8) -> (value: u16)
    ensures
        value == hi * 256 + lo,
        value == word_le(lo, hi),
        value == word_be(hi, lo),
{
    let value: u16 = ((hi as u16) << 8) | (lo as u16);
    assert(value == hi * 256 + lo) by (bit_vector)
        requires
            value == ((hi as u16) << 8) | (lo as u16),
    ;
    value
}

/// The four raw codes that the auxiliary register groups carry.
pub fn aux_codes(auxa: &[u8; GROUP_LEN], auxb: &[u8; GROUP_LEN]) -> (codes: [u16; NUM_TERMISTORS])
    ensures
        codes@ == aux_readings(auxa@, auxb@),
{
    let codes: [u16; NUM_TERMISTORS] = [
        word(auxa[0], auxa[1]),
        word(auxa[2], auxa[3]),
        word(auxa[4], auxa[5]),
        word(auxb[0], auxb[1]),
    ];
    assert(codes@ =~= aux_readings(auxa@, auxb@));
    codes
}

/// The divider voltage that the raw code stands for, in millivolts.
pub fn thermistor_millivolts(adc_raw: u16) -> (volt_mv: u16)
    ensures
        volt_mv == divider_millivolts(adc_raw),
{
    ((2 * (adc_raw as u32) + 10) / 20) as u16
}

} // verus!
