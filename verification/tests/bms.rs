use slave_bms::types::bms::{setup_bms, BMS, NUM_CELLS, NUM_HISTORY, NUM_TERMISTORS, SLAVEBMS};
use slave_bms::types::{CanMsg, TEMPERATURES, VOLTAGES};

fn frame_of(cells: [u16; 12], temps: [u16; 4]) -> BMS {
    let mut frame = BMS::new();
    for i in 0..12 {
        frame.update_cell(i, cells[i]);
    }
    for i in 0..4 {
        frame.update_temp(i, temps[i]);
    }
    frame
}

fn run_cycle(pack: &mut SLAVEBMS, cells: [u16; 12], temps: [u16; 4]) {
    for i in 0..12 {
        pack.update_cell(i, cells[i]);
    }
    for i in 0..4 {
        pack.update_temp(i, temps[i]);
    }
    pack.update();
}

#[test]
fn dimensions() {
    assert_eq!(NUM_CELLS, 12);
    assert_eq!(NUM_TERMISTORS, 4);
    assert_eq!(NUM_HISTORY, 5);
}

#[test]
fn new_frame_is_all_zero() {
    let frame = BMS::new();
    assert_eq!(frame.tot_volt(), 0);
    assert_eq!(frame.max_volt(), 0);
    assert_eq!(frame.min_volt(), 0);
    assert_eq!(frame.avg_volt(), 0);
    assert_eq!(frame.max_temp(), 0);
    assert_eq!(frame.min_temp(), 0);
    assert_eq!(frame.avg_temp(), 0);
    for i in 0..12 {
        assert_eq!(frame.cell_volts(i), 0);
    }
    for i in 0..4 {
        assert_eq!(frame.temperatures(i), 0);
    }
}

#[test]
fn default_frame_equals_new() {
    let frame = BMS::default();
    assert_eq!(frame.tot_volt(), 0);
    assert_eq!(frame.min_volt(), 0);
    assert_eq!(frame.max_temp(), 0);
}

#[test]
fn single_update_recomputes_every_aggregate() {
    let mut frame = BMS::new();
    frame.update_cell(3, 1200);
    assert_eq!(frame.cell_volts(3), 1200);
    assert_eq!(frame.tot_volt(), 1200);
    assert_eq!(frame.max_volt(), 1200);
    assert_eq!(frame.min_volt(), 0);
    assert_eq!(frame.avg_volt(), 100);
    frame.update_cell(3, 0);
    assert_eq!(frame.tot_volt(), 0);
    assert_eq!(frame.max_volt(), 0);
    assert_eq!(frame.avg_volt(), 0);
}

#[test]
fn frame_aggregates_of_mixed_readings() {
    let cells = [
        35000, 35100, 34900, 36000, 33000, 35500, 35000, 35000, 41000, 35000, 35000, 35001,
    ];
    let frame = frame_of(cells, [250, 300, 275, 260]);
    // 425501 / 12 = 35458.41...
    assert_eq!(frame.tot_volt(), 425501);
    assert_eq!(frame.max_volt(), 41000);
    assert_eq!(frame.min_volt(), 33000);
    assert_eq!(frame.avg_volt(), 35458);
    // 1085 / 4 = 271.25
    assert_eq!(frame.max_temp(), 300);
    assert_eq!(frame.min_temp(), 250);
    assert_eq!(frame.avg_temp(), 271);
}

#[test]
fn frame_average_rounds_to_nearest_and_half_up() {
    // 6 / 12 = 0.5 rounds up
    let mut frame = BMS::new();
    frame.update_cell(0, 6);
    assert_eq!(frame.avg_volt(), 1);
    // 5 / 12 = 0.41... rounds down
    frame.update_cell(0, 5);
    assert_eq!(frame.avg_volt(), 0);
    // 17 / 12 = 1.41..., 18 / 12 = 1.5, 19 / 12 = 1.58...
    frame.update_cell(0, 17);
    assert_eq!(frame.avg_volt(), 1);
    frame.update_cell(0, 18);
    assert_eq!(frame.avg_volt(), 2);
    frame.update_cell(0, 19);
    assert_eq!(frame.avg_volt(), 2);
    // temperatures: 1 / 4 rounds down, 2 / 4 up, 3 / 4 up
    frame.update_temp(2, 1);
    assert_eq!(frame.avg_temp(), 0);
    frame.update_temp(2, 2);
    assert_eq!(frame.avg_temp(), 1);
    frame.update_temp(2, 3);
    assert_eq!(frame.avg_temp(), 1);
}

#[test]
fn frame_of_full_scale_readings_does_not_wrap() {
    let frame = frame_of([u16::MAX; 12], [u16::MAX; 4]);
    assert_eq!(frame.tot_volt(), 786_420);
    assert_eq!(frame.max_volt(), u16::MAX);
    assert_eq!(frame.min_volt(), u16::MAX);
    assert_eq!(frame.avg_volt(), u16::MAX);
    assert_eq!(frame.avg_temp(), u16::MAX);
}

#[test]
fn uniform_frame_has_the_reading_as_every_aggregate() {
    for v in [0u16, 1, 3500, 35000, 42800, 65535] {
        let frame = frame_of([v; 12], [250; 4]);
        assert_eq!(frame.tot_volt(), 12 * v as u32);
        assert_eq!(frame.avg_volt(), v);
        assert_eq!(frame.min_volt(), v);
        assert_eq!(frame.max_volt(), v);
    }
}

#[test]
fn new_pack_is_all_zero() {
    let pack = SLAVEBMS::new();
    assert_eq!(pack.tot_volt(), 0);
    assert_eq!(pack.max_volt(), 0);
    assert_eq!(pack.min_volt(), 0);
    assert_eq!(pack.avg_volt(), 0);
    assert_eq!(pack.max_temp(), 0);
    assert_eq!(pack.min_temp(), 0);
    assert_eq!(pack.avg_temp(), 0);
    assert_eq!(pack.current(), 0);
    for i in 0..12 {
        assert_eq!(pack.cell_volts(i), 0);
    }
    let other = setup_bms();
    assert_eq!(other.tot_volt(), 0);
    let third = SLAVEBMS::default();
    assert_eq!(third.avg_volt(), 0);
}

#[test]
fn readings_of_a_cycle_in_progress_are_not_visible() {
    let mut pack = SLAVEBMS::new();
    for i in 0..12 {
        pack.update_cell(i, 35000);
    }
    for i in 0..4 {
        pack.update_temp(i, 250);
    }
    assert_eq!(pack.avg_volt(), 0);
    assert_eq!(pack.max_volt(), 0);
    assert_eq!(pack.max_temp(), 0);
    assert_eq!(pack.cell_volts(0), 0);
    pack.update();
    assert_eq!(pack.cell_volts(0), 35000);
    // one frame of five holds the readings
    assert_eq!(pack.avg_volt(), 7000);
    assert_eq!(pack.max_volt(), 7000);
    assert_eq!(pack.min_volt(), 7000);
    assert_eq!(pack.tot_volt(), 84000);
    assert_eq!(pack.max_temp(), 50);
    assert_eq!(pack.min_temp(), 50);
    assert_eq!(pack.avg_temp(), 50);
}

#[test]
fn rolling_average_of_identical_cycles() {
    let mut pack = SLAVEBMS::new();
    for _ in 0..5 {
        run_cycle(&mut pack, [3500; 12], [250; 4]);
    }
    assert_eq!(pack.avg_volt(), 3500);
    assert_eq!(pack.min_volt(), 3500);
    assert_eq!(pack.max_volt(), 3500);
    assert_eq!(pack.tot_volt(), 42000);
    assert_eq!(pack.avg_temp(), 250);
    // repeating the cycle changes nothing
    for _ in 0..7 {
        run_cycle(&mut pack, [3500; 12], [250; 4]);
        assert_eq!(pack.avg_volt(), 3500);
        assert_eq!(pack.min_volt(), 3500);
        assert_eq!(pack.max_volt(), 3500);
        assert_eq!(pack.tot_volt(), 42000);
    }
}

#[test]
fn pack_aggregates_average_the_frames_own() {
    let mut pack = SLAVEBMS::new();
    let mut cells = [35000u16; 12];
    for _ in 0..5 {
        run_cycle(&mut pack, cells, [250, 260, 270, 280]);
    }
    cells[0] = 44000;
    run_cycle(&mut pack, cells, [250, 260, 270, 280]);
    // frame maxima: 44000 and four times 35000
    assert_eq!(pack.max_volt(), 36800);
    assert_eq!(pack.min_volt(), 35000);
    // frame averages: 35750 and four times 35000
    assert_eq!(pack.avg_volt(), 35150);
    // frame totals: 429000 and four times 420000
    assert_eq!(pack.tot_volt(), 421_800);
    assert_eq!(pack.max_temp(), 280);
    assert_eq!(pack.min_temp(), 250);
    assert_eq!(pack.avg_temp(), 265);
    assert_eq!(pack.cell_volts(0), 44000);
    assert_eq!(pack.cell_volts(1), 35000);
}

#[test]
fn pack_average_rounds_to_nearest() {
    let mut pack = SLAVEBMS::new();
    // frame minima 1, 0, 0, 0, 0: 0.2 rounds down
    run_cycle(&mut pack, [1; 12], [0; 4]);
    assert_eq!(pack.min_volt(), 0);
    // 1, 1, 0, 0, 0: 0.4 rounds down
    run_cycle(&mut pack, [1; 12], [0; 4]);
    assert_eq!(pack.min_volt(), 0);
    // 1, 1, 1, 0, 0: 0.6 rounds up
    run_cycle(&mut pack, [1; 12], [0; 4]);
    assert_eq!(pack.min_volt(), 1);
    assert_eq!(pack.max_volt(), 1);
    assert_eq!(pack.avg_volt(), 1);
    // totals 12, 12, 12, 0, 0: 7.2 rounds down
    assert_eq!(pack.tot_volt(), 7);
}

#[test]
fn cursor_wraps_after_five_cycles() {
    let mut pack = SLAVEBMS::new();
    for cycle in 0..5u16 {
        run_cycle(&mut pack, [1000 * (cycle + 1); 12], [100; 4]);
    }
    // frames hold 1000, 2000, 3000, 4000, 5000
    assert_eq!(pack.avg_volt(), 3000);
    assert_eq!(pack.cell_volts(11), 5000);
    // the sixth cycle overwrites the oldest frame
    run_cycle(&mut pack, [6000; 12], [100; 4]);
    assert_eq!(pack.avg_volt(), 4000);
    assert_eq!(pack.cell_volts(11), 6000);
    run_cycle(&mut pack, [7000; 12], [100; 4]);
    assert_eq!(pack.avg_volt(), 5000);
}

#[test]
fn full_scale_history() {
    let mut pack = SLAVEBMS::new();
    for _ in 0..5 {
        run_cycle(&mut pack, [u16::MAX; 12], [u16::MAX; 4]);
    }
    assert_eq!(pack.tot_volt(), 786_420);
    assert_eq!(pack.max_volt(), u16::MAX);
    assert_eq!(pack.min_volt(), u16::MAX);
    assert_eq!(pack.avg_volt(), u16::MAX);
    assert_eq!(pack.max_temp(), u16::MAX);
    assert_eq!(pack.avg_temp(), u16::MAX);
}

#[test]
fn current_is_stored_as_reported() {
    let mut pack = SLAVEBMS::new();
    pack.update_current(-1234);
    assert_eq!(pack.current(), -1234);
    pack.update();
    assert_eq!(pack.current(), -1234);
    pack.update_current(i32::MAX);
    assert_eq!(pack.current(), i32::MAX);
}

#[test]
fn bus_identifiers() {
    assert_eq!(CanMsg::VoltageId.as_raw(), 0x54);
    assert_eq!(CanMsg::TemperatureId.as_raw(), 0x55);
    assert_eq!(CanMsg::Balancing.as_raw(), 0x1A4);
    assert_eq!(CanMsg::ErrorId.as_raw(), 0x14);
    assert_eq!(CanMsg::Tech.as_raw(), 0x365);
    assert_eq!(CanMsg::Tech1.as_raw(), 0x366);
    assert_eq!(CanMsg::Tech2.as_raw(), 0x367);
    assert_eq!(CanMsg::Tech3.as_raw(), 0x368);
    assert_eq!(CanMsg::Tech4.as_raw(), 0x369);
}

#[test]
fn configured_limits() {
    assert_eq!(VOLTAGES::MAXVOLTAGE.as_raw(), 42800);
    assert_eq!(VOLTAGES::MINVOLTAGE.as_raw(), 32000);
    assert_eq!(TEMPERATURES::MAXTEMP._as_raw(), 600);
    assert_eq!(TEMPERATURES::MINTEMP._as_raw(), 100);
}
