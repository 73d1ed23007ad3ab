use slave_bms::can_management::frame::{MAX_PAYLOAD, MAX_STANDARD_ID};
use slave_bms::can_management::{
    can_operation, can_operation_tech, error_frame, get_byte, read_can, CanFrame, ControlCommand,
};
use slave_bms::types::bms::SLAVEBMS;

const CELLS: [u16; 12] =
    [35000, 35100, 34900, 36000, 33000, 35500, 35000, 35000, 41000, 35000, 35000, 35001];

fn steady_pack(cells: [u16; 12], temps: [u16; 4]) -> SLAVEBMS {
    let mut pack = SLAVEBMS::new();
    for _ in 0..5 {
        for i in 0..12 {
            pack.update_cell(i, cells[i]);
        }
        for i in 0..4 {
            pack.update_temp(i, temps[i]);
        }
        pack.update();
    }
    pack
}

#[test]
fn frame_holds_identifier_payload_and_length() {
    let frame = CanFrame::new(0x123, &[1, 2, 3]);
    assert_eq!(frame.id(), 0x123);
    assert_eq!(frame._len(), 3);
    assert_eq!(frame.bytes(), [1, 2, 3, 0, 0, 0, 0, 0]);
    assert_eq!(frame._byte(0), 1);
    assert_eq!(frame._byte(2), 3);
    assert_eq!(frame._byte(3), 0);
    assert_eq!(frame._byte(7), 0);
}

#[test]
fn frame_with_no_payload() {
    let frame = CanFrame::new(0, &[]);
    assert_eq!(frame.id(), 0);
    assert_eq!(frame._len(), 0);
    assert_eq!(frame.bytes(), [0; 8]);
}

#[test]
fn frame_with_full_payload_and_largest_identifier() {
    assert_eq!(MAX_PAYLOAD, 8);
    assert_eq!(MAX_STANDARD_ID, 0x7FF);
    let frame = CanFrame::new(0x7FF, &[9, 8, 7, 6, 5, 4, 3, 2]);
    assert_eq!(frame.id(), 0x7FF);
    assert_eq!(frame._len(), 8);
    assert_eq!(frame.bytes(), [9, 8, 7, 6, 5, 4, 3, 2]);
}

#[test]
fn byte_extraction() {
    assert_eq!(get_byte(0x1234_5678, 0), 0x78);
    assert_eq!(get_byte(0x1234_5678, 1), 0x56);
    assert_eq!(get_byte(0x1234_5678, 2), 0x34);
    assert_eq!(get_byte(0x1234_5678, 3), 0x12);
    assert_eq!(get_byte(0, 0), 0);
    assert_eq!(get_byte(u32::MAX, 3), 0xFF);
    assert_eq!(get_byte(0x100, 0), 0);
    assert_eq!(get_byte(0x100, 1), 1);
}

#[test]
fn voltage_summary_layout() {
    let pack = steady_pack(CELLS, [250, 300, 275, 260]);
    assert_eq!(pack.min_volt(), 33000);
    assert_eq!(pack.max_volt(), 41000);
    assert_eq!(pack.avg_volt(), 35458);
    assert_eq!(pack.tot_volt(), 425_501);
    let frames = can_operation(&pack);
    assert_eq!(frames[0].id(), 0x54);
    assert_eq!(frames[0]._len(), 8);
    // minimum, maximum, mean, total in hundredths; low byte first
    assert_eq!(frames[0].bytes(), [0xE8, 0x80, 0x28, 0xA0, 0x82, 0x8A, 0x9F, 0x10]);
}

#[test]
fn temperature_summary_layout() {
    let mut pack = steady_pack(CELLS, [250, 300, 275, 260]);
    pack.update_current(-1234);
    let frames = can_operation(&pack);
    assert_eq!(frames[1].id(), 0x55);
    assert_eq!(frames[1]._len(), 8);
    // maximum, minimum, then the current in four bytes; low byte first
    assert_eq!(frames[1].bytes(), [0x2C, 0x01, 0xFA, 0x00, 0x2E, 0xFB, 0xFF, 0xFF]);
    pack.update_current(0x0102_0304);
    assert_eq!(can_operation(&pack)[1].bytes(), [0x2C, 0x01, 0xFA, 0x00, 0x04, 0x03, 0x02, 0x01]);
    pack.update_current(i32::MIN);
    assert_eq!(can_operation(&pack)[1].bytes(), [0x2C, 0x01, 0xFA, 0x00, 0x00, 0x00, 0x00, 0x80]);
    pack.update_current(-1);
    assert_eq!(can_operation(&pack)[1].bytes(), [0x2C, 0x01, 0xFA, 0x00, 0xFF, 0xFF, 0xFF, 0xFF]);
}

#[test]
fn summaries_of_an_empty_pack() {
    let pack = SLAVEBMS::new();
    let frames = can_operation(&pack);
    assert_eq!(frames[0].id(), 0x54);
    assert_eq!(frames[0].bytes(), [0; 8]);
    assert_eq!(frames[1].id(), 0x55);
    assert_eq!(frames[1].bytes(), [0; 8]);
}

#[test]
fn summary_of_a_full_scale_pack() {
    let pack = steady_pack([u16::MAX; 12], [u16::MAX; 4]);
    let frames = can_operation(&pack);
    // 786420 / 100 = 7864 = 0x1EB8
    assert_eq!(frames[0].bytes(), [0xFF, 0xFF, 0xFF, 0xFF, 0xFF, 0xFF, 0xB8, 0x1E]);
}

#[test]
fn diagnostic_frames_carry_three_cells_each() {
    let pack = steady_pack(CELLS, [250; 4]);
    let frames = can_operation_tech(&pack);
    assert_eq!(frames[0].id(), 0x366);
    assert_eq!(frames[1].id(), 0x367);
    assert_eq!(frames[2].id(), 0x368);
    assert_eq!(frames[3].id(), 0x369);
    for frame in frames.iter() {
        assert_eq!(frame._len(), 6);
    }
    assert_eq!(frames[0].bytes(), [0xB8, 0x88, 0x1C, 0x89, 0x54, 0x88, 0, 0]);
    assert_eq!(frames[1].bytes(), [0xA0, 0x8C, 0xE8, 0x80, 0xAC, 0x8A, 0, 0]);
    assert_eq!(frames[2].bytes(), [0xB8, 0x88, 0xB8, 0x88, 0x28, 0xA0, 0, 0]);
    assert_eq!(frames[3].bytes(), [0xB8, 0x88, 0xB8, 0x88, 0xB9, 0x88, 0, 0]);
}

#[test]
fn diagnostic_frames_show_the_cycle_closed_last() {
    let mut pack = steady_pack([35000; 12], [250; 4]);
    // a cycle in progress is not shown
    pack.update_cell(0, 1);
    assert_eq!(can_operation_tech(&pack)[0].bytes(), [0xB8, 0x88, 0xB8, 0x88, 0xB8, 0x88, 0, 0]);
    pack.update();
    assert_eq!(can_operation_tech(&pack)[0].bytes(), [0x01, 0x00, 0xB8, 0x88, 0xB8, 0x88, 0, 0]);
}

#[test]
fn fault_frame() {
    let frame = error_frame();
    assert_eq!(frame.id(), 0x14);
    assert_eq!(frame._len(), 1);
    assert_eq!(frame.bytes(), [1, 0, 0, 0, 0, 0, 0, 0]);
}

#[test]
fn balancing_toggle_is_decoded() {
    assert_eq!(read_can(&CanFrame::new(0x1A4, &[1])), Some(ControlCommand::Balancing(true)));
    assert_eq!(read_can(&CanFrame::new(0x1A4, &[0xFF, 0])), Some(ControlCommand::Balancing(true)));
    assert_eq!(read_can(&CanFrame::new(0x1A4, &[0])), Some(ControlCommand::Balancing(false)));
    assert_eq!(read_can(&CanFrame::new(0x1A4, &[0, 1, 1])), Some(ControlCommand::Balancing(false)));
}

#[test]
fn diagnostic_toggle_is_decoded() {
    assert_eq!(read_can(&CanFrame::new(0x365, &[1])), Some(ControlCommand::Diagnostic(true)));
    assert_eq!(read_can(&CanFrame::new(0x365, &[2, 0, 0, 0, 0, 0, 0, 0])), Some(ControlCommand::Diagnostic(true)));
    assert_eq!(read_can(&CanFrame::new(0x365, &[0])), Some(ControlCommand::Diagnostic(false)));
}

#[test]
fn control_frame_without_payload_disables() {
    assert_eq!(read_can(&CanFrame::new(0x1A4, &[])), Some(ControlCommand::Balancing(false)));
    assert_eq!(read_can(&CanFrame::new(0x365, &[])), Some(ControlCommand::Diagnostic(false)));
}

#[test]
fn unrecognised_identifiers_are_ignored() {
    assert_eq!(read_can(&CanFrame::new(0x54, &[1])), None);
    assert_eq!(read_can(&CanFrame::new(0x55, &[1])), None);
    assert_eq!(read_can(&CanFrame::new(0x14, &[1])), None);
    assert_eq!(read_can(&CanFrame::new(0x366, &[1])), None);
    assert_eq!(read_can(&CanFrame::new(0x1A5, &[1])), None);
    assert_eq!(read_can(&CanFrame::new(0, &[1])), None);
    assert_eq!(read_can(&CanFrame::new(0x7FF, &[1])), None);
}
