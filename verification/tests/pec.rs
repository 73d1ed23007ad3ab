use slave_bms::ltc_management::ltc6811::{
    ADAX, ADCV, LTC6811, RDAUXA, RDAUXB, RDCFGA, RDCVA, RDCVB, RDCVC, RDCVD, WRCFGA,
};
use slave_bms::ltc_management::pec::{calculate_pec, CRC15_TABLE, PEC_SEED};

#[test]
fn pec_of_write_config_command() {
    assert_eq!(calculate_pec(&WRCFGA), [0x3D, 0x6E]);
}

#[test]
fn pec_of_read_config_command() {
    assert_eq!(calculate_pec(&RDCFGA), [0x2B, 0x0A]);
}

#[test]
fn pec_of_cell_voltage_read_commands() {
    assert_eq!(calculate_pec(&RDCVA), [0x07, 0xC2]);
    assert_eq!(calculate_pec(&RDCVB), [0x9A, 0x94]);
    assert_eq!(calculate_pec(&RDCVC), [0x5E, 0x52]);
    assert_eq!(calculate_pec(&RDCVD), [0xC3, 0x04]);
}

#[test]
fn pec_of_auxiliary_read_commands() {
    assert_eq!(calculate_pec(&RDAUXA), [0xEF, 0xCC]);
    assert_eq!(calculate_pec(&RDAUXB), [0x72, 0x9A]);
}

#[test]
fn pec_of_conversion_commands() {
    assert_eq!(calculate_pec(&ADCV), [0x7C, 0x20]);
    assert_eq!(calculate_pec(&ADAX), [0xD3, 0xA0]);
    // the same two commands in the chip's normal conversion mode
    assert_eq!(calculate_pec(&[0x03, 0x60]), [0xF4, 0x6C]);
    assert_eq!(calculate_pec(&[0x04, 0x60]), [0x5B, 0xEC]);
}

#[test]
fn pec_of_no_bytes_is_the_shifted_seed() {
    assert_eq!(PEC_SEED, 16);
    assert_eq!(calculate_pec(&[]), [0x00, 0x20]);
}

#[test]
fn pec_of_data_bytes() {
    assert_eq!(calculate_pec(&[0x01]), [0xAB, 0x32]);
    assert_eq!(calculate_pec(&[0xFF; 6]), [0x66, 0x4C]);
    assert_eq!(calculate_pec(b"123456789"), [0xA6, 0xBE]);
    assert_eq!(calculate_pec(&[0xF8, 0xCF, 0x37, 0xA7, 0x00, 0x00]), [0x4A, 0x70]);
}

#[test]
fn pec_lowest_bit_is_always_zero() {
    for first in 0..=255u8 {
        for second in [0u8, 1, 0x5A, 0xFF] {
            let pec = calculate_pec(&[first, second]);
            assert_eq!(pec[1] & 1, 0);
        }
    }
}

#[test]
fn pec_is_deterministic() {
    let data = [0x12u8, 0x34, 0x56, 0x78, 0x9A, 0xBC];
    assert_eq!(calculate_pec(&data), calculate_pec(&data));
    let driver = LTC6811::new();
    assert_eq!(driver.calculate_pec(&data), calculate_pec(&data));
}

#[test]
fn pec_detects_a_single_flipped_bit() {
    let data = [0x10u8, 0x27, 0x20, 0x4E, 0x30, 0x75];
    let good = calculate_pec(&data);
    assert_eq!(good, [0xC9, 0x1E]);
    for byte in 0..data.len() {
        for bit in 0..8 {
            let mut bad = data;
            bad[byte] ^= 1 << bit;
            assert_ne!(calculate_pec(&bad), good);
        }
    }
}

#[test]
fn table_entries_are_remainders_of_the_polynomial() {
    for value in 0..256usize {
        let mut remainder: u32 = (value as u32) << 7;
        for _ in 0..8 {
            remainder = if remainder & 0x4000 != 0 {
                (remainder << 1) ^ 0x4599
            } else {
                remainder << 1
            };
        }
        assert_eq!(CRC15_TABLE[value], (remainder & 0xFFFF) as u16);
    }
    assert_eq!(CRC15_TABLE[0], 0);
    assert_eq!(CRC15_TABLE[1], 0xC599);
    assert_eq!(CRC15_TABLE[255], 0x8095);
}
