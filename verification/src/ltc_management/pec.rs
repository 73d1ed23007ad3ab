//! The checksum engine: the 15-bit packet error code that closes every
//! command and every register group exchanged with the monitor chip.

use vstd::prelude::*;

verus! {

/// Remainder that the division starts from.
pub const PEC_SEED: u16 = 16;

/// Remainder of each byte value under the checksum's polynomial.
pub const CRC15_TABLE: [u16; 256] = [
    0x0000, 0xc599, 0xceab, 0x0b32, 0xd8cf, 0x1d56, 0x1664, 0xd3fd,
    0xf407, 0x319e, 0x3aac, 0xff35, 0x2cc8, 0xe951, 0xe263, 0x27fa,
    0xad97, 0x680e, 0x633c, 0xa6a5, 0x7558, 0xb0c1, 0xbbf3, 0x7e6a,
    0x5990, 0x9c09, 0x973b, 0x52a2, 0x815f, 0x44c6, 0x4ff4, 0x8a6d,
    0x5b2e, 0x9eb7, 0x9585, 0x501c, 0x83e1, 0x4678, 0x4d4a, 0x88d3,
    0xaf29, 0x6ab0, 0x6182, 0xa41b, 0x77e6, 0xb27f, 0xb94d, 0x7cd4,
    0xf6b9, 0x3320, 0x3812, 0xfd8b, 0x2e76, 0xebef, 0xe0dd, 0x2544,
    0x02be, 0xc727, 0xcc15, 0x098c, 0xda71, 0x1fe8, 0x14da, 0xd143,
    0xf3c5, 0x365c, 0x3d6e, 0xf8f7, 0x2b0a, 0xee93, 0xe5a1, 0x2038,
    0x07c2, 0xc25b, 0xc969, 0x0cf0, 0xdf0d, 0x1a94, 0x11a6, 0xd43f,
    0x5e52, 0x9bcb, 0x90f9, 0x5560, 0x869d, 0x4304, 0x4836, 0x8daf,
    0xaa55, 0x6fcc, 0x64fe, 0xa167, 0x729a, 0xb703, 0xbc31, 0x79a8,
    0xa8eb, 0x6d72, 0x6640, 0xa3d9, 0x7024, 0xb5bd, 0xbe8f, 0x7b16,
    0x5cec, 0x9975, 0x9247, 0x57de, 0x8423, 0x41ba, 0x4a88, 0x8f11,
    0x057c, 0xc0e5, 0xcbd7, 0x0e4e, 0xddb3, 0x182a, 0x1318, 0xd681,
    0xf17b, 0x34e2, 0x3fd0, 0xfa49, 0x29b4, 0xec2d, 0xe71f, 0x2286,
    0xa213, 0x678a, 0x6cb8, 0xa921, 0x7adc, 0xbf45, 0xb477, 0x71ee,
    0x5614, 0x938d, 0x98bf, 0x5d26, 0x8edb, 0x4b42, 0x4070, 0x85e9,
    0x0f84, 0xca1d, 0xc12f, 0x04b6, 0xd74b, 0x12d2, 0x19e0, 0xdc79,
    0xfb83, 0x3e1a, 0x3528, 0xf0b1, 0x234c, 0xe6d5, 0xede7, 0x287e,
    0xf93d, 0x3ca4, 0x3796, 0xf20f, 0x21f2, 0xe46b, 0xef59, 0x2ac0,
    0x0d3a, 0xc8a3, 0xc391, 0x0608, 0xd5f5, 0x106c, 0x1b5e, 0xdec7,
    0x54aa, 0x9133, 0x9a01, 0x5f98, 0x8c65, 0x49fc, 0x42ce, 0x8757,
    0xa0ad, 0x6534, 0x6e06, 0xab9f, 0x7862, 0xbdfb, 0xb6c9, 0x7350,
    0x51d6, 0x944f, 0x9f7d, 0x5ae4, 0x8919, 0x4c80, 0x47b2, 0x822b,
    0xa5d1, 0x6048, 0x6b7a, 0xaee3, 0x7d1e, 0xb887, 0xb3b5, 0x762c,
    0xfc41, 0x39d8, 0x32ea, 0xf773, 0x248e, 0xe117, 0xea25, 0x2fbc,
    0x0846, 0xcddf, 0xc6ed, 0x0374, 0xd089, 0x1510, 0x1e22, 0xdbbb,
    0x0af8, 0xcf61, 0xc453, 0x01ca, 0xd237, 0x17ae, 0x1c9c, 0xd905,
    0xfeff, 0x3b66, 0x3054, 0xf5cd, 0x2630, 0xe3a9, 0xe89b, 0x2d02,
    0xa76f, 0x62f6, 0x69c4, 0xac5d, 0x7fa0, 0xba39, 0xb10b, 0x7492,
    0x5368, 0x96f1, 0x9dc3, 0x585a, 0x8ba7, 0x4e3e, 0x450c, 0x8095,
];

/// The generator polynomial of the checksum,
/// x^15 + x^14 + x^10 + x^8 + x^7 + x^4 + x^3 + 1, without its leading term.
pub const CRC15_POLY: u16 = 0x4599;

/// One step of the division by the polynomial: the remainder moves up by one
/// bit, and the polynomial is subtracted where a bit leaves the fifteen.
pub open spec fn poly_step(remainder: u16) -> u16 {
    if remainder & 0x4000 != 0 {
        (remainder << 1) ^ CRC15_POLY
    } else {
        remainder << 1
    }
}

/// The remainder of one byte under the polynomial: eight steps of the
/// division, starting with the byte in the top eight of the fifteen bits.
pub open spec fn poly_remainder(byte: u8) -> u16 {
    poly_step(
        poly_step(
            poly_step(
                poly_step(poly_step(poly_step(poly_step(poly_step((byte as u16) << 7))))),
            ),
        ),
    )
}

/// The remainders of the byte values 0 to 31.
proof fn lemma_poly_remainders_0()
    by (bit_vector)
    ensures
        poly_remainder(0u8) == 0x0000u16,
        poly_remainder(1u8) == 0xc599u16,
        poly_remainder(2u8) == 0xceabu16,
        poly_remainder(3u8) == 0x0b32u16,
        poly_remainder(4u8) == 0xd8cfu16,
        poly_remainder(5u8) == 0x1d56u16,
        poly_remainder(6u8) == 0x1664u16,
        poly_remainder(7u8) == 0xd3fdu16,
        poly_remainder(8u8) == 0xf407u16,
        poly_remainder(9u8) == 0x319eu16,
        poly_remainder(10u8) == 0x3aacu16,
        poly_remainder(11u8) == 0xff35u16,
        poly_remainder(12u8) == 0x2cc8u16,
        poly_remainder(13u8) == 0xe951u16,
        poly_remainder(14u8) == 0xe263u16,
        poly_remainder(15u8) == 0x27fau16,
        poly_remainder(16u8) == 0xad97u16,
        poly_remainder(17u8) == 0x680eu16,
        poly_remainder(18u8) == 0x633cu16,
        poly_remainder(19u8) == 0xa6a5u16,
        poly_remainder(20u8) == 0x7558u16,
        poly_remainder(21u8) == 0xb0c1u16,
        poly_remainder(22u8) == 0xbbf3u16,
        poly_remainder(23u8) == 0x7e6au16,
        poly_remainder(24u8) == 0x5990u16,
        poly_remainder(25u8) == 0x9c09u16,
        poly_remainder(26u8) == 0x973bu16,
        poly_remainder(27u8) == 0x52a2u16,
        poly_remainder(28u8) == 0x815fu16,
        poly_remainder(29u8) == 0x44c6u16,
        poly_remainder(30u8) == 0x4ff4u16,
        poly_remainder(31u8) == 0x8a6du16,
{
}

/// The remainders of the byte values 32 to 63.
proof fn lemma_poly_remainders_1()
    by (bit_vector)
    ensures
        poly_remainder(32u8) == 0x5b2eu16,
        poly_remainder(33u8) == 0x9eb7u16,
        poly_remainder(34u8) == 0x9585u16,
        poly_remainder(35u8) == 0x501cu16,
        poly_remainder(36u8) == 0x83e1u16,
        poly_remainder(37u8) == 0x4678u16,
        poly_remainder(38u8) == 0x4d4au16,
        poly_remainder(39u8) == 0x88d3u16,
        poly_remainder(40u8) == 0xaf29u16,
        poly_remainder(41u8) == 0x6ab0u16,
        poly_remainder(42u8) == 0x6182u16,
        poly_remainder(43u8) == 0xa41bu16,
        poly_remainder(44u8) == 0x77e6u16,
        poly_remainder(45u8) == 0xb27fu16,
        poly_remainder(46u8) == 0xb94du16,
        poly_remainder(47u8) == 0x7cd4u16,
        poly_remainder(48u8) == 0xf6b9u16,
        poly_remainder(49u8) == 0x3320u16,
        poly_remainder(50u8) == 0x3812u16,
        poly_remainder(51u8) == 0xfd8bu16,
        poly_remainder(52u8) == 0x2e76u16,
        poly_remainder(53u8) == 0xebefu16,
        poly_remainder(54u8) == 0xe0ddu16,
        poly_remainder(55u8) == 0x2544u16,
        poly_remainder(56u8) == 0x02beu16,
        poly_remainder(57u8) == 0xc727u16,
        poly_remainder(58u8) == 0xcc15u16,
        poly_remainder(59u8) == 0x098cu16,
        poly_remainder(60u8) == 0xda71u16,
        poly_remainder(61u8) == 0x1fe8u16,
        poly_remainder(62u8) == 0x14dau16,
        poly_remainder(63u8) == 0xd143u16,
{
}

/// The remainders of the byte values 64 to 95.
proof fn lemma_poly_remainders_2()
    by (bit_vector)
    ensures
        poly_remainder(64u8) == 0xf3c5u16,
        poly_remainder(65u8) == 0x365cu16,
        poly_remainder(66u8) == 0x3d6eu16,
        poly_remainder(67u8) == 0xf8f7u16,
        poly_remainder(68u8) == 0x2b0au16,
        poly_remainder(69u8) == 0xee93u16,
        poly_remainder(70u8) == 0xe5a1u16,
        poly_remainder(71u8) == 0x2038u16,
        poly_remainder(72u8) == 0x07c2u16,
        poly_remainder(73u8) == 0xc25bu16,
        poly_remainder(74u8) == 0xc969u16,
        poly_remainder(75u8) == 0x0cf0u16,
        poly_remainder(76u8) == 0xdf0du16,
        poly_remainder(77u8) == 0x1a94u16,
        poly_remainder(78u8) == 0x11a6u16,
        poly_remainder(79u8) == 0xd43fu16,
        poly_remainder(80u8) == 0x5e52u16,
        poly_remainder(81u8) == 0x9bcbu16,
        poly_remainder(82u8) == 0x90f9u16,
        poly_remainder(83u8) == 0x5560u16,
        poly_remainder(84u8) == 0x869du16,
        poly_remainder(85u8) == 0x4304u16,
        poly_remainder(86u8) == 0x4836u16,
        poly_remainder(87u8) == 0x8dafu16,
        poly_remainder(88u8) == 0xaa55u16,
        poly_remainder(89u8) == 0x6fccu16,
        poly_remainder(90u8) == 0x64feu16,
        poly_remainder(91u8) == 0xa167u16,
        poly_remainder(92u8) == 0x729au16,
        poly_remainder(93u8) == 0xb703u16,
        poly_remainder(94u8) == 0xbc31u16,
        poly_remainder(95u8) == 0x79a8u16,
{
}

/// The remainders of the byte values 96 to 127.
proof fn lemma_poly_remainders_3()
    by (bit_vector)
    ensures
        poly_remainder(96u8) == 0xa8ebu16,
        poly_remainder(97u8) == 0x6d72u16,
        poly_remainder(98u8) == 0x6640u16,
        poly_remainder(99u8) == 0xa3d9u16,
        poly_remainder(100u8) == 0x7024u16,
        poly_remainder(101u8) == 0xb5bdu16,
        poly_remainder(102u8) == 0xbe8fu16,
        poly_remainder(103u8) == 0x7b16u16,
        poly_remainder(104u8) == 0x5cecu16,
        poly_remainder(105u8) == 0x9975u16,
        poly_remainder(106u8) == 0x9247u16,
        poly_remainder(107u8) == 0x57deu16,
        poly_remainder(108u8) == 0x8423u16,
        poly_remainder(109u8) == 0x41bau16,
        poly_remainder(110u8) == 0x4a88u16,
        poly_remainder(111u8) == 0x8f11u16,
        poly_remainder(112u8) == 0x057cu16,
        poly_remainder(113u8) == 0xc0e5u16,
        poly_remainder(114u8) == 0xcbd7u16,
        poly_remainder(115u8) == 0x0e4eu16,
        poly_remainder(116u8) == 0xddb3u16,
        poly_remainder(117u8) == 0x182au16,
        poly_remainder(118u8) == 0x1318u16,
        poly_remainder(119u8) == 0xd681u16,
        poly_remainder(120u8) == 0xf17bu16,
        poly_remainder(121u8) == 0x34e2u16,
        poly_remainder(122u8) == 0x3fd0u16,
        poly_remainder(123u8) == 0xfa49u16,
        poly_remainder(124u8) == 0x29b4u16,
        poly_remainder(125u8) == 0xec2du16,
        poly_remainder(126u8) == 0xe71fu16,
        poly_remainder(127u8) == 0x2286u16,
{
}

/// The remainders of the byte values 128 to 159.
proof fn lemma_poly_remainders_4()
    by (bit_vector)
    ensures
        poly_remainder(128u8) == 0xa213u16,
        poly_remainder(129u8) == 0x678au16,
        poly_remainder(130u8) == 0x6cb8u16,
        poly_remainder(131u8) == 0xa921u16,
        poly_remainder(132u8) == 0x7adcu16,
        poly_remainder(133u8) == 0xbf45u16,
        poly_remainder(134u8) == 0xb477u16,
        poly_remainder(135u8) == 0x71eeu16,
        poly_remainder(136u8) == 0x5614u16,
        poly_remainder(137u8) == 0x938du16,
        poly_remainder(138u8) == 0x98bfu16,
        poly_remainder(139u8) == 0x5d26u16,
        poly_remainder(140u8) == 0x8edbu16,
        poly_remainder(141u8) == 0x4b42u16,
        poly_remainder(142u8) == 0x4070u16,
        poly_remainder(143u8) == 0x85e9u16,
        poly_remainder(144u8) == 0x0f84u16,
        poly_remainder(145u8) == 0xca1du16,
        poly_remainder(146u8) == 0xc12fu16,
        poly_remainder(147u8) == 0x04b6u16,
        poly_remainder(148u8) == 0xd74bu16,
        poly_remainder(149u8) == 0x12d2u16,
        poly_remainder(150u8) == 0x19e0u16,
        poly_remainder(151u8) == 0xdc79u16,
        poly_remainder(152u8) == 0xfb83u16,
        poly_remainder(153u8) == 0x3e1au16,
        poly_remainder(154u8) == 0x3528u16,
        poly_remainder(155u8) == 0xf0b1u16,
        poly_remainder(156u8) == 0x234cu16,
        poly_remainder(157u8) == 0xe6d5u16,
        poly_remainder(158u8) == 0xede7u16,
        poly_remainder(159u8) == 0x287eu16,
{
}

/// The remainders of the byte values 160 to 191.
proof fn lemma_poly_remainders_5()
    by (bit_vector)
    ensures
        poly_remainder(160u8) == 0xf93du16,
        poly_remainder(161u8) == 0x3ca4u16,
        poly_remainder(162u8) == 0x3796u16,
        poly_remainder(163u8) == 0xf20fu16,
        poly_remainder(164u8) == 0x21f2u16,
        poly_remainder(165u8) == 0xe46bu16,
        poly_remainder(166u8) == 0xef59u16,
        poly_remainder(167u8) == 0x2ac0u16,
        poly_remainder(168u8) == 0x0d3au16,
        poly_remainder(169u8) == 0xc8a3u16,
        poly_remainder(170u8) == 0xc391u16,
        poly_remainder(171u8) == 0x0608u16,
        poly_remainder(172u8) == 0xd5f5u16,
        poly_remainder(173u8) == 0x106cu16,
        poly_remainder(174u8) == 0x1b5eu16,
        poly_remainder(175u8) == 0xdec7u16,
        poly_remainder(176u8) == 0x54aau16,
        poly_remainder(177u8) == 0x9133u16,
        poly_remainder(178u8) == 0x9a01u16,
        poly_remainder(179u8) == 0x5f98u16,
        poly_remainder(180u8) == 0x8c65u16,
        poly_remainder(181u8) == 0x49fcu16,
        poly_remainder(182u8) == 0x42ceu16,
        poly_remainder(183u8) == 0x8757u16,
        poly_remainder(184u8) == 0xa0adu16,
        poly_remainder(185u8) == 0x6534u16,
        poly_remainder(186u8) == 0x6e06u16,
        poly_remainder(187u8) == 0xab9fu16,
        poly_remainder(188u8) == 0x7862u16,
        poly_remainder(189u8) == 0xbdfbu16,
        poly_remainder(190u8) == 0xb6c9u16,
        poly_remainder(191u8) == 0x7350u16,
{
}

/// The remainders of the byte values 192 to 223.
proof fn lemma_poly_remainders_6()
    by (bit_vector)
    ensures
        poly_remainder(192u8) == 0x51d6u16,
        poly_remainder(193u8) == 0x944fu16,
        poly_remainder(194u8) == 0x9f7du16,
        poly_remainder(195u8) == 0x5ae4u16,
        poly_remainder(196u8) == 0x8919u16,
        poly_remainder(197u8) == 0x4c80u16,
        poly_remainder(198u8) == 0x47b2u16,
        poly_remainder(199u8) == 0x822bu16,
        poly_remainder(200u8) == 0xa5d1u16,
        poly_remainder(201u8) == 0x6048u16,
        poly_remainder(202u8) == 0x6b7au16,
        poly_remainder(203u8) == 0xaee3u16,
        poly_remainder(204u8) == 0x7d1eu16,
        poly_remainder(205u8) == 0xb887u16,
        poly_remainder(206u8) == 0xb3b5u16,
        poly_remainder(207u8) == 0x762cu16,
        poly_remainder(208u8) == 0xfc41u16,
        poly_remainder(209u8) == 0x39d8u16,
        poly_remainder(210u8) == 0x32eau16,
        poly_remainder(211u8) == 0xf773u16,
        poly_remainder(212u8) == 0x248eu16,
        poly_remainder(213u8) == 0xe117u16,
        poly_remainder(214u8) == 0xea25u16,
        poly_remainder(215u8) == 0x2fbcu16,
        poly_remainder(216u8) == 0x0846u16,
        poly_remainder(217u8) == 0xcddfu16,
        poly_remainder(218u8) == 0xc6edu16,
        poly_remainder(219u8) == 0x0374u16,
        poly_remainder(220u8) == 0xd089u16,
        poly_remainder(221u8) == 0x1510u16,
        poly_remainder(222u8) == 0x1e22u16,
        poly_remainder(223u8) == 0xdbbbu16,
{
}

/// The remainders of the byte values 224 to 255.
proof fn lemma_poly_remainders_7()
    by (bit_vector)
    ensures
        poly_remainder(224u8) == 0x0af8u16,
        poly_remainder(225u8) == 0xcf61u16,
        poly_remainder(226u8) == 0xc453u16,
        poly_remainder(227u8) == 0x01cau16,
        poly_remainder(228u8) == 0xd237u16,
        poly_remainder(229u8) == 0x17aeu16,
        poly_remainder(230u8) == 0x1c9cu16,
        poly_remainder(231u8) == 0xd905u16,
        poly_remainder(232u8) == 0xfeffu16,
        poly_remainder(233u8) == 0x3b66u16,
        poly_remainder(234u8) == 0x3054u16,
        poly_remainder(235u8) == 0xf5cdu16,
        poly_remainder(236u8) == 0x2630u16,
        poly_remainder(237u8) == 0xe3a9u16,
        poly_remainder(238u8) == 0xe89bu16,
        poly_remainder(239u8) == 0x2d02u16,
        poly_remainder(240u8) == 0xa76fu16,
        poly_remainder(241u8) == 0x62f6u16,
        poly_remainder(242u8) == 0x69c4u16,
        poly_remainder(243u8) == 0xac5du16,
        poly_remainder(244u8) == 0x7fa0u16,
        poly_remainder(245u8) == 0xba39u16,
        poly_remainder(246u8) == 0xb10bu16,
        poly_remainder(247u8) == 0x7492u16,
        poly_remainder(248u8) == 0x5368u16,
        poly_remainder(249u8) == 0x96f1u16,
        poly_remainder(250u8) == 0x9dc3u16,
        poly_remainder(251u8) == 0x585au16,
        poly_remainder(252u8) == 0x8ba7u16,
        poly_remainder(253u8) == 0x4e3eu16,
        poly_remainder(254u8) == 0x450cu16,
        poly_remainder(255u8) == 0x8095u16,
{
}

/// Each entry of the table is the remainder of its index under the
/// polynomial.
#[verifier::rlimit(50)]
pub proof fn lemma_table_is_polynomial(byte: u8)
    ensures
        CRC15_TABLE@[byte as int] == poly_remainder(byte),
{
    lemma_poly_remainders_0();
    lemma_poly_remainders_1();
    lemma_poly_remainders_2();
    lemma_poly_remainders_3();
    lemma_poly_remainders_4();
    lemma_poly_remainders_5();
    lemma_poly_remainders_6();
    lemma_poly_remainders_7();
    // each index is one of the 256 for which the remainder is known
    assert(byte == 0 || byte == 1 || byte == 2 || byte == 3 || byte == 4 || byte == 5 || byte == 6 || byte == 7
        || byte == 8 || byte == 9 || byte == 10 || byte == 11 || byte == 12 || byte == 13 || byte == 14 || byte == 15
        || byte == 16 || byte == 17 || byte == 18 || byte == 19 || byte == 20 || byte == 21 || byte == 22 || byte == 23
        || byte == 24 || byte == 25 || byte == 26 || byte == 27 || byte == 28 || byte == 29 || byte == 30 || byte == 31
        || byte == 32 || byte == 33 || byte == 34 || byte == 35 || byte == 36 || byte == 37 || byte == 38 || byte == 39
        || byte == 40 || byte == 41 || byte == 42 || byte == 43 || byte == 44 || byte == 45 || byte == 46 || byte == 47
        || byte == 48 || byte == 49 || byte == 50 || byte == 51 || byte == 52 || byte == 53 || byte == 54 || byte == 55
        || byte == 56 || byte == 57 || byte == 58 || byte == 59 || byte == 60 || byte == 61 || byte == 62 || byte == 63
        || byte == 64 || byte == 65 || byte == 66 || byte == 67 || byte == 68 || byte == 69 || byte == 70 || byte == 71
        || byte == 72 || byte == 73 || byte == 74 || byte == 75 || byte == 76 || byte == 77 || byte == 78 || byte == 79
        || byte == 80 || byte == 81 || byte == 82 || byte == 83 || byte == 84 || byte == 85 || byte == 86 || byte == 87
        || byte == 88 || byte == 89 || byte == 90 || byte == 91 || byte == 92 || byte == 93 || byte == 94 || byte == 95
        || byte == 96 || byte == 97 || byte == 98 || byte == 99 || byte == 100 || byte == 101 || byte == 102 || byte == 103
        || byte == 104 || byte == 105 || byte == 106 || byte == 107 || byte == 108 || byte == 109 || byte == 110 || byte == 111
        || byte == 112 || byte == 113 || byte == 114 || byte == 115 || byte == 116 || byte == 117 || byte == 118 || byte == 119
        || byte == 120 || byte == 121 || byte == 122 || byte == 123 || byte == 124 || byte == 125 || byte == 126 || byte == 127
        || byte == 128 || byte == 129 || byte == 130 || byte == 131 || byte == 132 || byte == 133 || byte == 134 || byte == 135
        || byte == 136 || byte == 137 || byte == 138 || byte == 139 || byte == 140 || byte == 141 || byte == 142 || byte == 143
        || byte == 144 || byte == 145 || byte == 146 || byte == 147 || byte == 148 || byte == 149 || byte == 150 || byte == 151
        || byte == 152 || byte == 153 || byte == 154 || byte == 155 || byte == 156 || byte == 157 || byte == 158 || byte == 159
        || byte == 160 || byte == 161 || byte == 162 || byte == 163 || byte == 164 || byte == 165 || byte == 166 || byte == 167
        || byte == 168 || byte == 169 || byte == 170 || byte == 171 || byte == 172 || byte == 173 || byte == 174 || byte == 175
        || byte == 176 || byte == 177 || byte == 178 || byte == 179 || byte == 180 || byte == 181 || byte == 182 || byte == 183
        || byte == 184 || byte == 185 || byte == 186 || byte == 187 || byte == 188 || byte == 189 || byte == 190 || byte == 191
        || byte == 192 || byte == 193 || byte == 194 || byte == 195 || byte == 196 || byte == 197 || byte == 198 || byte == 199
        || byte == 200 || byte == 201 || byte == 202 || byte == 203 || byte == 204 || byte == 205 || byte == 206 || byte == 207
        || byte == 208 || byte == 209 || byte == 210 || byte == 211 || byte == 212 || byte == 213 || byte == 214 || byte == 215
        || byte == 216 || byte == 217 || byte == 218 || byte == 219 || byte == 220 || byte == 221 || byte == 222 || byte == 223
        || byte == 224 || byte == 225 || byte == 226 || byte == 227 || byte == 228 || byte == 229 || byte == 230 || byte == 231
        || byte == 232 || byte == 233 || byte == 234 || byte == 235 || byte == 236 || byte == 237 || byte == 238 || byte == 239
        || byte == 240 || byte == 241 || byte == 242 || byte == 243 || byte == 244 || byte == 245 || byte == 246 || byte == 247
        || byte == 248 || byte == 249 || byte == 250 || byte == 251 || byte == 252 || byte == 253 || byte == 254 || byte == 255);
}

/// The remainder after one more byte is folded in.
pub open spec fn pec_fold(remainder: u16, byte: u8) -> u16 {
    (remainder << 8) ^ CRC15_TABLE@[(((remainder >> 7) ^ (byte as u16)) & 0xff) as int]
}

/// The remainder after the bytes of `data` are folded in, first to last,
/// starting from the seed.
pub open spec fn pec_remainder(data: Seq<u8>) -> u16
    decreases data.len(),
{
    if data.len() == 0 {
        PEC_SEED
    } else {
        pec_fold(pec_remainder(data.drop_last()), data.last())
    }
}

/// The packet error code of `data`: the final remainder shifted left by one
/// bit, so that its lowest bit is zero, high byte first.
pub open spec fn pec15(data: Seq<u8>) -> Seq<u8> {
    let code: u16 = pec_remainder(data) << 1;
    seq![(code >> 8) as u8, (code & 0xff) as u8]
}

/// The packet error code has two bytes, and its lowest bit is zero.
pub proof fn lemma_pec15_low_bit(data: Seq<u8>)
    ensures
        pec15(data).len() == 2,
        pec15(data)[1] % 2 == 0,
{
    let remainder: u16 = pec_remainder(data);
    assert((((remainder << 1) & 0xff) as u8) % 2 == 0) by (bit_vector);
}

/// Computes the packet error code of `data`.
pub fn calculate_pec(data: &[u8]) -> (pec: [u8; 2])
    ensures
        pec@ == pec15(data@),
{
    let mut remainder: u16 = PEC_SEED;
    let mut k: usize = 0;
    while k < data.len()
        invariant
            k <= data@.len(),
            remainder == pec_remainder(data@.take(k as int)),
        decreases data@.len() - k,
    {
        let byte: u8 = data[k];
        let address: u16 = ((remainder >> 7) ^ (byte as u16)) & 0xff;
        proof {
            assert(((remainder >> 7) ^ (byte as u16)) & 0xff < 256) by (bit_vector);
            assert(data@.take(k + 1).drop_last() == data@.take(k as int));
            assert(data@.take(k + 1).last() == byte);
        }
        remainder = (remainder << 8) ^ CRC15_TABLE[address as usize];
        k = k + 1;
    }
    proof {
        assert(data@.take(k as int) == data@);
    }
    let code: u16 = remainder << 1;
    proof {
        assert(code >> 8 < 256) by (bit_vector);
        assert(code & 0xff < 256) by (bit_vector);
    }
    let pec: [u8; 2] = [(code >> 8) as u8, (code & 0xff) as u8];
    assert(pec@ =~= pec15(data@));
    pec
}

} // verus!
