//! Register decoding.

use daly_bms_exporter::decode::{
    amps, ascii, cell_volts, celsius, celsius_delta, clean_text, deci, Block, ConfigData, Reading,
    RealtimeData, CFG_BASE,
};
use daly_bms_exporter::error::DecodeError;

#[test]
fn block_dispatch() {
    assert_eq!(Block::from_start_register(0x0000).unwrap(), Block::Realtime);
    assert_eq!(Block::from_start_register(0x0080).unwrap(), Block::Config);
    assert!(matches!(
        Block::from_start_register(0x1234),
        Err(DecodeError::UnknownBlock(0x1234))
    ));
}

/// Tenths as a fraction.
fn tenths(v: i32) -> f64 {
    f64::from(v) * 0.1
}

#[test]
fn encoding_formulas_match_doc_examples() {
    assert!((tenths(amps(0x7534)) - 0.4).abs() < 1e-9); // 30004 -> +0.4 A
    assert!((tenths(amps(0x73F0)) - (-32.0)).abs() < 1e-9); // discharge -> negative
    assert_eq!(f64::from(celsius(0x0035)), 13.0);
    assert!((tenths(deci(0x010D)) - 26.9).abs() < 1e-9);
    assert!((tenths(deci(0x034A)) - 84.2).abs() < 1e-9);
    assert!((tenths(deci(0x0150)) - 33.6).abs() < 1e-9);
    assert!((f64::from(cell_volts(0x0893)) / 1000.0 - 2.195).abs() < 1e-9);
}

#[test]
fn encodings_reach_their_extremes() {
    assert_eq!(amps(0), -30_000);
    assert_eq!(amps(0xFFFF), 35_535);
    assert_eq!(celsius(0), -40);
    assert_eq!(celsius_delta(7), 7);
    assert_eq!(deci(0xFFFF), 65_535);
}

#[test]
fn realtime_short_frame_does_not_panic() {
    let data = RealtimeData::from_registers(&[]);
    assert!(data.pack_dv.is_none());
    assert!(data.cells_mv.is_empty());
    assert!(data.serial.is_none());
}

#[test]
fn realtime_clamps_untrusted_cell_count() {
    let mut regs = vec![0u16; 0x60];
    regs[0] = 2195; // cell 1
    regs[1] = 2200; // cell 2
    regs[0x31] = 0xFFFF; // garbage cell count -> must clamp, not loop 65535
    let data = RealtimeData::from_registers(&regs);
    assert_eq!(data.cells_mv.len(), 2); // only the two non-zero slots
    assert_eq!(data.cells_mv[0].index, 1);
}

#[test]
fn realtime_reads_every_field() {
    let mut regs = vec![0u16; 0x60];
    regs[0] = 2195;
    regs[2] = 2201;
    regs[0x20] = 60;
    regs[0x22] = 61;
    regs[0x28] = 0x010D;
    regs[0x29] = 30_100;
    regs[0x2A] = 0x034A;
    regs[0x2B] = 2210;
    regs[0x2C] = 2190;
    regs[0x2D] = 70;
    regs[0x2E] = 35;
    regs[0x30] = 336;
    regs[0x31] = 3;
    regs[0x32] = 3;
    regs[0x33] = 12;
    regs[0x34] = 1;
    regs[0x35] = 1;
    regs[0x37] = 2200;
    regs[0x38] = 20;
    regs[0x3B] = 0x0300;
    regs[0x40] = 30_005;
    regs[0x41] = 2;
    regs[0x42] = 65;
    for (i, pair) in b"224KE220900366".chunks(2).enumerate() {
        regs[0x57 + i] = u16::from_be_bytes([pair[0], pair[1]]);
    }
    let d = RealtimeData::from_registers(&regs);
    assert_eq!(
        d.cells_mv,
        vec![
            Reading {
                index: 1,
                value: 2195
            },
            Reading {
                index: 3,
                value: 2201
            }
        ]
    );
    assert_eq!(
        d.temps_c,
        vec![
            Reading {
                index: 1,
                value: 20
            },
            Reading {
                index: 3,
                value: 21
            }
        ]
    );
    assert_eq!(d.pack_dv, Some(269));
    assert_eq!(d.current_da, Some(100));
    assert_eq!(d.soc_permille, Some(842));
    assert_eq!(d.cell_max_mv, Some(2210));
    assert_eq!(d.cell_min_mv, Some(2190));
    assert_eq!(d.temp_max_c, Some(30));
    assert_eq!(d.temp_min_c, Some(-5));
    assert_eq!(d.remaining_dah, Some(336));
    assert_eq!(d.cycles, Some(12));
    assert_eq!(d.charge_mos, Some(true));
    assert_eq!(d.discharge_mos, Some(false));
    assert_eq!(d.cell_avg_mv, Some(2200));
    assert_eq!(d.cell_delta_mv, Some(20));
    assert_eq!(d.balancer_active, Some(true));
    assert_eq!(d.balance_current_da, Some(5));
    assert_eq!(d.balancing_cells, Some(2));
    assert_eq!(d.mos_temp_c, Some(25));
    assert_eq!(d.alarm_bits, Some(0x0300));
    assert_eq!(d.serial.as_deref(), Some("224KE220900366"));
}

#[test]
fn config_uses_relative_offsets() {
    let mut regs = vec![0u16; 112]; // one full 0x70-register config block
    regs[0x80 - CFG_BASE] = 0x0190; // rated capacity -> 40.0 Ah
    regs[0xA8 - CFG_BASE] = 0x0057; // fan on -> 47 C
    regs[0xCF - CFG_BASE] = 0x0001; // balance enable
    let cfg = ConfigData::from_registers(&regs);
    assert_eq!(cfg.rated_capacity_dah.map(tenths), Some(40.0));
    assert_eq!(cfg.fan_on_temp_c.map(f64::from), Some(47.0));
    assert_eq!(cfg.balance_enable, Some(true));
}

#[test]
fn config_short_frame_does_not_panic() {
    let cfg = ConfigData::from_registers(&[0x0190]);
    assert_eq!(cfg.rated_capacity_dah.map(tenths), Some(40.0));
    assert!(cfg.balance_enable.is_none()); // 0xCF absent -> None
}

#[test]
fn config_reads_every_field() {
    let mut regs: Vec<u16> = (0..112).map(|i| 1000 + i).collect();
    let at = |addr: usize| i32::try_from(1000 + addr - CFG_BASE).unwrap();
    for (i, pair) in b"V1.0  \0\0".chunks(2).enumerate() {
        regs[0xA9 - CFG_BASE + i] = u16::from_be_bytes([pair[0], pair[1]]);
    }
    for i in 4..7 {
        regs[0xA9 - CFG_BASE + i] = 0;
    }
    for i in 0..7 {
        regs[0xB1 - CFG_BASE + i] = 0;
    }
    for i in 0..8 {
        regs[0xB9 - CFG_BASE + i] = 0x4142;
    }
    let c = ConfigData::from_registers(&regs);
    assert_eq!(c.cell_reference_mv, Some(at(0x81)));
    assert_eq!(c.cell_high_mv.warning, Some(at(0x8B)));
    assert_eq!(c.cell_high_mv.protection, Some(at(0x8C)));
    assert_eq!(c.cell_low_mv.warning, Some(at(0x8D)));
    assert_eq!(c.cell_low_mv.protection, Some(at(0x8E)));
    assert_eq!(c.pack_high_dv.warning, Some(at(0x8F)));
    assert_eq!(c.pack_high_dv.protection, Some(at(0x90)));
    assert_eq!(c.pack_low_dv.warning, Some(at(0x91)));
    assert_eq!(c.pack_low_dv.protection, Some(at(0x92)));
    assert_eq!(c.discharge_overcurrent_da.warning, Some(at(0x93) - 30_000));
    assert_eq!(c.discharge_overcurrent_da.protection, Some(at(0x94) - 30_000));
    assert_eq!(c.charge_overcurrent_da.warning, Some(at(0x95) - 30_000));
    assert_eq!(c.charge_overcurrent_da.protection, Some(at(0x96) - 30_000));
    assert_eq!(c.charge_temp_high_c.warning, Some(at(0x97) - 40));
    assert_eq!(c.charge_temp_low_c.protection, Some(at(0x9A) - 40));
    assert_eq!(c.discharge_temp_high_c.warning, Some(at(0x9B) - 40));
    assert_eq!(c.diff_temp_c, Some(at(0x9D)));
    assert_eq!(c.balance_current_da, Some(at(0xA2)));
    assert_eq!(c.sw_version.as_deref(), Some("V1.0"));
    assert_eq!(c.hw_version, None);
    assert_eq!(c.machine_code.as_deref(), Some("ABABABABABABABAB"));
}

#[test]
fn text_fields_drop_control_characters_and_padding() {
    assert_eq!(clean_text("  V1\n.0\0 ").as_deref(), Some("V1.0"));
    assert_eq!(clean_text("\0\0 \t"), None);
    assert_eq!(clean_text("a b").as_deref(), Some("a b"));
    assert_eq!(clean_text(""), None);
}

#[test]
fn text_fields_stop_where_the_block_does() {
    let regs = [0x4142u16, 0x4344];
    assert_eq!(ascii(&regs, 1, 5).as_deref(), Some("CD"));
    assert_eq!(ascii(&regs, 2, 5), None);
    // Bytes that are no UTF-8 are replaced, not refused.
    assert_eq!(ascii(&[0x41FF], 0, 0).as_deref(), Some("A\u{FFFD}"));
}
