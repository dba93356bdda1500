//! The ids under which the registry keeps the families: no two are the same.
//!
//! An id is a hash of the name, so this is shown by computing the ids.

use vstd::prelude::*;
use vstd::string::*;
use vstd::utf8::{encode_utf8, is_ascii_chars, is_ascii_chars_encode_utf8};

use crate::families::Family;
use crate::series::{descriptor_id, fnv1a, fnv_step};

verus! {

/// The id of a family.
pub open spec fn id_of(f: Family) -> u64 {
    match f {
        Family::PackVoltage => 0x5547_af05_c4c7_8e07,
        Family::Current => 0x083a_8b04_9a0e_a8fd,
        Family::Soc => 0xbc73_9595_0379_9c9b,
        Family::RemainingCapacity => 0xe722_831d_101b_4e6a,
        Family::CellVoltage => 0x68f7_09f2_bbad_2700,
        Family::CellVoltageMax => 0x8dd7_5125_347d_b69f,
        Family::CellVoltageMin => 0x0405_3318_5f66_b565,
        Family::CellVoltageAvg => 0xc717_7b2c_7e82_d911,
        Family::CellVoltageDelta => 0xa8c8_ff18_812a_3caf,
        Family::Temperature => 0x7fe8_f7b2_658d_238f,
        Family::TemperatureMax => 0x6173_0919_ccbf_22cc,
        Family::TemperatureMin => 0x7557_c521_52a1_ffee,
        Family::MosTemperature => 0xe8d6_e812_73eb_6dad,
        Family::ChargeCycles => 0xd808_a366_ee41_112e,
        Family::ChargeMos => 0x4e43_5d8a_604e_4538,
        Family::DischargeMos => 0xdb4c_47a7_b492_ff22,
        Family::BalancerActive => 0x0573_b0e2_9876_5fd3,
        Family::BalanceCurrent => 0x836f_6c92_b7d4_3c64,
        Family::BalancingCellCount => 0x4154_fe18_5837_b08a,
        Family::AlarmBits => 0x37de_caec_33c6_3e3c,
        Family::Alarm => 0x896c_4687_90f2_123f,
        Family::RatedCapacity => 0x99a3_2e0b_23ea_b83c,
        Family::CellReferenceVoltage => 0x1d7b_1e6a_15a4_4e66,
        Family::CellVoltageHighLimit => 0x20b3_9096_75c9_619b,
        Family::CellVoltageLowLimit => 0x28ca_9343_4f83_ee6f,
        Family::PackVoltageHighLimit => 0x2a40_711f_933f_684a,
        Family::PackVoltageLowLimit => 0xafa6_31dd_55ea_4bdc,
        Family::ChargeOvercurrentLimit => 0xdfb8_d596_ec74_f470,
        Family::DischargeOvercurrentLimit => 0x94a6_b49e_ed15_c6f6,
        Family::ChargeTempHighLimit => 0x1a7c_f652_83e2_a707,
        Family::ChargeTempLowLimit => 0x62bb_40e5_aaa4_ef9b,
        Family::DischargeTempHighLimit => 0x6d70_d813_0522_7d1d,
        Family::DiffTempLimit => 0x833b_d16e_6c25_1c9b,
        Family::FanOnTemperature => 0x0083_c1c5_67b8_d10d,
        Family::BalanceEnable => 0x9bdb_3d3d_b8da_614c,
        Family::ConfigBalanceCurrent => 0x3bc7_aced_83c3_ecd9,
        Family::DeviceInfo => 0xa103_1bd0_d0dc_ad65,
        Family::HttpRequests => 0xe89b_1b2a_49ae_8ace,
        Family::FramesDecoded => 0xb3a5_086a_3143_05b0,
        Family::FramesDropped => 0xce09_06e6_6e68_622c,
        Family::LastFrameTimestamp => 0x9634_b91a_73f2_60b3,
        Family::CoulombSamplesRejected => 0xdd53_c5ec_214a_9cfb,
        Family::StateWriteErrors => 0xcc0a_426e_b100_c9e6,
        Family::StateLastWriteTimestamp => 0xb050_ab03_c6f3_739b,
        Family::ChargeAmpHours => 0x1cf8_5632_2e16_42de,
        Family::DischargeAmpHours => 0xd72b_288a_b74d_30a0,
        Family::ChargeWattHours => 0x84f6_c142_77d7_4b6c,
        Family::DischargeWattHours => 0x8ebf_ded3_2ad9_070e,
    }
}

// --- Steps of the hash ---
/// Four steps of the hash.
spec fn four(h: u64, a: u8, b: u8, c: u8, d: u8) -> u64 {
    fnv_step(fnv_step(fnv_step(fnv_step(h, a), b), c), d)
}

/// Eight steps of the hash.
spec fn eight(h: u64, a: u8, b: u8, c: u8, d: u8, e: u8, f: u8, g: u8, i: u8) -> u64 {
    four(four(h, a, b, c, d), e, f, g, i)
}

proof fn lemma_step(bytes: Seq<u8>, k: int)
    requires
        0 <= k < bytes.len(),
    ensures
        fnv1a(bytes.take(k + 1)) == fnv_step(fnv1a(bytes.take(k)), bytes[k]),
{
    reveal(fnv1a);
    assert(bytes.take(k + 1).drop_last() =~= bytes.take(k));
}

proof fn lemma_four(bytes: Seq<u8>, k: int)
    requires
        0 <= k,
        k + 4 <= bytes.len(),
    ensures
        fnv1a(bytes.take(k + 4)) == four(
            fnv1a(bytes.take(k)),
            bytes[k],
            bytes[k + 1],
            bytes[k + 2],
            bytes[k + 3],
        ),
{
    lemma_step(bytes, k);
    lemma_step(bytes, k + 1);
    lemma_step(bytes, k + 2);
    lemma_step(bytes, k + 3);
}

proof fn lemma_eight(bytes: Seq<u8>, k: int)
    requires
        0 <= k,
        k + 8 <= bytes.len(),
    ensures
        fnv1a(bytes.take(k + 8)) == eight(
            fnv1a(bytes.take(k)),
            bytes[k],
            bytes[k + 1],
            bytes[k + 2],
            bytes[k + 3],
            bytes[k + 4],
            bytes[k + 5],
            bytes[k + 6],
            bytes[k + 7],
        ),
{
    lemma_four(bytes, k);
    lemma_four(bytes, k + 4);
}

/// The bytes that the id of a name is computed of.
spec fn id_bytes(name: Seq<char>) -> Seq<u8> {
    encode_utf8(name).push(0xff)
}

/// The hash of what all names begin with.
spec fn common() -> u64 {
    0x7f08_eced_edb3_1325
}

proof fn lemma_common_steps()
    by (bit_vector)
    ensures
        eight(0xcbf2_9ce4_8422_2325, 0x64, 0x61, 0x6c, 0x79, 0x5f, 0x62, 0x6d, 0x73) == 0x48d5_3768_1fbc_bb98,
        fnv_step(0x48d5_3768_1fbc_bb98, 0x5f) == 0x7f08_eced_edb3_1325,
{
}

/// A name and the bytes of its id.
proof fn lemma_bytes(name: Seq<char>)
    requires
        is_ascii_chars(name),
        name.len() > 9,
        name.take(9) == "daly_bms_"@,
    ensures
        id_bytes(name).len() == name.len() + 1,
        forall|i: int| 0 <= i < name.len() ==> #[trigger] id_bytes(name)[i] == name[i] as u8,
        id_bytes(name)[name.len() as int] == 0xff,
        fnv1a(id_bytes(name).take(9)) == common(),
        descriptor_id(name) == fnv1a(id_bytes(name).take((name.len() + 1) as int)),
{
    let b = id_bytes(name);
    is_ascii_chars_encode_utf8(name);
    assert forall|i: int| 0 <= i < name.len() implies #[trigger] b[i] == name[i] as u8 by {
        assert(encode_utf8(name)[i] == name[i] as u8);
    }
    reveal_strlit("daly_bms_");
    assert forall|i: int| 0 <= i < 9 implies #[trigger] name[i] == "daly_bms_"@[i] by {
        assert(name.take(9)[i] == name[i]);
    }
    assert(fnv1a(b.take(0)) == 0xcbf2_9ce4_8422_2325) by {
        reveal(fnv1a);
    }
    lemma_eight(b, 0);
    lemma_step(b, 8);
    lemma_common_steps();
    assert(b.take((name.len() + 1) as int) =~= b);
}

// --- From PackVoltage to CellVoltageMax ---
proof fn lemma_steps_from_pack_voltage()
    by (bit_vector)
    ensures
        eight(0x7f08_eced_edb3_1325, 0x70, 0x61, 0x63, 0x6b, 0x5f, 0x76, 0x6f, 0x6c) == 0x9ed4_1abf_2562_5652,
        eight(0x9ed4_1abf_2562_5652, 0x74, 0x61, 0x67, 0x65, 0x5f, 0x76, 0x6f, 0x6c) == 0xcd73_13cf_127c_b533,
        fnv_step(0xcd73_13cf_127c_b533, 0x74) == 0x973f_efdc_69e8_07a5,
        fnv_step(0x973f_efdc_69e8_07a5, 0x73) == 0xe9ac_6987_f545_50a2,
        fnv_step(0xe9ac_6987_f545_50a2, 0xff) == 0x5547_af05_c4c7_8e07,
        eight(0x7f08_eced_edb3_1325, 0x63, 0x75, 0x72, 0x72, 0x65, 0x6e, 0x74, 0x5f) == 0xd682_8f06_1a57_46bf,
        eight(0xd682_8f06_1a57_46bf, 0x61, 0x6d, 0x70, 0x65, 0x72, 0x65, 0x73, 0xff) == 0x083a_8b04_9a0e_a8fd,
        eight(0x7f08_eced_edb3_1325, 0x73, 0x6f, 0x63, 0x5f, 0x70, 0x65, 0x72, 0x63) == 0x6361_e070_9f30_5a71,
        four(0x6361_e070_9f30_5a71, 0x65, 0x6e, 0x74, 0xff) == 0xbc73_9595_0379_9c9b,
        eight(0x7f08_eced_edb3_1325, 0x72, 0x65, 0x6d, 0x61, 0x69, 0x6e, 0x69, 0x6e) == 0xdd18_2c4f_8daf_c556,
        eight(0xdd18_2c4f_8daf_c556, 0x67, 0x5f, 0x63, 0x61, 0x70, 0x61, 0x63, 0x69) == 0xc9b7_6206_d4d7_31a7,
        eight(0xc9b7_6206_d4d7_31a7, 0x74, 0x79, 0x5f, 0x61, 0x6d, 0x70, 0x5f, 0x68) == 0x56b9_2496_f7d1_df46,
        four(0x56b9_2496_f7d1_df46, 0x6f, 0x75, 0x72, 0x73) == 0x3fb9_d434_719e_5e11,
        fnv_step(0x3fb9_d434_719e_5e11, 0xff) == 0xe722_831d_101b_4e6a,
        eight(0x7f08_eced_edb3_1325, 0x63, 0x65, 0x6c, 0x6c, 0x5f, 0x76, 0x6f, 0x6c) == 0x3d43_9881_4b3a_67db,
        eight(0x3d43_9881_4b3a_67db, 0x74, 0x61, 0x67, 0x65, 0x5f, 0x76, 0x6f, 0x6c) == 0x18c4_90dc_1770_2046,
        fnv_step(0x18c4_90dc_1770_2046, 0x74) == 0x8622_57fb_d386_b4f6,
        fnv_step(0x8622_57fb_d386_b4f6, 0x73) == 0x7310_05e8_6de4_bdff,
        fnv_step(0x7310_05e8_6de4_bdff, 0xff) == 0x68f7_09f2_bbad_2700,
        eight(0x3d43_9881_4b3a_67db, 0x74, 0x61, 0x67, 0x65, 0x5f, 0x6d, 0x61, 0x78) == 0xb6e1_e3db_df41_c265,
        four(0xb6e1_e3db_df41_c265, 0x5f, 0x76, 0x6f, 0x6c) == 0xf2e0_cd2c_77da_5ecb,
        fnv_step(0xf2e0_cd2c_77da_5ecb, 0x74) == 0x8e5b_618f_a80e_fe8d,
        fnv_step(0x8e5b_618f_a80e_fe8d, 0x73) == 0xf445_c51a_917b_499a,
        fnv_step(0xf445_c51a_917b_499a, 0xff) == 0x8dd7_5125_347d_b69f,
{
}

#[verifier::rlimit(60)]
proof fn lemma_ids_from_pack_voltage(f: Family)
    ensures
        match f {
            Family::PackVoltage
            | Family::Current
            | Family::Soc
            | Family::RemainingCapacity
            | Family::CellVoltage
            | Family::CellVoltageMax => descriptor_id(f.name_text()) == id_of(f),
            _ => true,
        },
{
    lemma_steps_from_pack_voltage();
    reveal_strlit("daly_bms_");
    let name = f.name_text();
    let b = id_bytes(name);
    match f {
        Family::PackVoltage => {
            reveal_strlit("daly_bms_pack_voltage_volts");
            assert(name.take(9) =~= "daly_bms_"@);
            lemma_bytes(name);
            lemma_eight(b, 9);
            lemma_eight(b, 17);
            lemma_step(b, 25);
            lemma_step(b, 26);
            lemma_step(b, 27);
        },
        Family::Current => {
            reveal_strlit("daly_bms_current_amperes");
            assert(name.take(9) =~= "daly_bms_"@);
            lemma_bytes(name);
            lemma_eight(b, 9);
            lemma_eight(b, 17);
        },
        Family::Soc => {
            reveal_strlit("daly_bms_soc_percent");
            assert(name.take(9) =~= "daly_bms_"@);
            lemma_bytes(name);
            lemma_eight(b, 9);
            lemma_four(b, 17);
        },
        Family::RemainingCapacity => {
            reveal_strlit("daly_bms_remaining_capacity_amp_hours");
            assert(name.take(9) =~= "daly_bms_"@);
            lemma_bytes(name);
            lemma_eight(b, 9);
            lemma_eight(b, 17);
            lemma_eight(b, 25);
            lemma_four(b, 33);
            lemma_step(b, 37);
        },
        Family::CellVoltage => {
            reveal_strlit("daly_bms_cell_voltage_volts");
            assert(name.take(9) =~= "daly_bms_"@);
            lemma_bytes(name);
            lemma_eight(b, 9);
            lemma_eight(b, 17);
            lemma_step(b, 25);
            lemma_step(b, 26);
            lemma_step(b, 27);
        },
        Family::CellVoltageMax => {
            reveal_strlit("daly_bms_cell_voltage_max_volts");
            assert(name.take(9) =~= "daly_bms_"@);
            lemma_bytes(name);
            lemma_eight(b, 9);
            lemma_eight(b, 17);
            lemma_four(b, 25);
            lemma_step(b, 29);
            lemma_step(b, 30);
            lemma_step(b, 31);
        },
        _ => {},
    }
}

// --- From CellVoltageMin to TemperatureMin ---
proof fn lemma_steps_from_cell_voltage_min()
    by (bit_vector)
    ensures
        eight(0x7f08_eced_edb3_1325, 0x63, 0x65, 0x6c, 0x6c, 0x5f, 0x76, 0x6f, 0x6c) == 0x3d43_9881_4b3a_67db,
        eight(0x3d43_9881_4b3a_67db, 0x74, 0x61, 0x67, 0x65, 0x5f, 0x6d, 0x69, 0x6e) == 0xb6fd_eddb_df5a_4e1b,
        four(0xb6fd_eddb_df5a_4e1b, 0x5f, 0x76, 0x6f, 0x6c) == 0x4619_3fae_fae2_7b4d,
        fnv_step(0x4619_3fae_fae2_7b4d, 0x74) == 0xff62_6f54_4ed7_61db,
        fnv_step(0xff62_6f54_4ed7_61db, 0x73) == 0xcba4_d441_f7fa_f078,
        fnv_step(0xcba4_d441_f7fa_f078, 0xff) == 0x0405_3318_5f66_b565,
        eight(0x3d43_9881_4b3a_67db, 0x74, 0x61, 0x67, 0x65, 0x5f, 0x61, 0x76, 0x67) == 0x51c4_d8db_a6ca_479f,
        four(0x51c4_d8db_a6ca_479f, 0x5f, 0x76, 0x6f, 0x6c) == 0xa862_54e1_2eb6_7261,
        fnv_step(0xa862_54e1_2eb6_7261, 0x74) == 0xd588_4fa2_6003_d9af,
        fnv_step(0xd588_4fa2_6003_d9af, 0x73) == 0xda79_2ce9_268b_30d4,
        fnv_step(0xda79_2ce9_268b_30d4, 0xff) == 0xc717_7b2c_7e82_d911,
        eight(0x3d43_9881_4b3a_67db, 0x74, 0x61, 0x67, 0x65, 0x5f, 0x64, 0x65, 0x6c) == 0x7a2b_aedb_bcd9_66a6,
        eight(0x7a2b_aedb_bcd9_66a6, 0x74, 0x61, 0x5f, 0x76, 0x6f, 0x6c, 0x74, 0x73) == 0x6fbf_217e_95c7_03ea,
        fnv_step(0x6fbf_217e_95c7_03ea, 0xff) == 0xa8c8_ff18_812a_3caf,
        eight(0x7f08_eced_edb3_1325, 0x74, 0x65, 0x6d, 0x70, 0x65, 0x72, 0x61, 0x74) == 0xcafd_3180_e5a1_6249,
        eight(0xcafd_3180_e5a1_6249, 0x75, 0x72, 0x65, 0x5f, 0x63, 0x65, 0x6c, 0x73) == 0x9a17_f4ec_72aa_7577,
        four(0x9a17_f4ec_72aa_7577, 0x69, 0x75, 0x73, 0xff) == 0x7fe8_f7b2_658d_238f,
        eight(0xcafd_3180_e5a1_6249, 0x75, 0x72, 0x65, 0x5f, 0x6d, 0x61, 0x78, 0x5f) == 0x7bbb_1099_2728_646d,
        eight(0x7bbb_1099_2728_646d, 0x63, 0x65, 0x6c, 0x73, 0x69, 0x75, 0x73, 0xff) == 0x6173_0919_ccbf_22cc,
        eight(0xcafd_3180_e5a1_6249, 0x75, 0x72, 0x65, 0x5f, 0x6d, 0x69, 0x6e, 0x5f) == 0x36ef_c899_0055_2baf,
        eight(0x36ef_c899_0055_2baf, 0x63, 0x65, 0x6c, 0x73, 0x69, 0x75, 0x73, 0xff) == 0x7557_c521_52a1_ffee,
{
}

#[verifier::rlimit(60)]
proof fn lemma_ids_from_cell_voltage_min(f: Family)
    ensures
        match f {
            Family::CellVoltageMin
            | Family::CellVoltageAvg
            | Family::CellVoltageDelta
            | Family::Temperature
            | Family::TemperatureMax
            | Family::TemperatureMin => descriptor_id(f.name_text()) == id_of(f),
            _ => true,
        },
{
    lemma_steps_from_cell_voltage_min();
    reveal_strlit("daly_bms_");
    let name = f.name_text();
    let b = id_bytes(name);
    match f {
        Family::CellVoltageMin => {
            reveal_strlit("daly_bms_cell_voltage_min_volts");
            assert(name.take(9) =~= "daly_bms_"@);
            lemma_bytes(name);
            lemma_eight(b, 9);
            lemma_eight(b, 17);
            lemma_four(b, 25);
            lemma_step(b, 29);
            lemma_step(b, 30);
            lemma_step(b, 31);
        },
        Family::CellVoltageAvg => {
            reveal_strlit("daly_bms_cell_voltage_avg_volts");
            assert(name.take(9) =~= "daly_bms_"@);
            lemma_bytes(name);
            lemma_eight(b, 9);
            lemma_eight(b, 17);
            lemma_four(b, 25);
            lemma_step(b, 29);
            lemma_step(b, 30);
            lemma_step(b, 31);
        },
        Family::CellVoltageDelta => {
            reveal_strlit("daly_bms_cell_voltage_delta_volts");
            assert(name.take(9) =~= "daly_bms_"@);
            lemma_bytes(name);
            lemma_eight(b, 9);
            lemma_eight(b, 17);
            lemma_eight(b, 25);
            lemma_step(b, 33);
        },
        Family::Temperature => {
            reveal_strlit("daly_bms_temperature_celsius");
            assert(name.take(9) =~= "daly_bms_"@);
            lemma_bytes(name);
            lemma_eight(b, 9);
            lemma_eight(b, 17);
            lemma_four(b, 25);
        },
        Family::TemperatureMax => {
            reveal_strlit("daly_bms_temperature_max_celsius");
            assert(name.take(9) =~= "daly_bms_"@);
            lemma_bytes(name);
            lemma_eight(b, 9);
            lemma_eight(b, 17);
            lemma_eight(b, 25);
        },
        Family::TemperatureMin => {
            reveal_strlit("daly_bms_temperature_min_celsius");
            assert(name.take(9) =~= "daly_bms_"@);
            lemma_bytes(name);
            lemma_eight(b, 9);
            lemma_eight(b, 17);
            lemma_eight(b, 25);
        },
        _ => {},
    }
}

// --- From MosTemperature to BalanceCurrent ---
proof fn lemma_steps_from_mos_temperature()
    by (bit_vector)
    ensures
        eight(0x7f08_eced_edb3_1325, 0x6d, 0x6f, 0x73, 0x5f, 0x74, 0x65, 0x6d, 0x70) == 0xa074_4b1d_dc40_2fb1,
        eight(0xa074_4b1d_dc40_2fb1, 0x65, 0x72, 0x61, 0x74, 0x75, 0x72, 0x65, 0x5f) == 0x3eea_2bc0_720b_a324,
        eight(0x3eea_2bc0_720b_a324, 0x63, 0x65, 0x6c, 0x73, 0x69, 0x75, 0x73, 0xff) == 0xe8d6_e812_73eb_6dad,
        eight(0x7f08_eced_edb3_1325, 0x63, 0x68, 0x61, 0x72, 0x67, 0x65, 0x5f, 0x63) == 0x4dae_96b8_5bff_a14b,
        four(0x4dae_96b8_5bff_a14b, 0x79, 0x63, 0x6c, 0x65) == 0x2ad0_8f9d_25d7_1474,
        fnv_step(0x2ad0_8f9d_25d7_1474, 0x73) == 0x9778_0f07_4c77_07e5,
        fnv_step(0x9778_0f07_4c77_07e5, 0xff) == 0xd808_a366_ee41_112e,
        eight(0x7f08_eced_edb3_1325, 0x63, 0x68, 0x61, 0x72, 0x67, 0x65, 0x5f, 0x6d) == 0x4dae_94b8_5bff_9de5,
        fnv_step(0x4dae_94b8_5bff_9de5, 0x6f) == 0xff44_3f44_5358_b17e,
        fnv_step(0xff44_3f44_5358_b17e, 0x73) == 0x19a8_8e19_9fb4_d917,
        fnv_step(0x19a8_8e19_9fb4_d917, 0xff) == 0x4e43_5d8a_604e_4538,
        eight(0x7f08_eced_edb3_1325, 0x64, 0x69, 0x73, 0x63, 0x68, 0x61, 0x72, 0x67) == 0xe262_cbe9_0eb7_b8c8,
        four(0xe262_cbe9_0eb7_b8c8, 0x65, 0x5f, 0x6d, 0x6f) == 0x4e0d_154a_16ca_5340,
        fnv_step(0x4e0d_154a_16ca_5340, 0x73) == 0x6a8e_5fe4_b9cb_5fa9,
        fnv_step(0x6a8e_5fe4_b9cb_5fa9, 0xff) == 0xdb4c_47a7_b492_ff22,
        eight(0x7f08_eced_edb3_1325, 0x62, 0x61, 0x6c, 0x61, 0x6e, 0x63, 0x65, 0x72) == 0x228d_97f2_aeb8_989b,
        eight(0x228d_97f2_aeb8_989b, 0x5f, 0x61, 0x63, 0x74, 0x69, 0x76, 0x65, 0xff) == 0x0573_b0e2_9876_5fd3,
        eight(0x7f08_eced_edb3_1325, 0x62, 0x61, 0x6c, 0x61, 0x6e, 0x63, 0x65, 0x5f) == 0x228d_72f2_aeb8_59bc,
        eight(0x228d_72f2_aeb8_59bc, 0x63, 0x75, 0x72, 0x72, 0x65, 0x6e, 0x74, 0x5f) == 0xe403_87bd_a810_5b92,
        eight(0xe403_87bd_a810_5b92, 0x61, 0x6d, 0x70, 0x65, 0x72, 0x65, 0x73, 0xff) == 0x836f_6c92_b7d4_3c64,
{
}

#[verifier::rlimit(60)]
proof fn lemma_ids_from_mos_temperature(f: Family)
    ensures
        match f {
            Family::MosTemperature
            | Family::ChargeCycles
            | Family::ChargeMos
            | Family::DischargeMos
            | Family::BalancerActive
            | Family::BalanceCurrent => descriptor_id(f.name_text()) == id_of(f),
            _ => true,
        },
{
    lemma_steps_from_mos_temperature();
    reveal_strlit("daly_bms_");
    let name = f.name_text();
    let b = id_bytes(name);
    match f {
        Family::MosTemperature => {
            reveal_strlit("daly_bms_mos_temperature_celsius");
            assert(name.take(9) =~= "daly_bms_"@);
            lemma_bytes(name);
            lemma_eight(b, 9);
            lemma_eight(b, 17);
            lemma_eight(b, 25);
        },
        Family::ChargeCycles => {
            reveal_strlit("daly_bms_charge_cycles");
            assert(name.take(9) =~= "daly_bms_"@);
            lemma_bytes(name);
            lemma_eight(b, 9);
            lemma_four(b, 17);
            lemma_step(b, 21);
            lemma_step(b, 22);
        },
        Family::ChargeMos => {
            reveal_strlit("daly_bms_charge_mos");
            assert(name.take(9) =~= "daly_bms_"@);
            lemma_bytes(name);
            lemma_eight(b, 9);
            lemma_step(b, 17);
            lemma_step(b, 18);
            lemma_step(b, 19);
        },
        Family::DischargeMos => {
            reveal_strlit("daly_bms_discharge_mos");
            assert(name.take(9) =~= "daly_bms_"@);
            lemma_bytes(name);
            lemma_eight(b, 9);
            lemma_four(b, 17);
            lemma_step(b, 21);
            lemma_step(b, 22);
        },
        Family::BalancerActive => {
            reveal_strlit("daly_bms_balancer_active");
            assert(name.take(9) =~= "daly_bms_"@);
            lemma_bytes(name);
            lemma_eight(b, 9);
            lemma_eight(b, 17);
        },
        Family::BalanceCurrent => {
            reveal_strlit("daly_bms_balance_current_amperes");
            assert(name.take(9) =~= "daly_bms_"@);
            lemma_bytes(name);
            lemma_eight(b, 9);
            lemma_eight(b, 17);
            lemma_eight(b, 25);
        },
        _ => {},
    }
}

// --- From BalancingCellCount to CellVoltageHighLimit ---
proof fn lemma_steps_from_balancing_cell_count()
    by (bit_vector)
    ensures
        eight(0x7f08_eced_edb3_1325, 0x62, 0x61, 0x6c, 0x61, 0x6e, 0x63, 0x69, 0x6e) == 0x227f_a3f2_aeac_6fa3,
        eight(0x227f_a3f2_aeac_6fa3, 0x67, 0x5f, 0x63, 0x65, 0x6c, 0x6c, 0x5f, 0x63) == 0xcfcc_6fa1_cd12_d11b,
        four(0xcfcc_6fa1_cd12_d11b, 0x6f, 0x75, 0x6e, 0x74) == 0x8a61_3722_c71e_24b1,
        fnv_step(0x8a61_3722_c71e_24b1, 0xff) == 0x4154_fe18_5837_b08a,
        eight(0x7f08_eced_edb3_1325, 0x61, 0x6c, 0x61, 0x72, 0x6d, 0x5f, 0x62, 0x69) == 0xa71e_b824_137e_c5ca,
        fnv_step(0xa71e_b824_137e_c5ca, 0x74) == 0x77f8_a34d_206a_01da,
        fnv_step(0x77f8_a34d_206a_01da, 0x73) == 0x457f_250e_1420_d22b,
        fnv_step(0x457f_250e_1420_d22b, 0xff) == 0x37de_caec_33c6_3e3c,
        four(0x7f08_eced_edb3_1325, 0x61, 0x6c, 0x61, 0x72) == 0x2027_a600_9625_f033,
        fnv_step(0x2027_a600_9625_f033, 0x6d) == 0xc94f_70ff_2277_6fba,
        fnv_step(0xc94f_70ff_2277_6fba, 0xff) == 0x896c_4687_90f2_123f,
        eight(0x7f08_eced_edb3_1325, 0x72, 0x61, 0x74, 0x65, 0x64, 0x5f, 0x63, 0x61) == 0x090e_a8eb_b98d_3906,
        eight(0x090e_a8eb_b98d_3906, 0x70, 0x61, 0x63, 0x69, 0x74, 0x79, 0x5f, 0x61) == 0xb37d_4766_926c_bf86,
        eight(0xb37d_4766_926c_bf86, 0x6d, 0x70, 0x5f, 0x68, 0x6f, 0x75, 0x72, 0x73) == 0x70f4_ef23_eca9_702b,
        fnv_step(0x70f4_ef23_eca9_702b, 0xff) == 0x99a3_2e0b_23ea_b83c,
        eight(0x7f08_eced_edb3_1325, 0x63, 0x65, 0x6c, 0x6c, 0x5f, 0x72, 0x65, 0x66) == 0x60bc_3681_5f8d_630f,
        eight(0x60bc_3681_5f8d_630f, 0x65, 0x72, 0x65, 0x6e, 0x63, 0x65, 0x5f, 0x76) == 0x0544_a0da_4a37_4f5e,
        eight(0x0544_a0da_4a37_4f5e, 0x6f, 0x6c, 0x74, 0x61, 0x67, 0x65, 0x5f, 0x76) == 0x44c2_0aeb_9d98_deeb,
        four(0x44c2_0aeb_9d98_deeb, 0x6f, 0x6c, 0x74, 0x73) == 0x48b1_fdb6_1797_09fd,
        fnv_step(0x48b1_fdb6_1797_09fd, 0xff) == 0x1d7b_1e6a_15a4_4e66,
        eight(0x7f08_eced_edb3_1325, 0x63, 0x65, 0x6c, 0x6c, 0x5f, 0x76, 0x6f, 0x6c) == 0x3d43_9881_4b3a_67db,
        eight(0x3d43_9881_4b3a_67db, 0x74, 0x61, 0x67, 0x65, 0x5f, 0x68, 0x69, 0x67) == 0x9d9d_49db_d126_3e13,
        eight(0x9d9d_49db_d126_3e13, 0x68, 0x5f, 0x6c, 0x69, 0x6d, 0x69, 0x74, 0x5f) == 0x1ba2_8220_5b4c_e562,
        four(0x1ba2_8220_5b4c_e562, 0x76, 0x6f, 0x6c, 0x74) == 0xe5d4_ccde_505c_b211,
        fnv_step(0xe5d4_ccde_505c_b211, 0x73) == 0xe54a_7fc2_8d83_1c86,
        fnv_step(0xe54a_7fc2_8d83_1c86, 0xff) == 0x20b3_9096_75c9_619b,
{
}

#[verifier::rlimit(60)]
proof fn lemma_ids_from_balancing_cell_count(f: Family)
    ensures
        match f {
            Family::BalancingCellCount
            | Family::AlarmBits
            | Family::Alarm
            | Family::RatedCapacity
            | Family::CellReferenceVoltage
            | Family::CellVoltageHighLimit => descriptor_id(f.name_text()) == id_of(f),
            _ => true,
        },
{
    lemma_steps_from_balancing_cell_count();
    reveal_strlit("daly_bms_");
    let name = f.name_text();
    let b = id_bytes(name);
    match f {
        Family::BalancingCellCount => {
            reveal_strlit("daly_bms_balancing_cell_count");
            assert(name.take(9) =~= "daly_bms_"@);
            lemma_bytes(name);
            lemma_eight(b, 9);
            lemma_eight(b, 17);
            lemma_four(b, 25);
            lemma_step(b, 29);
        },
        Family::AlarmBits => {
            reveal_strlit("daly_bms_alarm_bits");
            assert(name.take(9) =~= "daly_bms_"@);
            lemma_bytes(name);
            lemma_eight(b, 9);
            lemma_step(b, 17);
            lemma_step(b, 18);
            lemma_step(b, 19);
        },
        Family::Alarm => {
            reveal_strlit("daly_bms_alarm");
            assert(name.take(9) =~= "daly_bms_"@);
            lemma_bytes(name);
            lemma_four(b, 9);
            lemma_step(b, 13);
            lemma_step(b, 14);
        },
        Family::RatedCapacity => {
            reveal_strlit("daly_bms_rated_capacity_amp_hours");
            assert(name.take(9) =~= "daly_bms_"@);
            lemma_bytes(name);
            lemma_eight(b, 9);
            lemma_eight(b, 17);
            lemma_eight(b, 25);
            lemma_step(b, 33);
        },
        Family::CellReferenceVoltage => {
            reveal_strlit("daly_bms_cell_reference_voltage_volts");
            assert(name.take(9) =~= "daly_bms_"@);
            lemma_bytes(name);
            lemma_eight(b, 9);
            lemma_eight(b, 17);
            lemma_eight(b, 25);
            lemma_four(b, 33);
            lemma_step(b, 37);
        },
        Family::CellVoltageHighLimit => {
            reveal_strlit("daly_bms_cell_voltage_high_limit_volts");
            assert(name.take(9) =~= "daly_bms_"@);
            lemma_bytes(name);
            lemma_eight(b, 9);
            lemma_eight(b, 17);
            lemma_eight(b, 25);
            lemma_four(b, 33);
            lemma_step(b, 37);
            lemma_step(b, 38);
        },
        _ => {},
    }
}

// --- From CellVoltageLowLimit to ChargeTempHighLimit ---
proof fn lemma_steps_from_cell_voltage_low_limit()
    by (bit_vector)
    ensures
        eight(0x7f08_eced_edb3_1325, 0x63, 0x65, 0x6c, 0x6c, 0x5f, 0x76, 0x6f, 0x6c) == 0x3d43_9881_4b3a_67db,
        eight(0x3d43_9881_4b3a_67db, 0x74, 0x61, 0x67, 0x65, 0x5f, 0x6c, 0x6f, 0x77) == 0xc218_0ddb_e654_6fad,
        eight(0xc218_0ddb_e654_6fad, 0x5f, 0x6c, 0x69, 0x6d, 0x69, 0x74, 0x5f, 0x76) == 0xd9ec_3811_823d_1b38,
        four(0xd9ec_3811_823d_1b38, 0x6f, 0x6c, 0x74, 0x73) == 0x4e77_3f1c_fdd4_2aaa,
        fnv_step(0x4e77_3f1c_fdd4_2aaa, 0xff) == 0x28ca_9343_4f83_ee6f,
        eight(0x7f08_eced_edb3_1325, 0x70, 0x61, 0x63, 0x6b, 0x5f, 0x76, 0x6f, 0x6c) == 0x9ed4_1abf_2562_5652,
        eight(0x9ed4_1abf_2562_5652, 0x74, 0x61, 0x67, 0x65, 0x5f, 0x68, 0x69, 0x67) == 0xbafb_eacf_07b4_84fa,
        eight(0xbafb_eacf_07b4_84fa, 0x68, 0x5f, 0x6c, 0x69, 0x6d, 0x69, 0x74, 0x5f) == 0xa405_aefd_df09_150b,
        four(0xa405_aefd_df09_150b, 0x76, 0x6f, 0x6c, 0x74) == 0x1355_be95_9fc0_9a38,
        fnv_step(0x1355_be95_9fc0_9a38, 0x73) == 0x9b4d_233e_7446_2d71,
        fnv_step(0x9b4d_233e_7446_2d71, 0xff) == 0x2a40_711f_933f_684a,
        eight(0x9ed4_1abf_2562_5652, 0x74, 0x61, 0x67, 0x65, 0x5f, 0x6c, 0x6f, 0x77) == 0x9768_26ce_f34a_817c,
        eight(0x9768_26ce_f34a_817c, 0x5f, 0x6c, 0x69, 0x6d, 0x69, 0x74, 0x5f, 0x76) == 0x457f_165c_6cfb_db99,
        four(0x457f_165c_6cfb_db99, 0x6f, 0x6c, 0x74, 0x73) == 0x3d88_091d_ef21_7e4b,
        fnv_step(0x3d88_091d_ef21_7e4b, 0xff) == 0xafa6_31dd_55ea_4bdc,
        eight(0x7f08_eced_edb3_1325, 0x63, 0x68, 0x61, 0x72, 0x67, 0x65, 0x5f, 0x6f) == 0x4dae_92b8_5bff_9a7f,
        eight(0x4dae_92b8_5bff_9a7f, 0x76, 0x65, 0x72, 0x63, 0x75, 0x72, 0x72, 0x65) == 0xd1ac_9ac5_a70f_2b27,
        eight(0xd1ac_9ac5_a70f_2b27, 0x6e, 0x74, 0x5f, 0x6c, 0x69, 0x6d, 0x69, 0x74) == 0xcbc9_0e73_ad45_9f15,
        eight(0xcbc9_0e73_ad45_9f15, 0x5f, 0x61, 0x6d, 0x70, 0x65, 0x72, 0x65, 0x73) == 0xbe8c_b4af_2216_a12f,
        fnv_step(0xbe8c_b4af_2216_a12f, 0xff) == 0xdfb8_d596_ec74_f470,
        eight(0x7f08_eced_edb3_1325, 0x64, 0x69, 0x73, 0x63, 0x68, 0x61, 0x72, 0x67) == 0xe262_cbe9_0eb7_b8c8,
        eight(0xe262_cbe9_0eb7_b8c8, 0x65, 0x5f, 0x6f, 0x76, 0x65, 0x72, 0x63, 0x75) == 0xe0b9_6336_da88_2202,
        eight(0xe0b9_6336_da88_2202, 0x72, 0x72, 0x65, 0x6e, 0x74, 0x5f, 0x6c, 0x69) == 0x341e_0c01_121f_6783,
        eight(0x341e_0c01_121f_6783, 0x6d, 0x69, 0x74, 0x5f, 0x61, 0x6d, 0x70, 0x65) == 0x0ad3_7464_8287_4a29,
        four(0x0ad3_7464_8287_4a29, 0x72, 0x65, 0x73, 0xff) == 0x94a6_b49e_ed15_c6f6,
        eight(0x7f08_eced_edb3_1325, 0x63, 0x68, 0x61, 0x72, 0x67, 0x65, 0x5f, 0x74) == 0x4dae_abb8_5bff_c4fa,
        eight(0x4dae_abb8_5bff_c4fa, 0x65, 0x6d, 0x70, 0x5f, 0x68, 0x69, 0x67, 0x68) == 0x262e_d8b9_adad_56e5,
        eight(0x262e_d8b9_adad_56e5, 0x5f, 0x6c, 0x69, 0x6d, 0x69, 0x74, 0x5f, 0x63) == 0xdb8f_3631_34bf_d27f,
        four(0xdb8f_3631_34bf_d27f, 0x65, 0x6c, 0x73, 0x69) == 0xd03b_26b7_5cfa_0032,
        fnv_step(0xd03b_26b7_5cfa_0032, 0x75) == 0xce83_1092_fcce_78a5,
        fnv_step(0xce83_1092_fcce_78a5, 0x73) == 0xb72d_ffc3_92d7_53a2,
        fnv_step(0xb72d_ffc3_92d7_53a2, 0xff) == 0x1a7c_f652_83e2_a707,
{
}

#[verifier::rlimit(60)]
proof fn lemma_ids_from_cell_voltage_low_limit(f: Family)
    ensures
        match f {
            Family::CellVoltageLowLimit
            | Family::PackVoltageHighLimit
            | Family::PackVoltageLowLimit
            | Family::ChargeOvercurrentLimit
            | Family::DischargeOvercurrentLimit
            | Family::ChargeTempHighLimit => descriptor_id(f.name_text()) == id_of(f),
            _ => true,
        },
{
    lemma_steps_from_cell_voltage_low_limit();
    reveal_strlit("daly_bms_");
    let name = f.name_text();
    let b = id_bytes(name);
    match f {
        Family::CellVoltageLowLimit => {
            reveal_strlit("daly_bms_cell_voltage_low_limit_volts");
            assert(name.take(9) =~= "daly_bms_"@);
            lemma_bytes(name);
            lemma_eight(b, 9);
            lemma_eight(b, 17);
            lemma_eight(b, 25);
            lemma_four(b, 33);
            lemma_step(b, 37);
        },
        Family::PackVoltageHighLimit => {
            reveal_strlit("daly_bms_pack_voltage_high_limit_volts");
            assert(name.take(9) =~= "daly_bms_"@);
            lemma_bytes(name);
            lemma_eight(b, 9);
            lemma_eight(b, 17);
            lemma_eight(b, 25);
            lemma_four(b, 33);
            lemma_step(b, 37);
            lemma_step(b, 38);
        },
        Family::PackVoltageLowLimit => {
            reveal_strlit("daly_bms_pack_voltage_low_limit_volts");
            assert(name.take(9) =~= "daly_bms_"@);
            lemma_bytes(name);
            lemma_eight(b, 9);
            lemma_eight(b, 17);
            lemma_eight(b, 25);
            lemma_four(b, 33);
            lemma_step(b, 37);
        },
        Family::ChargeOvercurrentLimit => {
            reveal_strlit("daly_bms_charge_overcurrent_limit_amperes");
            assert(name.take(9) =~= "daly_bms_"@);
            lemma_bytes(name);
            lemma_eight(b, 9);
            lemma_eight(b, 17);
            lemma_eight(b, 25);
            lemma_eight(b, 33);
            lemma_step(b, 41);
        },
        Family::DischargeOvercurrentLimit => {
            reveal_strlit("daly_bms_discharge_overcurrent_limit_amperes");
            assert(name.take(9) =~= "daly_bms_"@);
            lemma_bytes(name);
            lemma_eight(b, 9);
            lemma_eight(b, 17);
            lemma_eight(b, 25);
            lemma_eight(b, 33);
            lemma_four(b, 41);
        },
        Family::ChargeTempHighLimit => {
            reveal_strlit("daly_bms_charge_temp_high_limit_celsius");
            assert(name.take(9) =~= "daly_bms_"@);
            lemma_bytes(name);
            lemma_eight(b, 9);
            lemma_eight(b, 17);
            lemma_eight(b, 25);
            lemma_four(b, 33);
            lemma_step(b, 37);
            lemma_step(b, 38);
            lemma_step(b, 39);
        },
        _ => {},
    }
}

// --- From ChargeTempLowLimit to ConfigBalanceCurrent ---
proof fn lemma_steps_from_charge_temp_low_limit()
    by (bit_vector)
    ensures
        eight(0x7f08_eced_edb3_1325, 0x63, 0x68, 0x61, 0x72, 0x67, 0x65, 0x5f, 0x74) == 0x4dae_abb8_5bff_c4fa,
        eight(0x4dae_abb8_5bff_c4fa, 0x65, 0x6d, 0x70, 0x5f, 0x6c, 0x6f, 0x77, 0x5f) == 0x9715_cb9b_2149_7ba2,
        eight(0x9715_cb9b_2149_7ba2, 0x6c, 0x69, 0x6d, 0x69, 0x74, 0x5f, 0x63, 0x65) == 0xae8a_b22b_fbc0_f0da,
        four(0xae8a_b22b_fbc0_f0da, 0x6c, 0x73, 0x69, 0x75) == 0x68fc_a149_ef0b_9011,
        fnv_step(0x68fc_a149_ef0b_9011, 0x73) == 0x70d6_72a1_30a6_5686,
        fnv_step(0x70d6_72a1_30a6_5686, 0xff) == 0x62bb_40e5_aaa4_ef9b,
        eight(0x7f08_eced_edb3_1325, 0x64, 0x69, 0x73, 0x63, 0x68, 0x61, 0x72, 0x67) == 0xe262_cbe9_0eb7_b8c8,
        eight(0xe262_cbe9_0eb7_b8c8, 0x65, 0x5f, 0x74, 0x65, 0x6d, 0x70, 0x5f, 0x68) == 0xb96c_bbe9_de6b_7741,
        eight(0xb96c_bbe9_de6b_7741, 0x69, 0x67, 0x68, 0x5f, 0x6c, 0x69, 0x6d, 0x69) == 0xe8a3_be6e_27f7_f805,
        eight(0xe8a3_be6e_27f7_f805, 0x74, 0x5f, 0x63, 0x65, 0x6c, 0x73, 0x69, 0x75) == 0x0359_d9eb_325e_e6c3,
        fnv_step(0x0359_d9eb_325e_e6c3, 0x73) == 0x1093_faa6_9741_fd10,
        fnv_step(0x1093_faa6_9741_fd10, 0xff) == 0x6d70_d813_0522_7d1d,
        eight(0x7f08_eced_edb3_1325, 0x64, 0x69, 0x66, 0x66, 0x5f, 0x74, 0x65, 0x6d) == 0xe610_c298_109c_7ba3,
        eight(0xe610_c298_109c_7ba3, 0x70, 0x5f, 0x6c, 0x69, 0x6d, 0x69, 0x74, 0x5f) == 0x602a_f0c2_dc34_6b5a,
        eight(0x602a_f0c2_dc34_6b5a, 0x63, 0x65, 0x6c, 0x73, 0x69, 0x75, 0x73, 0xff) == 0x833b_d16e_6c25_1c9b,
        eight(0x7f08_eced_edb3_1325, 0x66, 0x61, 0x6e, 0x5f, 0x6f, 0x6e, 0x5f, 0x74) == 0x25da_b442_ecbc_6ef9,
        eight(0x25da_b442_ecbc_6ef9, 0x65, 0x6d, 0x70, 0x65, 0x72, 0x61, 0x74, 0x75) == 0xd012_e2f5_ed0f_c4fe,
        eight(0xd012_e2f5_ed0f_c4fe, 0x72, 0x65, 0x5f, 0x63, 0x65, 0x6c, 0x73, 0x69) == 0xc915_eacb_5dba_6df4,
        fnv_step(0xc915_eacb_5dba_6df4, 0x75) == 0x6aab_7890_43c8_1233,
        fnv_step(0x6aab_7890_43c8_1233, 0x73) == 0x0970_1d23_2cf7_02c0,
        fnv_step(0x0970_1d23_2cf7_02c0, 0xff) == 0x0083_c1c5_67b8_d10d,
        eight(0x7f08_eced_edb3_1325, 0x62, 0x61, 0x6c, 0x61, 0x6e, 0x63, 0x65, 0x5f) == 0x228d_72f2_aeb8_59bc,
        four(0x228d_72f2_aeb8_59bc, 0x65, 0x6e, 0x61, 0x62) == 0x7c6f_bee6_56ca_d0f8,
        fnv_step(0x7c6f_bee6_56ca_d0f8, 0x6c) == 0x3cb1_f565_7aa0_6b7c,
        fnv_step(0x3cb1_f565_7aa0_6b7c, 0x65) == 0xc2cf_146f_5e95_fb7b,
        fnv_step(0xc2cf_146f_5e95_fb7b, 0xff) == 0x9bdb_3d3d_b8da_614c,
        eight(0x7f08_eced_edb3_1325, 0x63, 0x6f, 0x6e, 0x66, 0x69, 0x67, 0x5f, 0x62) == 0xbf4c_e6b5_c045_987e,
        eight(0xbf4c_e6b5_c045_987e, 0x61, 0x6c, 0x61, 0x6e, 0x63, 0x65, 0x5f, 0x63) == 0x2ecc_94c2_b0dc_cd6e,
        eight(0x2ecc_94c2_b0dc_cd6e, 0x75, 0x72, 0x72, 0x65, 0x6e, 0x74, 0x5f, 0x61) == 0x9617_a84c_45d2_89de,
        four(0x9617_a84c_45d2_89de, 0x6d, 0x70, 0x65, 0x72) == 0xc362_26eb_b953_58d8,
        fnv_step(0xc362_26eb_b953_58d8, 0x65) == 0x5320_df8b_e89f_c927,
        fnv_step(0x5320_df8b_e89f_c927, 0x73) == 0xe0a5_2ebc_4783_19bc,
        fnv_step(0xe0a5_2ebc_4783_19bc, 0xff) == 0x3bc7_aced_83c3_ecd9,
{
}

#[verifier::rlimit(60)]
proof fn lemma_ids_from_charge_temp_low_limit(f: Family)
    ensures
        match f {
            Family::ChargeTempLowLimit
            | Family::DischargeTempHighLimit
            | Family::DiffTempLimit
            | Family::FanOnTemperature
            | Family::BalanceEnable
            | Family::ConfigBalanceCurrent => descriptor_id(f.name_text()) == id_of(f),
            _ => true,
        },
{
    lemma_steps_from_charge_temp_low_limit();
    reveal_strlit("daly_bms_");
    let name = f.name_text();
    let b = id_bytes(name);
    match f {
        Family::ChargeTempLowLimit => {
            reveal_strlit("daly_bms_charge_temp_low_limit_celsius");
            assert(name.take(9) =~= "daly_bms_"@);
            lemma_bytes(name);
            lemma_eight(b, 9);
            lemma_eight(b, 17);
            lemma_eight(b, 25);
            lemma_four(b, 33);
            lemma_step(b, 37);
            lemma_step(b, 38);
        },
        Family::DischargeTempHighLimit => {
            reveal_strlit("daly_bms_discharge_temp_high_limit_celsius");
            assert(name.take(9) =~= "daly_bms_"@);
            lemma_bytes(name);
            lemma_eight(b, 9);
            lemma_eight(b, 17);
            lemma_eight(b, 25);
            lemma_eight(b, 33);
            lemma_step(b, 41);
            lemma_step(b, 42);
        },
        Family::DiffTempLimit => {
            reveal_strlit("daly_bms_diff_temp_limit_celsius");
            assert(name.take(9) =~= "daly_bms_"@);
            lemma_bytes(name);
            lemma_eight(b, 9);
            lemma_eight(b, 17);
            lemma_eight(b, 25);
        },
        Family::FanOnTemperature => {
            reveal_strlit("daly_bms_fan_on_temperature_celsius");
            assert(name.take(9) =~= "daly_bms_"@);
            lemma_bytes(name);
            lemma_eight(b, 9);
            lemma_eight(b, 17);
            lemma_eight(b, 25);
            lemma_step(b, 33);
            lemma_step(b, 34);
            lemma_step(b, 35);
        },
        Family::BalanceEnable => {
            reveal_strlit("daly_bms_balance_enable");
            assert(name.take(9) =~= "daly_bms_"@);
            lemma_bytes(name);
            lemma_eight(b, 9);
            lemma_four(b, 17);
            lemma_step(b, 21);
            lemma_step(b, 22);
            lemma_step(b, 23);
        },
        Family::ConfigBalanceCurrent => {
            reveal_strlit("daly_bms_config_balance_current_amperes");
            assert(name.take(9) =~= "daly_bms_"@);
            lemma_bytes(name);
            lemma_eight(b, 9);
            lemma_eight(b, 17);
            lemma_eight(b, 25);
            lemma_four(b, 33);
            lemma_step(b, 37);
            lemma_step(b, 38);
            lemma_step(b, 39);
        },
        _ => {},
    }
}

// --- From DeviceInfo to CoulombSamplesRejected ---
proof fn lemma_steps_from_device_info()
    by (bit_vector)
    ensures
        eight(0x7f08_eced_edb3_1325, 0x64, 0x65, 0x76, 0x69, 0x63, 0x65, 0x5f, 0x69) == 0x874a_aaaf_9854_86f7,
        four(0x874a_aaaf_9854_86f7, 0x6e, 0x66, 0x6f, 0xff) == 0xa103_1bd0_d0dc_ad65,
        eight(0x7f08_eced_edb3_1325, 0x68, 0x74, 0x74, 0x70, 0x5f, 0x72, 0x65, 0x71) == 0x0c2d_987b_a4ec_d536,
        eight(0x0c2d_987b_a4ec_d536, 0x75, 0x65, 0x73, 0x74, 0x73, 0x5f, 0x74, 0x6f) == 0xc80b_6068_ff40_f44c,
        four(0xc80b_6068_ff40_f44c, 0x74, 0x61, 0x6c, 0xff) == 0xe89b_1b2a_49ae_8ace,
        eight(0x7f08_eced_edb3_1325, 0x66, 0x72, 0x61, 0x6d, 0x65, 0x73, 0x5f, 0x64) == 0x967a_2072_4a85_079c,
        eight(0x967a_2072_4a85_079c, 0x65, 0x63, 0x6f, 0x64, 0x65, 0x64, 0x5f, 0x74) == 0xaf9f_e008_526d_8919,
        four(0xaf9f_e008_526d_8919, 0x6f, 0x74, 0x61, 0x6c) == 0xb096_efcc_74a3_2b6f,
        fnv_step(0xb096_efcc_74a3_2b6f, 0xff) == 0xb3a5_086a_3143_05b0,
        eight(0x967a_2072_4a85_079c, 0x72, 0x6f, 0x70, 0x70, 0x65, 0x64, 0x5f, 0x74) == 0x06c4_30ab_bb26_d78d,
        four(0x06c4_30ab_bb26_d78d, 0x6f, 0x74, 0x61, 0x6c) == 0x7830_ff58_3792_c7db,
        fnv_step(0x7830_ff58_3792_c7db, 0xff) == 0xce09_06e6_6e68_622c,
        eight(0x7f08_eced_edb3_1325, 0x6c, 0x61, 0x73, 0x74, 0x5f, 0x66, 0x72, 0x61) == 0x9152_2d38_a158_4b51,
        eight(0x9152_2d38_a158_4b51, 0x6d, 0x65, 0x5f, 0x74, 0x69, 0x6d, 0x65, 0x73) == 0x4467_2e53_a756_7b92,
        eight(0x4467_2e53_a756_7b92, 0x74, 0x61, 0x6d, 0x70, 0x5f, 0x73, 0x65, 0x63) == 0xeaf2_f4d1_dad6_712e,
        four(0xeaf2_f4d1_dad6_712e, 0x6f, 0x6e, 0x64, 0x73) == 0xa838_3d0a_10be_a5fe,
        fnv_step(0xa838_3d0a_10be_a5fe, 0xff) == 0x9634_b91a_73f2_60b3,
        eight(0x7f08_eced_edb3_1325, 0x63, 0x6f, 0x75, 0x6c, 0x6f, 0x6d, 0x62, 0x5f) == 0xda25_2204_2d27_5e15,
        eight(0xda25_2204_2d27_5e15, 0x73, 0x61, 0x6d, 0x70, 0x6c, 0x65, 0x73, 0x5f) == 0xf055_1002_626a_9189,
        eight(0xf055_1002_626a_9189, 0x72, 0x65, 0x6a, 0x65, 0x63, 0x74, 0x65, 0x64) == 0x5a99_3b1a_dca4_5793,
        four(0x5a99_3b1a_dca4_5793, 0x5f, 0x74, 0x6f, 0x74) == 0x5846_f025_35c1_babb,
        fnv_step(0x5846_f025_35c1_babb, 0x61) == 0xc244_e93a_5830_806e,
        fnv_step(0xc244_e93a_5830_806e, 0x6c) == 0x4b98_5023_da69_8366,
        fnv_step(0x4b98_5023_da69_8366, 0xff) == 0xdd53_c5ec_214a_9cfb,
{
}

#[verifier::rlimit(60)]
proof fn lemma_ids_from_device_info(f: Family)
    ensures
        match f {
            Family::DeviceInfo
            | Family::HttpRequests
            | Family::FramesDecoded
            | Family::FramesDropped
            | Family::LastFrameTimestamp
            | Family::CoulombSamplesRejected => descriptor_id(f.name_text()) == id_of(f),
            _ => true,
        },
{
    lemma_steps_from_device_info();
    reveal_strlit("daly_bms_");
    let name = f.name_text();
    let b = id_bytes(name);
    match f {
        Family::DeviceInfo => {
            reveal_strlit("daly_bms_device_info");
            assert(name.take(9) =~= "daly_bms_"@);
            lemma_bytes(name);
            lemma_eight(b, 9);
            lemma_four(b, 17);
        },
        Family::HttpRequests => {
            reveal_strlit("daly_bms_http_requests_total");
            assert(name.take(9) =~= "daly_bms_"@);
            lemma_bytes(name);
            lemma_eight(b, 9);
            lemma_eight(b, 17);
            lemma_four(b, 25);
        },
        Family::FramesDecoded => {
            reveal_strlit("daly_bms_frames_decoded_total");
            assert(name.take(9) =~= "daly_bms_"@);
            lemma_bytes(name);
            lemma_eight(b, 9);
            lemma_eight(b, 17);
            lemma_four(b, 25);
            lemma_step(b, 29);
        },
        Family::FramesDropped => {
            reveal_strlit("daly_bms_frames_dropped_total");
            assert(name.take(9) =~= "daly_bms_"@);
            lemma_bytes(name);
            lemma_eight(b, 9);
            lemma_eight(b, 17);
            lemma_four(b, 25);
            lemma_step(b, 29);
        },
        Family::LastFrameTimestamp => {
            reveal_strlit("daly_bms_last_frame_timestamp_seconds");
            assert(name.take(9) =~= "daly_bms_"@);
            lemma_bytes(name);
            lemma_eight(b, 9);
            lemma_eight(b, 17);
            lemma_eight(b, 25);
            lemma_four(b, 33);
            lemma_step(b, 37);
        },
        Family::CoulombSamplesRejected => {
            reveal_strlit("daly_bms_coulomb_samples_rejected_total");
            assert(name.take(9) =~= "daly_bms_"@);
            lemma_bytes(name);
            lemma_eight(b, 9);
            lemma_eight(b, 17);
            lemma_eight(b, 25);
            lemma_four(b, 33);
            lemma_step(b, 37);
            lemma_step(b, 38);
            lemma_step(b, 39);
        },
        _ => {},
    }
}

// --- From StateWriteErrors to DischargeWattHours ---
proof fn lemma_steps_from_state_write_errors()
    by (bit_vector)
    ensures
        eight(0x7f08_eced_edb3_1325, 0x73, 0x74, 0x61, 0x74, 0x65, 0x5f, 0x77, 0x72) == 0xeacf_736a_8acc_2d72,
        eight(0xeacf_736a_8acc_2d72, 0x69, 0x74, 0x65, 0x5f, 0x65, 0x72, 0x72, 0x6f) == 0xa5a9_ad5a_e790_9feb,
        eight(0xa5a9_ad5a_e790_9feb, 0x72, 0x73, 0x5f, 0x74, 0x6f, 0x74, 0x61, 0x6c) == 0x4a16_7624_bde7_df7d,
        fnv_step(0x4a16_7624_bde7_df7d, 0xff) == 0xcc0a_426e_b100_c9e6,
        eight(0x7f08_eced_edb3_1325, 0x73, 0x74, 0x61, 0x74, 0x65, 0x5f, 0x6c, 0x61) == 0xea88_626a_8a90_0dec,
        eight(0xea88_626a_8a90_0dec, 0x73, 0x74, 0x5f, 0x77, 0x72, 0x69, 0x74, 0x65) == 0x943b_2b56_e58f_b4fb,
        eight(0x943b_2b56_e58f_b4fb, 0x5f, 0x74, 0x69, 0x6d, 0x65, 0x73, 0x74, 0x61) == 0xfd7a_26aa_c47a_8cb1,
        eight(0xfd7a_26aa_c47a_8cb1, 0x6d, 0x70, 0x5f, 0x73, 0x65, 0x63, 0x6f, 0x6e) == 0x71c4_b278_c7d9_a94f,
        fnv_step(0x71c4_b278_c7d9_a94f, 0x64) == 0x2ae4_6e3b_96da_7411,
        fnv_step(0x2ae4_6e3b_96da_7411, 0x73) == 0xbc9b_b141_5533_c286,
        fnv_step(0xbc9b_b141_5533_c286, 0xff) == 0xb050_ab03_c6f3_739b,
        eight(0x7f08_eced_edb3_1325, 0x63, 0x68, 0x61, 0x72, 0x67, 0x65, 0x5f, 0x61) == 0x4dae_98b8_5bff_a4b1,
        eight(0x4dae_98b8_5bff_a4b1, 0x6d, 0x70, 0x5f, 0x68, 0x6f, 0x75, 0x72, 0x73) == 0xecf5_ee75_d657_67e0,
        four(0xecf5_ee75_d657_67e0, 0x5f, 0x74, 0x6f, 0x74) == 0xcd75_8f13_4f1d_f1b8,
        fnv_step(0xcd75_8f13_4f1d_f1b8, 0x61) == 0x3cb3_f6cf_6fe1_f3bb,
        fnv_step(0x3cb3_f6cf_6fe1_f3bb, 0x6c) == 0x07c0_397b_1cf1_5655,
        fnv_step(0x07c0_397b_1cf1_5655, 0xff) == 0x1cf8_5632_2e16_42de,
        eight(0x7f08_eced_edb3_1325, 0x64, 0x69, 0x73, 0x63, 0x68, 0x61, 0x72, 0x67) == 0xe262_cbe9_0eb7_b8c8,
        eight(0xe262_cbe9_0eb7_b8c8, 0x65, 0x5f, 0x61, 0x6d, 0x70, 0x5f, 0x68, 0x6f) == 0x2621_882a_3993_4ca2,
        eight(0x2621_882a_3993_4ca2, 0x75, 0x72, 0x73, 0x5f, 0x74, 0x6f, 0x74, 0x61) == 0x677e_c889_3214_ad89,
        fnv_step(0x677e_c889_3214_ad89, 0x6c) == 0xf11c_a620_1923_7c1f,
        fnv_step(0xf11c_a620_1923_7c1f, 0xff) == 0xd72b_288a_b74d_30a0,
        eight(0x7f08_eced_edb3_1325, 0x63, 0x68, 0x61, 0x72, 0x67, 0x65, 0x5f, 0x77) == 0x4dae_aab8_5bff_c347,
        eight(0x4dae_aab8_5bff_c347, 0x61, 0x74, 0x74, 0x5f, 0x68, 0x6f, 0x75, 0x72) == 0xce1d_15be_d953_dbe1,
        eight(0xce1d_15be_d953_dbe1, 0x73, 0x5f, 0x74, 0x6f, 0x74, 0x61, 0x6c, 0xff) == 0x84f6_c142_77d7_4b6c,
        eight(0xe262_cbe9_0eb7_b8c8, 0x65, 0x5f, 0x77, 0x61, 0x74, 0x74, 0x5f, 0x68) == 0x3fc0_efeb_7078_9ba3,
        eight(0x3fc0_efeb_7078_9ba3, 0x6f, 0x75, 0x72, 0x73, 0x5f, 0x74, 0x6f, 0x74) == 0x1b83_1f88_1030_ba68,
        fnv_step(0x1b83_1f88_1030_ba68, 0x61) == 0xf088_9d33_82cc_1d4b,
        fnv_step(0xf088_9d33_82cc_1d4b, 0x6c) == 0x8440_4587_40d5_8945,
        fnv_step(0x8440_4587_40d5_8945, 0xff) == 0x8ebf_ded3_2ad9_070e,
{
}

#[verifier::rlimit(60)]
proof fn lemma_ids_from_state_write_errors(f: Family)
    ensures
        match f {
            Family::StateWriteErrors
            | Family::StateLastWriteTimestamp
            | Family::ChargeAmpHours
            | Family::DischargeAmpHours
            | Family::ChargeWattHours
            | Family::DischargeWattHours => descriptor_id(f.name_text()) == id_of(f),
            _ => true,
        },
{
    lemma_steps_from_state_write_errors();
    reveal_strlit("daly_bms_");
    let name = f.name_text();
    let b = id_bytes(name);
    match f {
        Family::StateWriteErrors => {
            reveal_strlit("daly_bms_state_write_errors_total");
            assert(name.take(9) =~= "daly_bms_"@);
            lemma_bytes(name);
            lemma_eight(b, 9);
            lemma_eight(b, 17);
            lemma_eight(b, 25);
            lemma_step(b, 33);
        },
        Family::StateLastWriteTimestamp => {
            reveal_strlit("daly_bms_state_last_write_timestamp_seconds");
            assert(name.take(9) =~= "daly_bms_"@);
            lemma_bytes(name);
            lemma_eight(b, 9);
            lemma_eight(b, 17);
            lemma_eight(b, 25);
            lemma_eight(b, 33);
            lemma_step(b, 41);
            lemma_step(b, 42);
            lemma_step(b, 43);
        },
        Family::ChargeAmpHours => {
            reveal_strlit("daly_bms_charge_amp_hours_total");
            assert(name.take(9) =~= "daly_bms_"@);
            lemma_bytes(name);
            lemma_eight(b, 9);
            lemma_eight(b, 17);
            lemma_four(b, 25);
            lemma_step(b, 29);
            lemma_step(b, 30);
            lemma_step(b, 31);
        },
        Family::DischargeAmpHours => {
            reveal_strlit("daly_bms_discharge_amp_hours_total");
            assert(name.take(9) =~= "daly_bms_"@);
            lemma_bytes(name);
            lemma_eight(b, 9);
            lemma_eight(b, 17);
            lemma_eight(b, 25);
            lemma_step(b, 33);
            lemma_step(b, 34);
        },
        Family::ChargeWattHours => {
            reveal_strlit("daly_bms_charge_watt_hours_total");
            assert(name.take(9) =~= "daly_bms_"@);
            lemma_bytes(name);
            lemma_eight(b, 9);
            lemma_eight(b, 17);
            lemma_eight(b, 25);
        },
        Family::DischargeWattHours => {
            reveal_strlit("daly_bms_discharge_watt_hours_total");
            assert(name.take(9) =~= "daly_bms_"@);
            lemma_bytes(name);
            lemma_eight(b, 9);
            lemma_eight(b, 17);
            lemma_eight(b, 25);
            lemma_step(b, 33);
            lemma_step(b, 34);
            lemma_step(b, 35);
        },
        _ => {},
    }
}

/// The id of a family is the one listed.
pub proof fn lemma_id(f: Family)
    ensures
        descriptor_id(f.name_text()) == id_of(f),
{
    lemma_ids_from_pack_voltage(f);
    lemma_ids_from_cell_voltage_min(f);
    lemma_ids_from_mos_temperature(f);
    lemma_ids_from_balancing_cell_count(f);
    lemma_ids_from_cell_voltage_low_limit(f);
    lemma_ids_from_charge_temp_low_limit(f);
    lemma_ids_from_device_info(f);
    lemma_ids_from_state_write_errors(f);
}

/// No two families share an id, so the registry takes them all.
pub proof fn law_ids_are_distinct(a: Family, b: Family)
    requires
        descriptor_id(a.name_text()) == descriptor_id(b.name_text()),
    ensures
        a == b,
{
    lemma_id(a);
    lemma_id(b);
}

} // verus!
