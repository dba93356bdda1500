//! Domain decoding: map Modbus registers to typed telemetry.
//!
//! Every field is optional or a list: the input is untrusted device data, so a
//! short or garbage frame yields absent fields. Values keep the resolution of
//! the register they come from: volts, amperes, percent and ampere-hours in
//! tenths, cell voltages in millivolts, temperatures in whole degrees Celsius.

use vstd::prelude::*;
use vstd::string::*;
use vstd::utf8::*;

use crate::error::DecodeError;
use crate::text::{control, is_control, is_white_space, white_space};

verus! {

/// Physical limits used to clamp untrusted count registers.
pub const MAX_CELLS: u16 = 32;

/// External-sensor slots.
pub const MAX_TEMPS: u16 = 8;

/// Start register of the configuration block; config addresses are relative to
/// this base within the parsed register vector.
pub const CFG_BASE: usize = 0x80;

// --- Realtime register map (block 0x0000). Indices are absolute within the
// parsed vector, which starts at register 0x00. ---
/// First cell-voltage register; cell N (1-based) lives at `REG_CELL_BASE + N-1`.
pub const REG_CELL_BASE: usize = 0x00;

/// First external-temperature register; sensor N at `REG_TEMP_BASE + N-1`.
pub const REG_TEMP_BASE: usize = 0x20;

pub const REG_PACK_VOLTAGE: usize = 0x28;

pub const REG_CURRENT: usize = 0x29;

pub const REG_SOC: usize = 0x2A;

pub const REG_CELL_MAX_V: usize = 0x2B;

pub const REG_CELL_MIN_V: usize = 0x2C;

pub const REG_TEMP_MAX: usize = 0x2D;

pub const REG_TEMP_MIN: usize = 0x2E;

pub const REG_REMAINING_CAPACITY: usize = 0x30;

pub const REG_CELL_COUNT: usize = 0x31;

pub const REG_TEMP_COUNT: usize = 0x32;

pub const REG_CYCLES: usize = 0x33;

pub const REG_BALANCER_ACTIVE: usize = 0x34;

pub const REG_CHARGE_MOS: usize = 0x35;

pub const REG_DISCHARGE_MOS: usize = 0x36;

pub const REG_CELL_AVG_V: usize = 0x37;

pub const REG_CELL_DELTA_V: usize = 0x38;

pub const REG_ALARM_BITS: usize = 0x3B;

pub const REG_BALANCE_CURRENT_RT: usize = 0x40;

pub const REG_BALANCING_CELLS: usize = 0x41;

pub const REG_MOS_TEMP: usize = 0x42;

pub const REG_SERIAL_START: usize = 0x57;

pub const REG_SERIAL_END: usize = 0x5D;

// --- Config register map (block 0x0080). Addresses are absolute (0x80..); the
// index into the parsed vector is `addr - CFG_BASE`. ---
pub const REG_RATED_CAPACITY: usize = 0x80;

pub const REG_CELL_REFERENCE: usize = 0x81;

pub const REG_CELL_HIGH_WARN: usize = 0x8B;

pub const REG_CELL_HIGH_PROT: usize = 0x8C;

pub const REG_CELL_LOW_WARN: usize = 0x8D;

pub const REG_CELL_LOW_PROT: usize = 0x8E;

pub const REG_PACK_HIGH_WARN: usize = 0x8F;

pub const REG_PACK_HIGH_PROT: usize = 0x90;

pub const REG_PACK_LOW_WARN: usize = 0x91;

pub const REG_PACK_LOW_PROT: usize = 0x92;

pub const REG_DISCHARGE_OC_WARN: usize = 0x93;

pub const REG_DISCHARGE_OC_PROT: usize = 0x94;

pub const REG_CHARGE_OC_WARN: usize = 0x95;

pub const REG_CHARGE_OC_PROT: usize = 0x96;

pub const REG_CHARGE_TEMP_HIGH_WARN: usize = 0x97;

pub const REG_CHARGE_TEMP_HIGH_PROT: usize = 0x98;

pub const REG_CHARGE_TEMP_LOW_WARN: usize = 0x99;

pub const REG_CHARGE_TEMP_LOW_PROT: usize = 0x9A;

pub const REG_DISCHARGE_TEMP_HIGH_WARN: usize = 0x9B;

pub const REG_DISCHARGE_TEMP_HIGH_PROT: usize = 0x9C;

pub const REG_DIFF_TEMP: usize = 0x9D;

pub const REG_BALANCE_CURRENT_CFG: usize = 0xA2;

pub const REG_FAN_ON_TEMP: usize = 0xA8;

pub const REG_SW_VERSION_START: usize = 0xA9;

pub const REG_SW_VERSION_END: usize = 0xAF;

pub const REG_HW_VERSION_START: usize = 0xB1;

pub const REG_HW_VERSION_END: usize = 0xB7;

pub const REG_MACHINE_CODE_START: usize = 0xB9;

pub const REG_MACHINE_CODE_END: usize = 0xC0;

pub const REG_BALANCE_ENABLE: usize = 0xCF;

/// Which register block a response carries, dispatched from the request's start
/// register.
#[derive(Debug, Clone, Copy, PartialEq, Eq, Structural)]
pub enum Block {
    Realtime,
    Config,
}

impl Block {
    /// The block that starts at register `start`, if there is one.
    pub open spec fn starting_at(start: u16) -> Result<Block, DecodeError> {
        if start == 0x0000 {
            Ok(Block::Realtime)
        } else if start == 0x0080 {
            Ok(Block::Config)
        } else {
            Err(DecodeError::UnknownBlock(start))
        }
    }

    /// Dispatch a register block from the request's start register. Anything
    /// but `0x0000` (realtime) and `0x0080` (config) is
    /// [`DecodeError::UnknownBlock`].
    pub fn from_start_register(start: u16) -> (r: Result<Self, DecodeError>)
        ensures
            r == Self::starting_at(start),
    {
        match start {
            0x0000 => Ok(Block::Realtime),
            0x0080 => Ok(Block::Config),
            other => Err(DecodeError::UnknownBlock(other)),
        }
    }
}

/// Voltage window and current bound outside which a realtime reading is taken
/// for garbage. Milliamperes and millivolts; an absent bound never rejects.
#[derive(Debug, Clone, Copy, PartialEq, Eq)]
pub struct PlausibilityLimits {
    /// Largest accepted magnitude of the pack current.
    pub max_current_ma: Option<i64>,
    /// Accepted pack-voltage window, `(min, max)`.
    pub pack_mv: (Option<i64>, Option<i64>),
}

// --- Encoding helpers. All widen to i32 before offsetting. ---
/// Current in tenths of an ampere: `raw - 30000`. Positive = charge, negative =
/// discharge.
pub fn amps(raw: u16) -> (r: i32)
    ensures
        r == raw - 30000,
{
    raw as i32 - 30000
}

/// Temperature in Celsius: `raw - 40`.
pub fn celsius(raw: u16) -> (r: i32)
    ensures
        r == raw - 40,
{
    raw as i32 - 40
}

/// Differential temperature in Celsius: raw value with no -40 offset.
pub fn celsius_delta(raw: u16) -> (r: i32)
    ensures
        r == raw,
{
    raw as i32
}

/// Decivalue: tenths (pack voltage V, SOC %, capacity Ah, balance current A).
pub fn deci(raw: u16) -> (r: i32)
    ensures
        r == raw,
{
    raw as i32
}

/// Cell voltage in millivolts.
pub fn cell_volts(mv: u16) -> (r: i32)
    ensures
        r == mv,
{
    mv as i32
}

/// The register at `addr`, if the block reaches that far.
pub open spec fn reg_at(regs: Seq<u16>, addr: int) -> Option<u16> {
    if 0 <= addr < regs.len() {
        Some(regs[addr])
    } else {
        None
    }
}

/// A register less the offset of its encoding.
pub open spec fn value_at(regs: Seq<u16>, addr: int, offset: int) -> Option<i32> {
    match reg_at(regs, addr) {
        Some(raw) => Some((raw - offset) as i32),
        None => None,
    }
}

/// A register read as a flag: anything but zero is set.
pub open spec fn flag_at(regs: Seq<u16>, addr: int) -> Option<bool> {
    match reg_at(regs, addr) {
        Some(raw) => Some(raw != 0),
        None => None,
    }
}

fn reg(regs: &[u16], addr: usize) -> (r: Option<u16>)
    ensures
        r == reg_at(regs@, addr as int),
{
    if addr < regs.len() {
        Some(regs[addr])
    } else {
        None
    }
}

fn amps_reg(regs: &[u16], addr: usize) -> (r: Option<i32>)
    ensures
        r == value_at(regs@, addr as int, 30000),
{
    match reg(regs, addr) {
        Some(raw) => Some(amps(raw)),
        None => None,
    }
}

fn celsius_reg(regs: &[u16], addr: usize) -> (r: Option<i32>)
    ensures
        r == value_at(regs@, addr as int, 40),
{
    match reg(regs, addr) {
        Some(raw) => Some(celsius(raw)),
        None => None,
    }
}

fn celsius_delta_reg(regs: &[u16], addr: usize) -> (r: Option<i32>)
    ensures
        r == value_at(regs@, addr as int, 0),
{
    match reg(regs, addr) {
        Some(raw) => Some(celsius_delta(raw)),
        None => None,
    }
}

fn deci_reg(regs: &[u16], addr: usize) -> (r: Option<i32>)
    ensures
        r == value_at(regs@, addr as int, 0),
{
    match reg(regs, addr) {
        Some(raw) => Some(deci(raw)),
        None => None,
    }
}

fn cell_volts_reg(regs: &[u16], addr: usize) -> (r: Option<i32>)
    ensures
        r == value_at(regs@, addr as int, 0),
{
    match reg(regs, addr) {
        Some(raw) => Some(cell_volts(raw)),
        None => None,
    }
}

fn flag_reg(regs: &[u16], addr: usize) -> (r: Option<bool>)
    ensures
        r == flag_at(regs@, addr as int),
{
    match reg(regs, addr) {
        Some(raw) => Some(raw != 0),
        None => None,
    }
}

// --- Text fields ---
/// The bytes of `regs`, each register big-endian.
pub open spec fn register_bytes(regs: Seq<u16>) -> Seq<u8> {
    Seq::new(
        2 * regs.len(),
        |i: int|
            if i % 2 == 0 {
                (regs[i / 2] / 256) as u8
            } else {
                (regs[i / 2] % 256) as u8
            },
    )
}

/// What the standard library's lossy decoding makes of `bytes`.
pub uninterp spec fn utf8_lossy(bytes: Seq<u8>) -> Seq<char>;

/// Calls `String::from_utf8_lossy`. Its result is named [`utf8_lossy`]; of it
/// only one thing is claimed: valid UTF-8 is decoded unchanged. How ill-formed
/// input turns into replacement characters is left unsaid.
#[verifier::external_body]
fn decode_lossy(bytes: &[u8]) -> (r: String)
    ensures
        r@ == utf8_lossy(bytes@),
        valid_utf8(bytes@) ==> r@ == decode_utf8(bytes@),
{
    String::from_utf8_lossy(bytes).into_owned()
}

/// `text` without its control characters, wherever they stand.
pub open spec fn printable(text: Seq<char>) -> Seq<char>
    decreases text.len(),
{
    if text.len() == 0 {
        text
    } else {
        let rest = printable(text.drop_last());
        if control(text.last()) {
            rest
        } else {
            rest.push(text.last())
        }
    }
}

/// Characters dropped at either end of a text field.
pub open spec fn padding(c: char) -> bool {
    c == '\0' || white_space(c)
}

/// `text` without leading and trailing padding.
pub open spec fn trimmed(text: Seq<char>) -> Seq<char>
    decreases text.len(),
{
    if text.len() == 0 {
        text
    } else if padding(text.first()) {
        trimmed(text.drop_first())
    } else if padding(text.last()) {
        trimmed(text.drop_last())
    } else {
        text
    }
}

/// The value of a text field: printable characters between the padding, or
/// nothing if none are left.
pub open spec fn clean(text: Seq<char>) -> Option<Seq<char>> {
    let value = trimmed(printable(text));
    if value.len() == 0 {
        None
    } else {
        Some(value)
    }
}

/// The view of an optional string.
pub open spec fn text_view(s: Option<String>) -> Option<Seq<char>> {
    match s {
        Some(s) => Some(s@),
        None => None,
    }
}

/// `text` without its control characters (including interior ones like '\n'):
/// the value becomes a log field and a label, where embedded control characters
/// would corrupt the output.
fn without_control(text: &str) -> (r: String)
    ensures
        r@ == printable(text@),
{
    let n: usize = text.unicode_len();
    let mut out = String::new();
    let mut i: usize = 0;
    proof {
        assert(text@.take(0) =~= Seq::<char>::empty());
    }
    while i < n
        invariant
            i <= n,
            n == text@.len(),
            out@ == printable(text@.take(i as int)),
        decreases n - i,
    {
        let c: char = text.get_char(i);
        proof {
            assert(text@.take(i + 1).drop_last() =~= text@.take(i as int));
        }
        if !is_control(c) {
            out.append(text.substring_char(i, i + 1));
            proof {
                assert(out@ =~= printable(text@.take(i as int)).push(c));
            }
        }
        i += 1;
    }
    proof {
        assert(text@.take(n as int) =~= text@);
    }
    out
}

fn is_padding(c: char) -> (r: bool)
    ensures
        r == padding(c),
{
    c == '\0' || is_white_space(c)
}

/// Drop control characters and surrounding padding from a text field.
pub fn clean_text(text: &str) -> (r: Option<String>)
    ensures
        text_view(r) == clean(text@),
{
    let cleaned = without_control(text);
    let s: &str = cleaned.as_str();
    let n: usize = s.unicode_len();
    let mut lo: usize = 0;
    let mut hi: usize = n;
    proof {
        assert(s@.subrange(0, n as int) =~= s@);
    }
    while lo < hi && is_padding(s.get_char(lo))
        invariant
            lo <= hi,
            hi == n,
            n == s@.len(),
            trimmed(s@) == trimmed(s@.subrange(lo as int, hi as int)),
        decreases hi - lo,
    {
        proof {
            assert(s@.subrange(lo as int, hi as int).drop_first() =~= s@.subrange(
                lo + 1,
                hi as int,
            ));
        }
        lo += 1;
    }
    while lo < hi && is_padding(s.get_char((hi - 1) as usize))
        invariant
            lo <= hi <= n,
            n == s@.len(),
            lo < hi ==> !padding(s@[lo as int]),
            trimmed(s@) == trimmed(s@.subrange(lo as int, hi as int)),
        decreases hi - lo,
    {
        proof {
            assert(s@.subrange(lo as int, hi as int).drop_last() =~= s@.subrange(
                lo as int,
                hi - 1,
            ));
        }
        hi -= 1;
    }
    if lo < hi {
        Some(s.substring_char(lo, hi).to_owned())
    } else {
        None
    }
}

/// The bytes in register indices `[start, end]` (inclusive), as far as the
/// block reaches.
pub open spec fn field_bytes(regs: Seq<u16>, start: int, end: int) -> Seq<u8> {
    let stop = if end < regs.len() {
        end + 1
    } else {
        regs.len() as int
    };
    register_bytes(regs.subrange(start, stop))
}

/// The text field that spans register indices `[start, end]` (inclusive), as
/// far as the block reaches.
pub open spec fn text_at(regs: Seq<u16>, start: int, end: int) -> Option<Seq<char>> {
    if start >= regs.len() {
        None
    } else {
        clean(utf8_lossy(field_bytes(regs, start, end)))
    }
}

/// Whether `field` is the text of register indices `[start, end]` wherever
/// those hold valid UTF-8.
pub open spec fn reads_text(
    field: Option<String>,
    regs: Seq<u16>,
    start: int,
    end: int,
) -> bool {
    start < regs.len() && valid_utf8(field_bytes(regs, start, end)) ==> text_view(field) == clean(
        decode_utf8(field_bytes(regs, start, end)),
    )
}

/// Decode an ASCII field spanning register indices `[start, end]` (inclusive).
pub fn ascii(regs: &[u16], start: usize, end: usize) -> (r: Option<String>)
    requires
        start <= end,
    ensures
        text_view(r) == text_at(regs@, start as int, end as int),
        reads_text(r, regs@, start as int, end as int),
{
    if start >= regs.len() {
        return None;
    }
    let stop: usize = if end < regs.len() {
        end + 1
    } else {
        regs.len()
    };
    let mut bytes: Vec<u8> = Vec::new();
    let mut i: usize = start;
    while i < stop
        invariant
            start <= i <= stop <= regs@.len(),
            bytes@.len() == 2 * (i - start),
            forall|k: int|
                0 <= k < bytes@.len() ==> bytes@[k] == register_bytes(
                    regs@.subrange(start as int, stop as int),
                )[k],
        decreases stop - i,
    {
        let hi: u8 = (regs[i] / 256) as u8;
        let lo: u8 = (regs[i] % 256) as u8;
        proof {
            let k = 2 * (i - start);
            assert(k / 2 == i - start && (k + 1) / 2 == i - start && k % 2 == 0);
        }
        bytes.push(hi);
        bytes.push(lo);
        i += 1;
    }
    proof {
        assert(bytes@ =~= register_bytes(regs@.subrange(start as int, stop as int)));
    }
    let text = decode_lossy(bytes.as_slice());
    clean_text(text.as_str())
}

/// One numbered reading: a cell voltage or a sensor temperature.
#[derive(Debug, Clone, Copy, PartialEq, Eq, Structural)]
pub struct Reading {
    /// 1-based cell or sensor number.
    pub index: u32,
    pub value: i32,
}

/// A protection threshold stored as a `(warning, protection)` pair.
#[derive(Debug, Clone, Copy, PartialEq, Eq, Structural)]
pub struct Limits {
    /// Warning-level threshold value.
    pub warning: Option<i32>,
    /// Protection-level threshold value.
    pub protection: Option<i32>,
}

/// The threshold pair held by two registers.
pub open spec fn limits_at(regs: Seq<u16>, warning: int, protection: int, offset: int) -> Limits {
    Limits {
        warning: value_at(regs, warning, offset),
        protection: value_at(regs, protection, offset),
    }
}

/// How many slots a count register announces, clamped to the physical maximum.
pub open spec fn slot_count(regs: Seq<u16>, addr: int, max: u16) -> nat {
    match reg_at(regs, addr) {
        Some(n) => if n < max {
            n as nat
        } else {
            max as nat
        },
        None => 0,
    }
}

/// The readings in the first `count` slots from `base` on. A slot that is zero
/// or lies beyond the block holds none.
pub open spec fn readings_at(regs: Seq<u16>, base: int, count: nat, offset: int) -> Seq<Reading>
    decreases count,
{
    if count == 0 {
        Seq::empty()
    } else {
        let before = readings_at(regs, base, (count - 1) as nat, offset);
        match reg_at(regs, base + count - 1) {
            Some(raw) => if raw != 0 {
                before.push(Reading { index: count as u32, value: (raw - offset) as i32 })
            } else {
                before
            },
            None => before,
        }
    }
}

fn slots(regs: &[u16], addr: usize, max: u16) -> (r: usize)
    ensures
        r == slot_count(regs@, addr as int, max),
        r <= max,
{
    match reg(regs, addr) {
        Some(n) => if n < max {
            n as usize
        } else {
            max as usize
        },
        None => 0,
    }
}

fn readings(regs: &[u16], base: usize, count: usize, offset: i32) -> (r: Vec<Reading>)
    requires
        base <= 0xFFFF,
        count <= 0xFFFF,
        0 <= offset <= 0xFFFF,
    ensures
        r@ == readings_at(regs@, base as int, count as nat, offset as int),
{
    let mut out: Vec<Reading> = Vec::new();
    let mut slot: usize = 0;
    while slot < count
        invariant
            slot <= count,
            base <= 0xFFFF,
            count <= 0xFFFF,
            0 <= offset <= 0xFFFF,
            out@ == readings_at(regs@, base as int, slot as nat, offset as int),
        decreases count - slot,
    {
        if let Some(raw) = reg(regs, base + slot) {
            if raw != 0 {
                out.push(Reading { index: slot as u32 + 1, value: raw as i32 - offset });
            }
        }
        slot += 1;
    }
    out
}

/// Realtime telemetry (block 0x0000).
#[derive(Debug)]
pub struct RealtimeData {
    /// `(cell number, millivolts)`, 1-based, empty slots skipped.
    pub cells_mv: Vec<Reading>,
    /// `(sensor number, degrees Celsius)`, 1-based, empty slots skipped.
    pub temps_c: Vec<Reading>,
    /// Pack voltage (0.1 V).
    pub pack_dv: Option<i32>,
    /// Pack current (0.1 A); positive = charge, negative = discharge.
    pub current_da: Option<i32>,
    /// State of charge (0.1 %).
    pub soc_permille: Option<i32>,
    /// Highest cell voltage (mV).
    pub cell_max_mv: Option<i32>,
    /// Lowest cell voltage (mV).
    pub cell_min_mv: Option<i32>,
    /// Highest sensor temperature (°C).
    pub temp_max_c: Option<i32>,
    /// Lowest sensor temperature (°C).
    pub temp_min_c: Option<i32>,
    /// Remaining capacity (0.1 Ah).
    pub remaining_dah: Option<i32>,
    /// Charge/discharge cycle count.
    pub cycles: Option<u16>,
    /// Charge MOSFET state (true = on).
    pub charge_mos: Option<bool>,
    /// Discharge MOSFET state (true = on).
    pub discharge_mos: Option<bool>,
    /// Average cell voltage (mV).
    pub cell_avg_mv: Option<i32>,
    /// Max−min cell voltage delta (mV).
    pub cell_delta_mv: Option<i32>,
    /// Whether the balancer is currently active.
    pub balancer_active: Option<bool>,
    /// Balancing current (0.1 A).
    pub balance_current_da: Option<i32>,
    /// Number of cells currently being balanced.
    pub balancing_cells: Option<u16>,
    /// MOSFET temperature (°C).
    pub mos_temp_c: Option<i32>,
    /// Raw alarm/protection status bitmask.
    pub alarm_bits: Option<u16>,
    /// Device serial / identifier string.
    pub serial: Option<String>,
}

impl RealtimeData {
    /// Whether `self` is what the registers of one block say.
    pub open spec fn decodes(self, regs: Seq<u16>) -> bool {
        &&& self.cells_mv@ == readings_at(
            regs,
            REG_CELL_BASE as int,
            slot_count(regs, REG_CELL_COUNT as int, MAX_CELLS),
            0,
        )
        &&& self.temps_c@ == readings_at(
            regs,
            REG_TEMP_BASE as int,
            slot_count(regs, REG_TEMP_COUNT as int, MAX_TEMPS),
            40,
        )
        &&& self.pack_dv == value_at(regs, REG_PACK_VOLTAGE as int, 0)
        &&& self.current_da == value_at(regs, REG_CURRENT as int, 30000)
        &&& self.soc_permille == value_at(regs, REG_SOC as int, 0)
        &&& self.cell_max_mv == value_at(regs, REG_CELL_MAX_V as int, 0)
        &&& self.cell_min_mv == value_at(regs, REG_CELL_MIN_V as int, 0)
        &&& self.temp_max_c == value_at(regs, REG_TEMP_MAX as int, 40)
        &&& self.temp_min_c == value_at(regs, REG_TEMP_MIN as int, 40)
        &&& self.remaining_dah == value_at(regs, REG_REMAINING_CAPACITY as int, 0)
        &&& self.cycles == reg_at(regs, REG_CYCLES as int)
        &&& self.charge_mos == flag_at(regs, REG_CHARGE_MOS as int)
        &&& self.discharge_mos == flag_at(regs, REG_DISCHARGE_MOS as int)
        &&& self.cell_avg_mv == value_at(regs, REG_CELL_AVG_V as int, 0)
        &&& self.cell_delta_mv == value_at(regs, REG_CELL_DELTA_V as int, 0)
        &&& self.balancer_active == flag_at(regs, REG_BALANCER_ACTIVE as int)
        &&& self.balance_current_da == value_at(regs, REG_BALANCE_CURRENT_RT as int, 30000)
        &&& self.balancing_cells == reg_at(regs, REG_BALANCING_CELLS as int)
        &&& self.mos_temp_c == value_at(regs, REG_MOS_TEMP as int, 40)
        &&& self.alarm_bits == reg_at(regs, REG_ALARM_BITS as int)
        &&& text_view(self.serial) == text_at(regs, REG_SERIAL_START as int, REG_SERIAL_END as int)
    }

    /// Decode a realtime (0x0000) register block. Total: absent registers yield
    /// `None`. Counts are untrusted and clamped to the physical maximum.
    pub fn from_registers(regs: &[u16]) -> (r: Self)
        ensures
            r.decodes(regs@),
            reads_text(r.serial, regs@, REG_SERIAL_START as int, REG_SERIAL_END as int),
    {
        let cell_count: usize = slots(regs, REG_CELL_COUNT, MAX_CELLS);
        let cells_mv = readings(regs, REG_CELL_BASE, cell_count, 0);
        let temp_count: usize = slots(regs, REG_TEMP_COUNT, MAX_TEMPS);
        let temps_c = readings(regs, REG_TEMP_BASE, temp_count, 40);
        RealtimeData {
            cells_mv,
            temps_c,
            pack_dv: deci_reg(regs, REG_PACK_VOLTAGE),
            current_da: amps_reg(regs, REG_CURRENT),
            soc_permille: deci_reg(regs, REG_SOC),
            cell_max_mv: cell_volts_reg(regs, REG_CELL_MAX_V),
            cell_min_mv: cell_volts_reg(regs, REG_CELL_MIN_V),
            temp_max_c: celsius_reg(regs, REG_TEMP_MAX),
            temp_min_c: celsius_reg(regs, REG_TEMP_MIN),
            remaining_dah: deci_reg(regs, REG_REMAINING_CAPACITY),
            cycles: reg(regs, REG_CYCLES),
            charge_mos: flag_reg(regs, REG_CHARGE_MOS),
            discharge_mos: flag_reg(regs, REG_DISCHARGE_MOS),
            cell_avg_mv: cell_volts_reg(regs, REG_CELL_AVG_V),
            cell_delta_mv: cell_volts_reg(regs, REG_CELL_DELTA_V),
            balancer_active: flag_reg(regs, REG_BALANCER_ACTIVE),
            balance_current_da: amps_reg(regs, REG_BALANCE_CURRENT_RT),
            balancing_cells: reg(regs, REG_BALANCING_CELLS),
            mos_temp_c: celsius_reg(regs, REG_MOS_TEMP),
            alarm_bits: reg(regs, REG_ALARM_BITS),
            serial: ascii(regs, REG_SERIAL_START, REG_SERIAL_END),
        }
    }
}

impl Default for RealtimeData {
    /// Nothing read: what an empty block decodes to.
    fn default() -> (r: Self)
        ensures
            r.decodes(Seq::empty()),
    {
        RealtimeData {
            cells_mv: Vec::new(),
            temps_c: Vec::new(),
            pack_dv: None,
            current_da: None,
            soc_permille: None,
            cell_max_mv: None,
            cell_min_mv: None,
            temp_max_c: None,
            temp_min_c: None,
            remaining_dah: None,
            cycles: None,
            charge_mos: None,
            discharge_mos: None,
            cell_avg_mv: None,
            cell_delta_mv: None,
            balancer_active: None,
            balance_current_da: None,
            balancing_cells: None,
            mos_temp_c: None,
            alarm_bits: None,
            serial: None,
        }
    }
}

/// Configuration and protection thresholds (block 0x0080).
#[derive(Debug)]
pub struct ConfigData {
    /// Rated pack capacity (0.1 Ah).
    pub rated_capacity_dah: Option<i32>,
    /// Nominal/reference cell voltage (mV).
    pub cell_reference_mv: Option<i32>,
    /// Cell over-voltage thresholds (mV).
    pub cell_high_mv: Limits,
    /// Cell under-voltage thresholds (mV).
    pub cell_low_mv: Limits,
    /// Pack over-voltage thresholds (0.1 V).
    pub pack_high_dv: Limits,
    /// Pack under-voltage thresholds (0.1 V).
    pub pack_low_dv: Limits,
    /// Discharge over-current thresholds (0.1 A).
    pub discharge_overcurrent_da: Limits,
    /// Charge over-current thresholds (0.1 A).
    pub charge_overcurrent_da: Limits,
    /// Charge high-temperature thresholds (°C).
    pub charge_temp_high_c: Limits,
    /// Charge low-temperature thresholds (°C).
    pub charge_temp_low_c: Limits,
    /// Discharge high-temperature thresholds (°C).
    pub discharge_temp_high_c: Limits,
    /// Inter-sensor temperature difference limit (°C), a delta with no offset.
    pub diff_temp_c: Option<i32>,
    /// Fan activation temperature (°C).
    pub fan_on_temp_c: Option<i32>,
    /// Whether cell balancing is enabled.
    pub balance_enable: Option<bool>,
    /// Balancing current setpoint (0.1 A).
    pub balance_current_da: Option<i32>,
    /// Device machine code / model identifier string.
    pub machine_code: Option<String>,
    /// Firmware (software) version string.
    pub sw_version: Option<String>,
    /// Hardware version string.
    pub hw_version: Option<String>,
}

impl ConfigData {
    /// Whether `self` is what the registers of one block say.
    pub open spec fn decodes(self, regs: Seq<u16>) -> bool {
        &&& self.rated_capacity_dah == value_at(regs, REG_RATED_CAPACITY - CFG_BASE, 0)
        &&& self.cell_reference_mv == value_at(regs, REG_CELL_REFERENCE - CFG_BASE, 0)
        &&& self.cell_high_mv == limits_at(regs, REG_CELL_HIGH_WARN - CFG_BASE, REG_CELL_HIGH_PROT - CFG_BASE, 0)
        &&& self.cell_low_mv == limits_at(regs, REG_CELL_LOW_WARN - CFG_BASE, REG_CELL_LOW_PROT - CFG_BASE, 0)
        &&& self.pack_high_dv == limits_at(regs, REG_PACK_HIGH_WARN - CFG_BASE, REG_PACK_HIGH_PROT - CFG_BASE, 0)
        &&& self.pack_low_dv == limits_at(regs, REG_PACK_LOW_WARN - CFG_BASE, REG_PACK_LOW_PROT - CFG_BASE, 0)
        &&& self.discharge_overcurrent_da == limits_at(regs, REG_DISCHARGE_OC_WARN - CFG_BASE, REG_DISCHARGE_OC_PROT - CFG_BASE, 30000)
        &&& self.charge_overcurrent_da == limits_at(regs, REG_CHARGE_OC_WARN - CFG_BASE, REG_CHARGE_OC_PROT - CFG_BASE, 30000)
        &&& self.charge_temp_high_c == limits_at(regs, REG_CHARGE_TEMP_HIGH_WARN - CFG_BASE, REG_CHARGE_TEMP_HIGH_PROT - CFG_BASE, 40)
        &&& self.charge_temp_low_c == limits_at(regs, REG_CHARGE_TEMP_LOW_WARN - CFG_BASE, REG_CHARGE_TEMP_LOW_PROT - CFG_BASE, 40)
        &&& self.discharge_temp_high_c == limits_at(regs, REG_DISCHARGE_TEMP_HIGH_WARN - CFG_BASE, REG_DISCHARGE_TEMP_HIGH_PROT - CFG_BASE, 40)
        &&& self.diff_temp_c == value_at(regs, REG_DIFF_TEMP - CFG_BASE, 0)
        &&& self.fan_on_temp_c == value_at(regs, REG_FAN_ON_TEMP - CFG_BASE, 40)
        &&& self.balance_enable == flag_at(regs, REG_BALANCE_ENABLE - CFG_BASE)
        &&& self.balance_current_da == value_at(regs, REG_BALANCE_CURRENT_CFG - CFG_BASE, 0)
        &&& text_view(self.machine_code) == text_at(regs, REG_MACHINE_CODE_START - CFG_BASE, REG_MACHINE_CODE_END - CFG_BASE)
        &&& text_view(self.sw_version) == text_at(regs, REG_SW_VERSION_START - CFG_BASE, REG_SW_VERSION_END - CFG_BASE)
        &&& text_view(self.hw_version) == text_at(regs, REG_HW_VERSION_START - CFG_BASE, REG_HW_VERSION_END - CFG_BASE)
    }

    /// Decode a config (0x0080) register block. Total: absent registers yield
    /// `None`. The parsed vector starts at the block base, so a register stands
    /// at its address less [`CFG_BASE`].
    pub fn from_registers(regs: &[u16]) -> (r: Self)
        ensures
            r.decodes(regs@),
            reads_text(
                r.machine_code,
                regs@,
                REG_MACHINE_CODE_START - CFG_BASE,
                REG_MACHINE_CODE_END - CFG_BASE,
            ),
            reads_text(
                r.sw_version,
                regs@,
                REG_SW_VERSION_START - CFG_BASE,
                REG_SW_VERSION_END - CFG_BASE,
            ),
            reads_text(
                r.hw_version,
                regs@,
                REG_HW_VERSION_START - CFG_BASE,
                REG_HW_VERSION_END - CFG_BASE,
            ),
    {
        ConfigData {
            rated_capacity_dah: deci_reg(regs, REG_RATED_CAPACITY - CFG_BASE),
            cell_reference_mv: cell_volts_reg(regs, REG_CELL_REFERENCE - CFG_BASE),
            cell_high_mv: Limits {
                warning: cell_volts_reg(regs, REG_CELL_HIGH_WARN - CFG_BASE),
                protection: cell_volts_reg(regs, REG_CELL_HIGH_PROT - CFG_BASE),
            },
            cell_low_mv: Limits {
                warning: cell_volts_reg(regs, REG_CELL_LOW_WARN - CFG_BASE),
                protection: cell_volts_reg(regs, REG_CELL_LOW_PROT - CFG_BASE),
            },
            pack_high_dv: Limits {
                warning: deci_reg(regs, REG_PACK_HIGH_WARN - CFG_BASE),
                protection: deci_reg(regs, REG_PACK_HIGH_PROT - CFG_BASE),
            },
            pack_low_dv: Limits {
                warning: deci_reg(regs, REG_PACK_LOW_WARN - CFG_BASE),
                protection: deci_reg(regs, REG_PACK_LOW_PROT - CFG_BASE),
            },
            discharge_overcurrent_da: Limits {
                warning: amps_reg(regs, REG_DISCHARGE_OC_WARN - CFG_BASE),
                protection: amps_reg(regs, REG_DISCHARGE_OC_PROT - CFG_BASE),
            },
            charge_overcurrent_da: Limits {
                warning: amps_reg(regs, REG_CHARGE_OC_WARN - CFG_BASE),
                protection: amps_reg(regs, REG_CHARGE_OC_PROT - CFG_BASE),
            },
            charge_temp_high_c: Limits {
                warning: celsius_reg(regs, REG_CHARGE_TEMP_HIGH_WARN - CFG_BASE),
                protection: celsius_reg(regs, REG_CHARGE_TEMP_HIGH_PROT - CFG_BASE),
            },
            charge_temp_low_c: Limits {
                warning: celsius_reg(regs, REG_CHARGE_TEMP_LOW_WARN - CFG_BASE),
                protection: celsius_reg(regs, REG_CHARGE_TEMP_LOW_PROT - CFG_BASE),
            },
            discharge_temp_high_c: Limits {
                warning: celsius_reg(regs, REG_DISCHARGE_TEMP_HIGH_WARN - CFG_BASE),
                protection: celsius_reg(regs, REG_DISCHARGE_TEMP_HIGH_PROT - CFG_BASE),
            },
            diff_temp_c: celsius_delta_reg(regs, REG_DIFF_TEMP - CFG_BASE),
            fan_on_temp_c: celsius_reg(regs, REG_FAN_ON_TEMP - CFG_BASE),
            balance_enable: flag_reg(regs, REG_BALANCE_ENABLE - CFG_BASE),
            balance_current_da: deci_reg(regs, REG_BALANCE_CURRENT_CFG - CFG_BASE),
            machine_code: ascii(regs, REG_MACHINE_CODE_START - CFG_BASE, REG_MACHINE_CODE_END - CFG_BASE),
            sw_version: ascii(regs, REG_SW_VERSION_START - CFG_BASE, REG_SW_VERSION_END - CFG_BASE),
            hw_version: ascii(regs, REG_HW_VERSION_START - CFG_BASE, REG_HW_VERSION_END - CFG_BASE),
        }
    }
}

impl Default for ConfigData {
    /// Nothing read: what an empty block decodes to.
    fn default() -> (r: Self)
        ensures
            r.decodes(Seq::empty()),
    {
        ConfigData {
            rated_capacity_dah: None,
            cell_reference_mv: None,
            cell_high_mv: Limits { warning: None, protection: None },
            cell_low_mv: Limits { warning: None, protection: None },
            pack_high_dv: Limits { warning: None, protection: None },
            pack_low_dv: Limits { warning: None, protection: None },
            discharge_overcurrent_da: Limits { warning: None, protection: None },
            charge_overcurrent_da: Limits { warning: None, protection: None },
            charge_temp_high_c: Limits { warning: None, protection: None },
            charge_temp_low_c: Limits { warning: None, protection: None },
            discharge_temp_high_c: Limits { warning: None, protection: None },
            diff_temp_c: None,
            fan_on_temp_c: None,
            balance_enable: None,
            balance_current_da: None,
            machine_code: None,
            sw_version: None,
            hw_version: None,
        }
    }
}

// --- What decoding guarantees ---
/// Readings come in slot order, each from a non-zero register of the announced
/// range, and no such register is left out.
pub proof fn law_readings(regs: Seq<u16>, base: int, count: nat, offset: int)
    requires
        0 <= base,
        count <= u32::MAX,
        0 <= offset <= 0xFFFF,
    ensures
        ({
            let found = readings_at(regs, base, count, offset);
            &&& found.len() <= count
            &&& forall|i: int|
                0 <= i < found.len() ==> {
                    let slot = (#[trigger] found[i]).index;
                    &&& 1 <= slot <= count
                    &&& reg_at(regs, base + slot - 1) matches Some(raw)
                    &&& raw != 0
                    &&& found[i].value == raw - offset
                }
            &&& forall|i: int, j: int|
                0 <= i < j < found.len() ==> (#[trigger] found[i]).index < (
                #[trigger] found[j]).index
            &&& forall|slot: int|
                1 <= slot <= count && (#[trigger] reg_at(regs, base + slot - 1)) is Some && reg_at(
                    regs,
                    base + slot - 1,
                ) != Some(0u16) ==> exists|i: int|
                    0 <= i < found.len() && (#[trigger] found[i]).index == slot
        }),
    decreases count,
{
    if count > 0 {
        let before = readings_at(regs, base, (count - 1) as nat, offset);
        let found = readings_at(regs, base, count, offset);
        law_readings(regs, base, (count - 1) as nat, offset);
        assert forall|slot: int|
            1 <= slot <= count && (#[trigger] reg_at(regs, base + slot - 1)) is Some && reg_at(
                regs,
                base + slot - 1,
            ) != Some(0u16) implies exists|i: int|
            0 <= i < found.len() && (#[trigger] found[i]).index == slot by {
            if slot == count {
                assert(found[found.len() - 1].index == slot);
            } else {
                let i = choose|i: int|
                    0 <= i < before.len() && (#[trigger] before[i]).index == slot;
                assert(found[i] == before[i]);
            }
        }
    }
}

proof fn lemma_printable(text: Seq<char>)
    ensures
        forall|i: int| 0 <= i < printable(text).len() ==> !control(#[trigger] printable(text)[i]),
    decreases text.len(),
{
    if text.len() > 0 {
        let rest = printable(text.drop_last());
        lemma_printable(text.drop_last());
        assert forall|i: int| 0 <= i < printable(text).len() implies !control(
            #[trigger] printable(text)[i],
        ) by {
            if i < rest.len() {
                assert(printable(text)[i] == rest[i]);
            }
        }
    }
}

proof fn lemma_trimmed(text: Seq<char>)
    ensures
        trimmed(text).len() > 0 ==> !padding(trimmed(text).first()) && !padding(
            trimmed(text).last(),
        ),
        forall|i: int|
            0 <= i < trimmed(text).len() ==> text.contains(#[trigger] trimmed(text)[i]),
    decreases text.len(),
{
    if text.len() > 0 {
        if padding(text.first()) {
            lemma_trimmed(text.drop_first());
            assert forall|c: char| text.drop_first().contains(c) implies text.contains(c) by {
                let k = choose|k: int|
                    0 <= k < text.drop_first().len() && text.drop_first()[k] == c;
                assert(text[k + 1] == c);
            }
        } else if padding(text.last()) {
            lemma_trimmed(text.drop_last());
            assert forall|c: char| text.drop_last().contains(c) implies text.contains(c) by {
                let k = choose|k: int| 0 <= k < text.drop_last().len() && text.drop_last()[k] == c;
                assert(text[k] == c);
            }
        }
    }
}

/// A text field that has a value is not empty, holds no control character and
/// neither starts nor ends with padding.
pub proof fn law_text_fields_are_clean(text: Seq<char>)
    ensures
        clean(text) matches Some(value) ==> {
            &&& value.len() > 0
            &&& !padding(value.first())
            &&& !padding(value.last())
            &&& forall|i: int| 0 <= i < value.len() ==> !control(#[trigger] value[i])
        },
{
    let inner = printable(text);
    let value = trimmed(inner);
    lemma_printable(text);
    lemma_trimmed(inner);
    assert forall|i: int| 0 <= i < value.len() implies !control(#[trigger] value[i]) by {
        let k = choose|k: int| 0 <= k < inner.len() && inner[k] == value[i];
        assert(!control(inner[k]));
    }
}

proof fn lemma_printable_unchanged(text: Seq<char>)
    requires
        forall|i: int| 0 <= i < text.len() ==> !control(#[trigger] text[i]),
    ensures
        printable(text) == text,
    decreases text.len(),
{
    if text.len() > 0 {
        assert forall|i: int| 0 <= i < text.drop_last().len() implies !control(
            #[trigger] text.drop_last()[i],
        ) by {
            assert(text.drop_last()[i] == text[i]);
        }
        lemma_printable_unchanged(text.drop_last());
        assert(text.drop_last().push(text.last()) =~= text);
    }
}

/// Text that is clean already comes through unchanged.
pub proof fn law_clean_text_survives(text: Seq<char>)
    requires
        text.len() > 0,
        !padding(text.first()),
        !padding(text.last()),
        forall|i: int| 0 <= i < text.len() ==> !control(#[trigger] text[i]),
    ensures
        clean(text) == Some(text),
{
    lemma_printable_unchanged(text);
}

} // verus!
