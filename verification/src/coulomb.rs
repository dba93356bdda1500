//! Charge and energy accounting: trapezoidal integration of the pack current
//! and power, and the write-ahead bookkeeping that keeps the exported totals
//! from ever running ahead of the state file.
//!
//! Currents are in milliamperes, voltages in millivolts, times in microseconds.
//! Integrals are exact: charge is counted in half milliampere-microseconds and
//! energy in half microwatt-microseconds, so that the trapezoid needs no
//! division. Sums stop at the top of their range.

use vstd::prelude::*;
use vstd::string::*;

use crate::decode::{text_view, PlausibilityLimits};
use crate::metrics::MetricsOptions;
use crate::text::same_text;

verus! {

/// Charge units in one milliampere-hour.
pub const UNITS_PER_MAH: u128 = 7_200_000_000;

/// Energy units in one milliwatt-hour.
pub const UNITS_PER_MWH: u128 = 7_200_000_000_000;

/// Microseconds in one second.
pub const MICROS_PER_SEC: u64 = 1_000_000;

/// Directional split of an integrated quantity. Feeding current yields charge,
/// feeding power yields energy.
///
/// A named type rather than a tuple on purpose: the value is passed through
/// three hops (integrate -> accumulate -> counter), and swapping the two sides
/// anywhere would silently cross charge with discharge in *monotonic* counters —
/// an error that cannot be undone once exported.
#[derive(Debug, Clone, Copy, PartialEq, Eq, Structural)]
pub struct Split {
    pub charge: u128,
    pub discharge: u128,
}

/// A [`Split`] after per-frame clamping, with a flag so the caller can report
/// that a clamp actually fired.
#[derive(Debug, Clone, Copy, PartialEq, Eq, Structural)]
pub struct Clamped {
    pub value: Split,
    pub was_clamped: bool,
}

/// A sum that stops at the top of the range.
pub open spec fn capped_sum(a: u128, b: u128) -> u128 {
    if a + b > u128::MAX {
        u128::MAX
    } else {
        (a + b) as u128
    }
}

/// The smaller of a value and a bound; an absent bound leaves the value alone.
pub open spec fn at_most(v: u128, max: Option<u128>) -> u128 {
    match max {
        Some(m) => if v < m {
            v
        } else {
            m
        },
        None => v,
    }
}

fn lower(v: u128, max: Option<u128>) -> (r: u128)
    ensures
        r == at_most(v, max),
{
    match max {
        Some(m) => if v < m {
            v
        } else {
            m
        },
        None => v,
    }
}

impl Split {
    /// Nothing in either direction.
    pub open spec fn none() -> Split {
        Split { charge: 0, discharge: 0 }
    }

    /// The sum, direction by direction.
    pub open spec fn plus(self, other: Split) -> Split {
        Split {
            charge: capped_sum(self.charge, other.charge),
            discharge: capped_sum(self.discharge, other.discharge),
        }
    }

    /// Whether neither direction of `self` exceeds that of `other`.
    pub open spec fn within(self, other: Split) -> bool {
        self.charge <= other.charge && self.discharge <= other.discharge
    }

    /// A signed amount as a split: positive is charge.
    pub open spec fn of(amount: int) -> Split {
        if amount >= 0 {
            Split { charge: amount as u128, discharge: 0 }
        } else {
            Split { charge: 0, discharge: (-amount) as u128 }
        }
    }

    /// Each direction capped at `max`.
    pub open spec fn clamp(self, max: Option<u128>) -> Split {
        Split { charge: at_most(self.charge, max), discharge: at_most(self.discharge, max) }
    }

    /// Nothing in either direction.
    pub fn zero() -> (r: Split)
        ensures
            r == Split::none(),
    {
        Split { charge: 0, discharge: 0 }
    }

    /// The sum, direction by direction; each stops at the top of its range.
    pub fn sum(self, other: Split) -> (r: Split)
        ensures
            r == self.plus(other),
    {
        Split {
            charge: self.charge.saturating_add(other.charge),
            discharge: self.discharge.saturating_add(other.discharge),
        }
    }

    /// Cap each direction at `max`. The plausibility thresholds bound the
    /// *reading* and the gap cap bounds the *interval*, but their product can
    /// still be far above anything physical, so the delta itself needs its own
    /// ceiling before it reaches a monotonic counter.
    pub fn clamped(self, max: Option<u128>) -> (r: Clamped)
        ensures
            r.value == self.clamp(max),
            r.was_clamped == (self.clamp(max) != self),
    {
        let value = Split { charge: lower(self.charge, max), discharge: lower(self.discharge, max) };
        Clamped { was_clamped: value != self, value }
    }
}

/// Microseconds from `last` to `now`; a clock that stepped back counts as none.
pub open spec fn elapsed(last: u64, now: u64) -> u64 {
    if now > last {
        (now - last) as u64
    } else {
        0
    }
}

/// How long an interval is integrated: at most the gap cap.
pub open spec fn counted_time(dt_us: u64, max_gap_secs: u64) -> int {
    if dt_us < max_gap_secs * MICROS_PER_SEC {
        dt_us as int
    } else {
        max_gap_secs * MICROS_PER_SEC
    }
}

/// Twice the trapezoid between two readings.
pub open spec fn trapezoid(prev: int, cur: int, dt_us: u64, max_gap_secs: u64) -> Split {
    Split::of((prev + cur) * counted_time(dt_us, max_gap_secs))
}

/// Trapezoidal integral of a signed quantity over an interval, split by
/// direction (one side is always zero). Feed current (mA) to get charge, or
/// power (µW) to get energy. The interval is clamped to the gap cap so a data
/// gap doesn't integrate a stale reading.
pub fn trapezoid_hours(prev: i64, cur: i64, dt_us: u64, max_gap_secs: u64) -> (r: Split)
    ensures
        r == trapezoid(prev as int, cur as int, dt_us, max_gap_secs),
{
    let gap: u128 = max_gap_secs as u128 * 1_000_000;
    let dt: u64 = if (dt_us as u128) < gap {
        dt_us
    } else {
        gap as u64
    };
    let sum: i128 = prev as i128 + cur as i128;
    proof {
        assert(dt == counted_time(dt_us, max_gap_secs));
        let s = sum as int;
        let t = dt as int;
        assert(-0x1_0000_0000_0000_0000 <= s <= 0x1_0000_0000_0000_0000);
        assert(s >= 0 ==> 0 <= s * t <= 0x1_0000_0000_0000_0000 * 0xFFFF_FFFF_FFFF_FFFF)
            by (nonlinear_arith)
            requires
                s <= 0x1_0000_0000_0000_0000,
                0 <= t <= 0xFFFF_FFFF_FFFF_FFFF,
        ;
        assert(s < 0 ==> 0 <= (-s) * t <= 0x1_0000_0000_0000_0000 * 0xFFFF_FFFF_FFFF_FFFF && (-s)
            * t == -(s * t)) by (nonlinear_arith)
            requires
                -0x1_0000_0000_0000_0000 <= s,
                0 <= t <= 0xFFFF_FFFF_FFFF_FFFF,
        ;
    }
    if sum >= 0 {
        Split { charge: (sum as u128) * (dt as u128), discharge: 0 }
    } else {
        Split { charge: 0, discharge: ((-sum) as u128) * (dt as u128) }
    }
}

// --- The plausibility gate ---
/// Why a realtime sample was not, or not fully, integrated.
#[derive(Debug, Clone, Copy, PartialEq, Eq, Structural)]
pub enum SampleFault {
    ImplausibleCurrent,
    ImplausibleVoltage,
    ClampedDelta,
}

impl SampleFault {
    /// The `reason` label of a fault.
    pub open spec fn label(self) -> Seq<char> {
        match self {
            SampleFault::ImplausibleCurrent => "implausible_current"@,
            SampleFault::ImplausibleVoltage => "implausible_voltage"@,
            SampleFault::ClampedDelta => "clamped_delta"@,
        }
    }

    /// The `reason` label of a fault.
    pub fn as_str(self) -> (r: &'static str)
        ensures
            r@ == self.label(),
    {
        match self {
            SampleFault::ImplausibleCurrent => "implausible_current",
            SampleFault::ImplausibleVoltage => "implausible_voltage",
            SampleFault::ClampedDelta => "clamped_delta",
        }
    }
}

impl PlausibilityLimits {
    /// Why a reading is taken for garbage, if it is. The current is judged
    /// first; a frame without pack voltage is judged by its current alone.
    pub open spec fn fault(self, current_ma: i32, pack_mv: Option<u32>) -> Option<SampleFault> {
        if self.max_current_ma matches Some(max) && (current_ma > max || -current_ma > max) {
            Some(SampleFault::ImplausibleCurrent)
        } else if pack_mv matches Some(v) && (self.pack_mv.0 matches Some(min) && v < min) {
            Some(SampleFault::ImplausibleVoltage)
        } else if pack_mv matches Some(v) && (self.pack_mv.1 matches Some(max) && v > max) {
            Some(SampleFault::ImplausibleVoltage)
        } else {
            None
        }
    }

    /// Judge one reading. The input is unauthenticated and the register
    /// encoding reaches 3553 A / 6553 V, so without this one corrupt frame
    /// dumps kilowatt-hours into a counter that can never be walked back. A
    /// frame is rejected whole: a garbage voltage register is evidence the
    /// frame is garbage, not just that one field.
    pub fn check(&self, current_ma: i32, pack_mv: Option<u32>) -> (r: Option<SampleFault>)
        ensures
            r == self.fault(current_ma, pack_mv),
    {
        let cur: i64 = current_ma as i64;
        if let Some(max) = self.max_current_ma {
            if cur > max || -cur > max {
                return Some(SampleFault::ImplausibleCurrent);
            }
        }
        if let Some(pack) = pack_mv {
            let v: i64 = pack as i64;
            if let Some(min) = self.pack_mv.0 {
                if v < min {
                    return Some(SampleFault::ImplausibleVoltage);
                }
            }
            if let Some(max) = self.pack_mv.1 {
                if v > max {
                    return Some(SampleFault::ImplausibleVoltage);
                }
            }
        }
        None
    }
}

// --- Per-device state ---
/// Charge and energy together.
#[derive(Debug, Clone, Copy, PartialEq, Eq, Structural)]
pub struct Totals {
    pub ah: Split,
    pub wh: Split,
}

impl Totals {
    /// Nothing counted.
    pub open spec fn none() -> Totals {
        Totals { ah: Split::none(), wh: Split::none() }
    }

    /// The sum of both.
    pub open spec fn plus(self, other: Totals) -> Totals {
        Totals { ah: self.ah.plus(other.ah), wh: self.wh.plus(other.wh) }
    }

    /// Whether nothing in `self` exceeds its counterpart in `other`.
    pub open spec fn within(self, other: Totals) -> bool {
        self.ah.within(other.ah) && self.wh.within(other.wh)
    }

    /// Nothing counted.
    pub fn zero() -> (r: Totals)
        ensures
            r == Totals::none(),
    {
        Totals { ah: Split::zero(), wh: Split::zero() }
    }

    /// The sum of both.
    pub fn sum(self, other: Totals) -> (r: Totals)
        ensures
            r == self.plus(other),
    {
        Totals { ah: self.ah.sum(other.ah), wh: self.wh.sum(other.wh) }
    }
}

/// The previous integrated frame: time, pack current and pack voltage (the
/// voltage is used to integrate power into energy).
#[derive(Debug, Clone, Copy, PartialEq, Eq, Structural)]
pub struct Baseline {
    pub at_us: u64,
    pub current_ma: i32,
    pub pack_mv: Option<u32>,
}

/// The label values of one device's identity series.
#[derive(Debug)]
pub struct Identity {
    pub sn: String,
    pub serial: String,
    pub machine_code: String,
    pub sw_version: String,
    pub hw_version: String,
}

impl View for Identity {
    type V = Seq<Seq<char>>;

    open spec fn view(&self) -> Seq<Seq<char>> {
        seq![self.sn@, self.serial@, self.machine_code@, self.sw_version@, self.hw_version@]
    }
}

/// What is known of one device.
#[verifier::ext_equal]
pub struct DeviceModel {
    pub sn: Seq<char>,
    /// Cells and sensors whose series currently exist.
    pub cells: Seq<u32>,
    pub sensors: Seq<u32>,
    pub baseline: Option<Baseline>,
    /// The identity series currently shown.
    pub device_info: Option<Seq<Seq<char>>>,
    /// The serial in the last realtime block that carried one.
    pub realtime_serial: Option<Seq<char>>,
    /// Integrated, but not yet part of a state file.
    pub pending: Totals,
    /// Part of the state file that is being written.
    pub in_flight: Totals,
    /// Shown by the counters.
    pub exported: Totals,
}

impl DeviceModel {
    /// A device of which nothing but the serial is known.
    pub open spec fn fresh(sn: Seq<char>) -> DeviceModel {
        DeviceModel {
            sn,
            cells: Seq::empty(),
            sensors: Seq::empty(),
            baseline: None,
            device_info: None,
            realtime_serial: None,
            pending: Totals::none(),
            in_flight: Totals::none(),
            exported: Totals::none(),
        }
    }

    /// Everything ever integrated for this device.
    pub open spec fn counted(self) -> Totals {
        self.exported.plus(self.in_flight).plus(self.pending)
    }
}

/// Per-device record of which cell/sensor series currently exist, so series that
/// disappear can be removed, and of the accounting between frame and counter.
#[derive(Debug)]
pub struct LastSeries {
    pub sn: String,
    pub cells: Vec<u32>,
    pub sensors: Vec<u32>,
    pub baseline: Option<Baseline>,
    pub device_info: Option<Identity>,
    pub realtime_serial: Option<String>,
    pub pending: Totals,
    pub in_flight: Totals,
    pub exported: Totals,
}

impl View for LastSeries {
    type V = DeviceModel;

    open spec fn view(&self) -> DeviceModel {
        DeviceModel {
            sn: self.sn@,
            cells: self.cells@,
            sensors: self.sensors@,
            baseline: self.baseline,
            device_info: match self.device_info {
                Some(identity) => Some(identity@),
                None => None,
            },
            realtime_serial: match self.realtime_serial {
                Some(serial) => Some(serial@),
                None => None,
            },
            pending: self.pending,
            in_flight: self.in_flight,
            exported: self.exported,
        }
    }
}

impl LastSeries {
    /// A device of which nothing but the serial is known.
    pub fn new(sn: &str) -> (r: Self)
        ensures
            r@ == DeviceModel::fresh(sn@),
    {
        let r = LastSeries {
            sn: sn.to_owned(),
            cells: Vec::new(),
            sensors: Vec::new(),
            baseline: None,
            device_info: None,
            realtime_serial: None,
            pending: Totals::zero(),
            in_flight: Totals::zero(),
            exported: Totals::zero(),
        };
        proof {
            assert(r@ =~= DeviceModel::fresh(sn@));
        }
        r
    }

    /// Whether this device has deltas waiting for a durable write.
    pub fn has_pending(&self) -> (r: bool)
        ensures
            r == (self@.pending != Totals::none()),
    {
        self.pending != Totals::zero()
    }
}

// --- Integration ---
/// The ceiling of one frame in integration units.
pub open spec fn ceiling(max_milli: Option<u64>, unit: u128) -> Option<u128> {
    match max_milli {
        Some(m) => Some((m * unit) as u128),
        None => None,
    }
}

fn ceiling_units(max_milli: Option<u64>, unit: u128) -> (r: Option<u128>)
    requires
        unit <= UNITS_PER_MWH,
    ensures
        r == ceiling(max_milli, unit),
{
    match max_milli {
        Some(m) => {
            proof {
                assert(m * unit <= 0xFFFF_FFFF_FFFF_FFFF * 7_200_000_000_000) by (nonlinear_arith)
                    requires
                        m <= 0xFFFF_FFFF_FFFF_FFFF,
                        unit <= 7_200_000_000_000,
                ;
            }
            Some(m as u128 * unit)
        },
        None => None,
    }
}

/// What one interval integrates to, before the per-frame ceilings: charge from
/// the current, and energy from the power where both ends have a voltage.
pub open spec fn interval(
    last: Baseline,
    current_ma: i32,
    pack_mv: Option<u32>,
    now_us: u64,
    max_gap_secs: u64,
) -> Totals {
    let dt = elapsed(last.at_us, now_us);
    Totals {
        ah: trapezoid(last.current_ma as int, current_ma as int, dt, max_gap_secs),
        wh: match (last.pack_mv, pack_mv) {
            (Some(last_v), Some(v)) => trapezoid(
                last.current_ma * last_v,
                current_ma * v,
                dt,
                max_gap_secs,
            ),
            _ => Split::none(),
        },
    }
}

/// Both ceilings applied.
pub open spec fn limited(delta: Totals, opts: MetricsOptions) -> Totals {
    Totals {
        ah: delta.ah.clamp(ceiling(opts.max_frame_mah, UNITS_PER_MAH)),
        wh: delta.wh.clamp(ceiling(opts.max_frame_mwh, UNITS_PER_MWH)),
    }
}

/// What a frame adds: nothing on the first frame of a device.
pub open spec fn frame_delta(
    d: DeviceModel,
    opts: MetricsOptions,
    current_ma: i32,
    pack_mv: Option<u32>,
    now_us: u64,
) -> Totals {
    match d.baseline {
        Some(last) => interval(last, current_ma, pack_mv, now_us, opts.coulomb_max_gap_secs),
        None => Totals::none(),
    }
}

/// The device after a plausible frame: the delta waits for a durable write, and
/// the frame becomes the next baseline.
pub open spec fn integrated(
    d: DeviceModel,
    opts: MetricsOptions,
    current_ma: i32,
    pack_mv: Option<u32>,
    now_us: u64,
) -> DeviceModel {
    DeviceModel {
        pending: d.pending.plus(
            limited(frame_delta(d, opts, current_ma, pack_mv, now_us), opts),
        ),
        baseline: Some(Baseline { at_us: now_us, current_ma, pack_mv }),
        ..d
    }
}

/// Whether a ceiling cuts the frame's delta.
pub open spec fn is_cut(
    d: DeviceModel,
    opts: MetricsOptions,
    current_ma: i32,
    pack_mv: Option<u32>,
    now_us: u64,
) -> bool {
    let delta = frame_delta(d, opts, current_ma, pack_mv, now_us);
    limited(delta, opts) != delta
}

fn power(current_ma: i32, pack_mv: u32) -> (r: i64)
    ensures
        r == current_ma * pack_mv,
{
    proof {
        assert(-0x8000_0000 * 0xFFFF_FFFF <= current_ma * pack_mv <= 0x7FFF_FFFF * 0xFFFF_FFFF)
            by (nonlinear_arith)
            requires
                -0x8000_0000 <= current_ma <= 0x7FFF_FFFF,
                0 <= pack_mv <= 0xFFFF_FFFF,
        ;
    }
    current_ma as i64 * pack_mv as i64
}

impl LastSeries {
    /// Integrate one plausible frame; says whether a ceiling cut its delta.
    pub fn integrate(
        &mut self,
        opts: &MetricsOptions,
        current_ma: i32,
        pack_mv: Option<u32>,
        now_us: u64,
    ) -> (clamped: bool)
        ensures
            final(self)@ == integrated(old(self)@, *opts, current_ma, pack_mv, now_us),
            clamped == is_cut(old(self)@, *opts, current_ma, pack_mv, now_us),
    {
        let mut clamped = false;
        let mut delta = Totals::zero();
        let max_ah: Option<u128> = ceiling_units(opts.max_frame_mah, UNITS_PER_MAH);
        let max_wh: Option<u128> = ceiling_units(opts.max_frame_mwh, UNITS_PER_MWH);
        if let Some(last) = self.baseline {
            let gap: u64 = opts.coulomb_max_gap_secs;
            let dt: u64 = if now_us > last.at_us {
                now_us - last.at_us
            } else {
                0
            };
            let ah = trapezoid_hours(last.current_ma as i64, current_ma as i64, dt, gap).clamped(
                max_ah,
            );
            delta.ah = ah.value;
            clamped = ah.was_clamped;
            if let (Some(last_v), Some(v)) = (last.pack_mv, pack_mv) {
                let wh = trapezoid_hours(
                    power(last.current_ma, last_v),
                    power(current_ma, v),
                    dt,
                    gap,
                ).clamped(max_wh);
                delta.wh = wh.value;
                clamped = clamped || wh.was_clamped;
            }
        }
        self.pending = self.pending.sum(delta);
        self.baseline = Some(Baseline { at_us: now_us, current_ma, pack_mv });
        clamped
    }
}

// --- The tracked devices ---
/// Everything behind the accounting.
#[verifier::ext_equal]
pub struct CoulombModel {
    pub devices: Seq<DeviceModel>,
    /// When the state was last written or failed to be written.
    pub last_persist_at: Option<u64>,
    /// Whether a write is under way.
    pub writing: bool,
}

/// No serial occurs twice.
pub open spec fn distinct(devices: Seq<DeviceModel>) -> bool {
    forall|i: int, j: int|
        0 <= i < j < devices.len() ==> (#[trigger] devices[i]).sn != (#[trigger] devices[j]).sn
}

/// Whether `sn` is tracked.
pub open spec fn tracks(devices: Seq<DeviceModel>, sn: Seq<char>) -> bool {
    exists|i: int| 0 <= i < devices.len() && (#[trigger] devices[i]).sn == sn
}

/// Where a tracked `sn` stands.
pub open spec fn place(devices: Seq<DeviceModel>, sn: Seq<char>) -> int {
    choose|i: int| 0 <= i < devices.len() && (#[trigger] devices[i]).sn == sn
}

/// Whether the cap leaves room for one more device.
pub open spec fn has_room(devices: Seq<DeviceModel>, max_devices: usize) -> bool {
    max_devices == 0 || devices.len() < max_devices
}

/// The devices once `sn` is tracked, or nothing if the cap forbids it.
pub open spec fn with_device(
    devices: Seq<DeviceModel>,
    sn: Seq<char>,
    max_devices: usize,
) -> Option<Seq<DeviceModel>> {
    if tracks(devices, sn) {
        Some(devices)
    } else if has_room(devices, max_devices) {
        Some(devices.push(DeviceModel::fresh(sn)))
    } else {
        None
    }
}

impl CoulombModel {
    /// Serials are distinct, and nothing is in flight between writes.
    pub open spec fn valid(self) -> bool {
        &&& distinct(self.devices)
        &&& !self.writing ==> forall|i: int|
            0 <= i < self.devices.len() ==> (#[trigger] self.devices[i]).in_flight
                == Totals::none()
    }

    /// Nothing tracked, nothing written.
    pub open spec fn empty() -> CoulombModel {
        CoulombModel { devices: Seq::empty(), last_persist_at: None, writing: false }
    }
}

proof fn lemma_place(devices: Seq<DeviceModel>, i: int)
    requires
        distinct(devices),
        0 <= i < devices.len(),
    ensures
        tracks(devices, devices[i].sn),
        place(devices, devices[i].sn) == i,
{
    let sn = devices[i].sn;
    let k = place(devices, sn);
    assert(0 <= k < devices.len() && devices[k].sn == sn);
    if k < i {
        assert(devices[k].sn != devices[i].sn);
    } else if i < k {
        assert(devices[i].sn != devices[k].sn);
    }
}

/// Devices seen so far and the write in progress.
#[derive(Debug)]
pub struct CoulombShared {
    devices: Vec<LastSeries>,
    last_persist_at: Option<u64>,
    writing: bool,
}

impl View for CoulombShared {
    type V = CoulombModel;

    closed spec fn view(&self) -> CoulombModel {
        CoulombModel {
            devices: Seq::new(self.devices@.len(), |i: int| self.devices@[i]@),
            last_persist_at: self.last_persist_at,
            writing: self.writing,
        }
    }
}

/// One device's row in the state file, or of the counters.
#[derive(Debug)]
pub struct Row {
    pub sn: String,
    pub totals: Totals,
}

/// What a row says.
#[verifier::ext_equal]
pub struct RowModel {
    pub sn: Seq<char>,
    pub totals: Totals,
}

impl View for Row {
    type V = RowModel;

    open spec fn view(&self) -> RowModel {
        RowModel { sn: self.sn@, totals: self.totals }
    }
}

/// The rows a list holds.
pub open spec fn row_views(rows: Seq<Row>) -> Seq<RowModel> {
    Seq::new(rows.len(), |i: int| rows[i]@)
}

impl CoulombShared {
    /// Nothing tracked.
    pub fn new() -> (r: Self)
        ensures
            r@ == CoulombModel::empty(),
            r@.valid(),
    {
        let r = CoulombShared { devices: Vec::new(), last_persist_at: None, writing: false };
        proof {
            assert(r@.devices =~= Seq::empty());
        }
        r
    }

    /// Where `sn` stands, if it is tracked.
    fn find(&self, sn: &str) -> (r: Option<usize>)
        requires
            self@.valid(),
        ensures
            match r {
                Some(i) => tracks(self@.devices, sn@) && i == place(self@.devices, sn@) && i
                    < self@.devices.len() && self@.devices[i as int].sn == sn@,
                None => !tracks(self@.devices, sn@),
            },
    {
        let mut i: usize = 0;
        while i < self.devices.len()
            invariant
                i <= self.devices@.len(),
                self@.valid(),
                self@.devices.len() == self.devices@.len(),
                forall|k: int| 0 <= k < i ==> (#[trigger] self@.devices[k]).sn != sn@,
            decreases self.devices@.len() - i,
        {
            if same_text(self.devices[i].sn.as_str(), sn) {
                proof {
                    assert(self@.devices[i as int].sn == sn@);
                    lemma_place(self@.devices, i as int);
                }
                return Some(i);
            }
            i += 1;
        }
        None
    }

    /// Find `sn`, starting to track it while the cap allows.
    pub fn track(&mut self, sn: &str, max_devices: usize) -> (r: Option<usize>)
        requires
            old(self)@.valid(),
        ensures
            final(self)@.valid(),
            match (r, with_device(old(self)@.devices, sn@, max_devices)) {
                (Some(i), Some(devices)) => final(self)@ == (CoulombModel {
                    devices,
                    ..old(self)@
                }) && i == place(devices, sn@) && i < devices.len() && devices[i as int].sn == sn@,
                (None, None) => final(self)@ == old(self)@,
                _ => false,
            },
    {
        if let Some(i) = self.find(sn) {
            proof {
                assert(self@ =~= CoulombModel { devices: self@.devices, ..self@ });
            }
            return Some(i);
        }
        if max_devices != 0 && self.devices.len() >= max_devices {
            return None;
        }
        let i: usize = self.devices.len();
        self.devices.push(LastSeries::new(sn));
        proof {
            assert(self@.devices =~= old(self)@.devices.push(DeviceModel::fresh(sn@)));
            lemma_place(self@.devices, i as int);
            assert(self@ =~= CoulombModel { devices: self@.devices, ..old(self)@ });
        }
        Some(i)
    }
}

/// What became of a realtime sample.
#[derive(Debug, Clone, Copy, PartialEq, Eq, Structural)]
pub enum SampleOutcome {
    /// The frame carries no current: there is nothing to integrate.
    Absent,
    /// The plausibility gate rejected the frame.
    Rejected(SampleFault),
    /// The device cap is reached and the serial is not tracked.
    CapReached,
    /// Integrated; the flag tells whether a ceiling cut the delta.
    Integrated { clamped: bool },
}

/// What becomes of a sample.
pub open spec fn outcome(
    m: CoulombModel,
    opts: MetricsOptions,
    sn: Seq<char>,
    current_ma: Option<i32>,
    pack_mv: Option<u32>,
    now_us: u64,
) -> SampleOutcome {
    match current_ma {
        None => SampleOutcome::Absent,
        Some(cur) => match opts.plausibility.fault(cur, pack_mv) {
            Some(fault) => SampleOutcome::Rejected(fault),
            None => match with_device(m.devices, sn, opts.max_devices) {
                None => SampleOutcome::CapReached,
                Some(devices) => SampleOutcome::Integrated {
                    clamped: is_cut(devices[place(devices, sn)], opts, cur, pack_mv, now_us),
                },
            },
        },
    }
}

/// The accounting after a sample. Only an integrated one changes it.
pub open spec fn accumulated(
    m: CoulombModel,
    opts: MetricsOptions,
    sn: Seq<char>,
    current_ma: Option<i32>,
    pack_mv: Option<u32>,
    now_us: u64,
) -> CoulombModel {
    match outcome(m, opts, sn, current_ma, pack_mv, now_us) {
        SampleOutcome::Integrated { .. } => {
            let devices = with_device(m.devices, sn, opts.max_devices)->Some_0;
            let i = place(devices, sn);
            CoulombModel {
                devices: devices.update(
                    i,
                    integrated(devices[i], opts, current_ma->Some_0, pack_mv, now_us),
                ),
                ..m
            }
        },
        _ => m,
    }
}

impl CoulombShared {
    /// Integrate pack current into charge and, where a pack voltage is present,
    /// power into energy: trapezoidal over the interval since the device's
    /// previous frame. The deltas wait for the next flush.
    pub fn accumulate(
        &mut self,
        opts: &MetricsOptions,
        sn: &str,
        current_ma: Option<i32>,
        pack_mv: Option<u32>,
        now_us: u64,
    ) -> (r: SampleOutcome)
        requires
            old(self)@.valid(),
        ensures
            final(self)@.valid(),
            final(self)@ == accumulated(old(self)@, *opts, sn@, current_ma, pack_mv, now_us),
            r == outcome(old(self)@, *opts, sn@, current_ma, pack_mv, now_us),
    {
        let cur: i32 = match current_ma {
            Some(cur) => cur,
            None => {
                return SampleOutcome::Absent;
            },
        };
        if let Some(fault) = opts.plausibility.check(cur, pack_mv) {
            return SampleOutcome::Rejected(fault);
        }
        match self.track(sn, opts.max_devices) {
            None => SampleOutcome::CapReached,
            Some(i) => {
                let ghost before = self@;
                let clamped = self.devices[i].integrate(opts, cur, pack_mv, now_us);
                proof {
                    assert(self@.devices =~= before.devices.update(
                        i as int,
                        integrated(before.devices[i as int], *opts, cur, pack_mv, now_us),
                    ));
                }
                SampleOutcome::Integrated { clamped }
            },
        }
    }

    /// Whether frames of `sn` should be processed: yes for a tracked device and
    /// while there is room under the cap (which reserves the slot, so that even
    /// frames which never decode count against it).
    pub fn admit_device(&mut self, sn: &str, max_devices: usize) -> (r: bool)
        requires
            old(self)@.valid(),
        ensures
            final(self)@.valid(),
            r == (tracks(old(self)@.devices, sn@) || has_room(old(self)@.devices, max_devices)),
            final(self)@ == admitted(old(self)@, sn@, max_devices),
    {
        if max_devices == 0 {
            return true;
        }
        match self.track(sn, max_devices) {
            Some(_) => true,
            None => false,
        }
    }
}

/// The accounting after a device asked to be admitted. Without a cap no slot is
/// reserved.
pub open spec fn admitted(m: CoulombModel, sn: Seq<char>, max_devices: usize) -> CoulombModel {
    if max_devices == 0 {
        m
    } else {
        match with_device(m.devices, sn, max_devices) {
            Some(devices) => CoulombModel { devices, ..m },
            None => m,
        }
    }
}

// --- Flushing ---
/// How the accounting of a device moves on.
#[derive(Debug, Clone, Copy, PartialEq, Eq, Structural)]
pub enum Move {
    /// Waiting deltas become part of a state file.
    Take,
    /// The state file is written: its deltas reach the counters.
    Land,
    /// The state file could not be written: its deltas wait again.
    Requeue,
    /// Nothing is persisted: waiting deltas reach the counters at once.
    Apply,
}

/// One device after a move.
pub open spec fn moved(d: DeviceModel, step: Move) -> DeviceModel {
    match step {
        Move::Take => DeviceModel { in_flight: d.pending, pending: Totals::none(), ..d },
        Move::Land => DeviceModel {
            exported: d.exported.plus(d.in_flight),
            in_flight: Totals::none(),
            ..d
        },
        Move::Requeue => DeviceModel {
            pending: d.pending.plus(d.in_flight),
            in_flight: Totals::none(),
            ..d
        },
        Move::Apply => DeviceModel {
            exported: d.exported.plus(d.pending),
            pending: Totals::none(),
            ..d
        },
    }
}

/// All devices after a move.
pub open spec fn all_moved(devices: Seq<DeviceModel>, step: Move) -> Seq<DeviceModel> {
    Seq::new(devices.len(), |i: int| moved(devices[i], step))
}

/// The rows of a state file: for each device what its counters will show once
/// everything in flight has landed.
pub open spec fn file_rows(devices: Seq<DeviceModel>) -> Seq<RowModel> {
    Seq::new(
        devices.len(),
        |i: int|
            RowModel {
                sn: devices[i].sn,
                totals: devices[i].exported.plus(devices[i].in_flight),
            },
    )
}

/// Whether some device has deltas waiting for a durable write.
pub open spec fn any_pending(devices: Seq<DeviceModel>) -> bool {
    exists|i: int| 0 <= i < devices.len() && (#[trigger] devices[i]).pending != Totals::none()
}

/// Whether the last attempt is too recent for another one.
pub open spec fn throttled(last: Option<u64>, now_us: u64, min_interval_secs: u64) -> bool {
    last matches Some(at) && elapsed(at, now_us) < min_interval_secs * MICROS_PER_SEC
}

/// What a flush leads to.
#[derive(Debug)]
pub enum FlushStep {
    /// There is nothing to do now; what is pending stays pending.
    Idle,
    /// Nothing is persisted; the counters have moved to these totals.
    Applied(Vec<Row>),
    /// Write these rows durably, then finish the flush.
    Write(Vec<Row>),
}

/// Which step a flush takes.
#[derive(Debug, Clone, Copy, PartialEq, Eq, Structural)]
pub enum FlushKind {
    Idle,
    Applied,
    Write,
}

/// Which step a flush takes. Forced, it bypasses the throttle and writes even
/// if nothing is pending; while a write is under way nothing else is started.
pub open spec fn flush_kind(
    m: CoulombModel,
    opts: MetricsOptions,
    force: bool,
    now_us: u64,
) -> FlushKind {
    if !opts.persist_state {
        FlushKind::Applied
    } else if m.writing {
        FlushKind::Idle
    } else if !force && !any_pending(m.devices) {
        FlushKind::Idle
    } else if !force && throttled(m.last_persist_at, now_us, opts.state_min_interval_secs) {
        FlushKind::Idle
    } else {
        FlushKind::Write
    }
}

/// The accounting once a flush has begun.
pub open spec fn flush_begun(
    m: CoulombModel,
    opts: MetricsOptions,
    force: bool,
    now_us: u64,
) -> CoulombModel {
    match flush_kind(m, opts, force, now_us) {
        FlushKind::Idle => m,
        FlushKind::Applied => CoulombModel { devices: all_moved(m.devices, Move::Apply), ..m },
        FlushKind::Write => CoulombModel {
            devices: all_moved(m.devices, Move::Take),
            writing: true,
            ..m
        },
    }
}

/// The accounting once the write has succeeded or failed. Either way the attempt
/// is stamped: throttling on successes alone would leave a broken disk retrying
/// on every frame.
pub open spec fn flush_finished(m: CoulombModel, written: bool, now_us: u64) -> CoulombModel {
    CoulombModel {
        devices: all_moved(
            m.devices,
            if written {
                Move::Land
            } else {
                Move::Requeue
            },
        ),
        last_persist_at: Some(now_us),
        writing: false,
    }
}

/// The accounting once a flush is given up before anything was written.
pub open spec fn flush_aborted(m: CoulombModel) -> CoulombModel {
    CoulombModel { devices: all_moved(m.devices, Move::Requeue), writing: false, ..m }
}

impl CoulombShared {
    /// Whether a write is under way.
    pub fn is_writing(&self) -> (r: bool)
        ensures
            r == self@.writing,
    {
        self.writing
    }

    fn move_all(&mut self, step: Move)
        ensures
            final(self)@ == (CoulombModel {
                devices: all_moved(old(self)@.devices, step),
                ..old(self)@
            }),
    {
        let ghost before = self@;
        let n: usize = self.devices.len();
        let mut i: usize = 0;
        while i < n
            invariant
                i <= n,
                n == self.devices@.len(),
                before.devices.len() == n,
                self@.devices.len() == n,
                self@.last_persist_at == before.last_persist_at,
                self@.writing == before.writing,
                forall|k: int|
                    0 <= k < i ==> (#[trigger] self@.devices[k]) == moved(before.devices[k], step),
                forall|k: int| i <= k < n ==> (#[trigger] self@.devices[k]) == before.devices[k],
            decreases n - i,
        {
            let ghost prev = self@;
            let pending = self.devices[i].pending;
            let in_flight = self.devices[i].in_flight;
            let exported = self.devices[i].exported;
            match step {
                Move::Take => {
                    self.devices[i].in_flight = pending;
                    self.devices[i].pending = Totals::zero();
                },
                Move::Land => {
                    self.devices[i].exported = exported.sum(in_flight);
                    self.devices[i].in_flight = Totals::zero();
                },
                Move::Requeue => {
                    self.devices[i].pending = pending.sum(in_flight);
                    self.devices[i].in_flight = Totals::zero();
                },
                Move::Apply => {
                    self.devices[i].exported = exported.sum(pending);
                    self.devices[i].pending = Totals::zero();
                },
            }
            proof {
                assert(prev.devices[i as int] == before.devices[i as int]);
                assert(self@.devices[i as int] =~= moved(before.devices[i as int], step));
                assert(self@.devices =~= prev.devices.update(
                    i as int,
                    moved(before.devices[i as int], step),
                ));
            }
            i += 1;
        }
        proof {
            assert(self@.devices =~= all_moved(before.devices, step));
        }
    }

    fn rows(&self) -> (r: Vec<Row>)
        ensures
            row_views(r@) == file_rows(self@.devices),
    {
        let n: usize = self.devices.len();
        let mut out: Vec<Row> = Vec::new();
        let mut i: usize = 0;
        while i < n
            invariant
                i <= n,
                n == self.devices@.len(),
                self@.devices.len() == n,
                out@.len() == i,
                forall|k: int|
                    0 <= k < i ==> (#[trigger] out@[k])@ == file_rows(self@.devices)[k],
            decreases n - i,
        {
            let d = &self.devices[i];
            let totals = d.exported.sum(d.in_flight);
            out.push(Row { sn: d.sn.clone(), totals });
            proof {
                assert(out@[i as int]@ =~= file_rows(self@.devices)[i as int]);
            }
            i += 1;
        }
        proof {
            assert(row_views(out@) =~= file_rows(self@.devices));
        }
        out
    }

    fn has_any_pending(&self) -> (r: bool)
        ensures
            r == any_pending(self@.devices),
    {
        let n: usize = self.devices.len();
        let mut i: usize = 0;
        while i < n
            invariant
                i <= n,
                n == self.devices@.len(),
                self@.devices.len() == n,
                forall|k: int|
                    0 <= k < i ==> (#[trigger] self@.devices[k]).pending == Totals::none(),
            decreases n - i,
        {
            if self.devices[i].has_pending() {
                proof {
                    assert(self@.devices[i as int].pending != Totals::none());
                }
                return true;
            }
            i += 1;
        }
        false
    }

    /// Begin moving the waiting deltas towards the counters.
    ///
    /// The invariant this exists for: a counter is advanced only after a file
    /// already containing that value has been durably written, so the on-disk
    /// value can never be lower than what was served. A counter that comes back
    /// lower after a restart is read as a reset, which adds the entire
    /// accumulated total to the apparent increase.
    pub fn begin_flush(&mut self, opts: &MetricsOptions, force: bool, now_us: u64) -> (r: FlushStep)
        requires
            old(self)@.valid(),
        ensures
            final(self)@.valid(),
            final(self)@ == flush_begun(old(self)@, *opts, force, now_us),
            match r {
                FlushStep::Idle => flush_kind(old(self)@, *opts, force, now_us) is Idle,
                FlushStep::Applied(rows) => flush_kind(old(self)@, *opts, force, now_us) is Applied
                    && row_views(rows@) == file_rows(final(self)@.devices),
                FlushStep::Write(rows) => flush_kind(old(self)@, *opts, force, now_us) is Write
                    && row_views(rows@) == file_rows(final(self)@.devices),
            },
    {
        if !opts.persist_state {
            self.move_all(Move::Apply);
            return FlushStep::Applied(self.rows());
        }
        if self.writing {
            return FlushStep::Idle;
        }
        if !force {
            if !self.has_any_pending() {
                return FlushStep::Idle;
            }
            if let Some(last) = self.last_persist_at {
                let since: u64 = if now_us > last {
                    now_us - last
                } else {
                    0
                };
                if (since as u128) < opts.state_min_interval_secs as u128 * 1_000_000 {
                    return FlushStep::Idle;
                }
            }
        }
        self.move_all(Move::Take);
        self.writing = true;
        proof {
            assert(self@.devices =~= all_moved(old(self)@.devices, Move::Take));
        }
        FlushStep::Write(self.rows())
    }

    /// Finish a flush once the rows are durably written, or could not be. Only
    /// now do the counters advance; on failure the deltas stay queued for the
    /// next attempt. Gives the totals the counters show from here on.
    pub fn finish_flush(&mut self, written: bool, now_us: u64) -> (r: Vec<Row>)
        requires
            old(self)@.valid(),
            old(self)@.writing,
        ensures
            final(self)@.valid(),
            final(self)@ == flush_finished(old(self)@, written, now_us),
            row_views(r@) == file_rows(final(self)@.devices),
    {
        if written {
            self.move_all(Move::Land);
        } else {
            self.move_all(Move::Requeue);
        }
        let ghost moved_devices = self@.devices;
        self.last_persist_at = Some(now_us);
        self.writing = false;
        proof {
            assert(self@.devices =~= moved_devices);
        }
        self.rows()
    }

    /// Give a flush up before anything was written (the rows could not be
    /// serialised): the deltas stay queued, and no attempt is stamped.
    pub fn abort_flush(&mut self)
        requires
            old(self)@.valid(),
            old(self)@.writing,
        ensures
            final(self)@.valid(),
            final(self)@ == flush_aborted(old(self)@),
    {
        self.move_all(Move::Requeue);
        let ghost moved_devices = self@.devices;
        self.writing = false;
        proof {
            assert(self@.devices =~= moved_devices);
        }
    }
}

// --- Restoring ---
/// The accounting after one row of the state file is restored. The device cap
/// holds here too, so a carried-over or hand-edited file cannot exceed it.
pub open spec fn row_restored(m: CoulombModel, row: RowModel, max_devices: usize) -> CoulombModel {
    if !has_room(m.devices, max_devices) {
        m
    } else {
        let devices = with_device(m.devices, row.sn, max_devices)->Some_0;
        let i = place(devices, row.sn);
        CoulombModel {
            devices: devices.update(
                i,
                DeviceModel { exported: devices[i].exported.plus(row.totals), ..devices[i] },
            ),
            ..m
        }
    }
}

/// The accounting after all rows are restored, in order.
pub open spec fn restored(
    m: CoulombModel,
    rows: Seq<RowModel>,
    max_devices: usize,
) -> CoulombModel
    decreases rows.len(),
{
    if rows.len() == 0 {
        m
    } else {
        row_restored(restored(m, rows.drop_last(), max_devices), rows.last(), max_devices)
    }
}

/// How many rows the cap lets in.
pub open spec fn restored_count(m: CoulombModel, rows: Seq<RowModel>, max_devices: usize) -> nat
    decreases rows.len(),
{
    if rows.len() == 0 {
        0
    } else {
        let before = restored_count(m, rows.drop_last(), max_devices);
        if has_room(restored(m, rows.drop_last(), max_devices).devices, max_devices) {
            before + 1
        } else {
            before
        }
    }
}

impl CoulombShared {
    fn restore_row(&mut self, row: &Row, max_devices: usize) -> (r: bool)
        requires
            old(self)@.valid(),
        ensures
            final(self)@.valid(),
            final(self)@ == row_restored(old(self)@, row@, max_devices),
            r == has_room(old(self)@.devices, max_devices),
    {
        if max_devices != 0 && self.devices.len() >= max_devices {
            return false;
        }
        if let Some(i) = self.track(row.sn.as_str(), max_devices) {
            let ghost before = self@;
            let exported = self.devices[i].exported;
            self.devices[i].exported = exported.sum(row.totals);
            proof {
                let after = DeviceModel {
                    exported: before.devices[i as int].exported.plus(row.totals),
                    ..before.devices[i as int]
                };
                assert(self@.devices[i as int] =~= after);
                assert(self@.devices =~= before.devices.update(i as int, after));
            }
        }
        true
    }

    /// Restore persisted totals, so that they survive a restart. Gives the
    /// number of rows restored; rows beyond the device cap are skipped.
    pub fn restore(&mut self, rows: &Vec<Row>, max_devices: usize) -> (r: usize)
        requires
            old(self)@.valid(),
        ensures
            final(self)@.valid(),
            final(self)@ == restored(old(self)@, row_views(rows@), max_devices),
            r == restored_count(old(self)@, row_views(rows@), max_devices),
    {
        let ghost all = row_views(rows@);
        let mut count: usize = 0;
        let mut i: usize = 0;
        proof {
            assert(all.take(0) =~= Seq::<RowModel>::empty());
        }
        while i < rows.len()
            invariant
                i <= rows@.len(),
                count <= i,
                all == row_views(rows@),
                self@.valid(),
                self@ == restored(old(self)@, all.take(i as int), max_devices),
                count == restored_count(old(self)@, all.take(i as int), max_devices),
            decreases rows@.len() - i,
        {
            proof {
                assert(all.take(i + 1).drop_last() =~= all.take(i as int));
                assert(all.take(i + 1).last() == rows@[i as int]@);
            }
            if self.restore_row(&rows[i], max_devices) {
                count += 1;
            }
            i += 1;
        }
        proof {
            assert(all.take(rows@.len() as int) =~= all);
        }
        count
    }
}

// --- Series bookkeeping ---
/// The serial of a frame; one without a serial leaves the former one.
pub open spec fn latest_serial(now: Option<Seq<char>>, former: Option<Seq<char>>) -> Option<
    Seq<char>,
> {
    match now {
        Some(serial) => Some(serial),
        None => former,
    }
}

impl CoulombShared {
    /// Note which cell and sensor series a realtime frame leaves behind, and
    /// the serial if it carried one. Gives the previous cells and sensors.
    pub fn swap_series(
        &mut self,
        i: usize,
        cells: Vec<u32>,
        sensors: Vec<u32>,
        serial: Option<String>,
    ) -> (r: (Vec<u32>, Vec<u32>))
        requires
            old(self)@.valid(),
            i < old(self)@.devices.len(),
        ensures
            final(self)@.valid(),
            final(self)@ == (CoulombModel {
                devices: old(self)@.devices.update(
                    i as int,
                    DeviceModel {
                        cells: cells@,
                        sensors: sensors@,
                        realtime_serial: latest_serial(
                            text_view(serial),
                            old(self)@.devices[i as int].realtime_serial,
                        ),
                        ..old(self)@.devices[i as int]
                    },
                ),
                ..old(self)@
            }),
            r.0@ == old(self)@.devices[i as int].cells,
            r.1@ == old(self)@.devices[i as int].sensors,
    {
        let mut cells = cells;
        let mut sensors = sensors;
        let ghost after = DeviceModel {
            cells: cells@,
            sensors: sensors@,
            realtime_serial: latest_serial(
                text_view(serial),
                self@.devices[i as int].realtime_serial,
            ),
            ..self@.devices[i as int]
        };
        std::mem::swap(&mut self.devices[i].cells, &mut cells);
        std::mem::swap(&mut self.devices[i].sensors, &mut sensors);
        if serial.is_some() {
            self.devices[i].realtime_serial = serial;
        }
        proof {
            assert(self@.devices[i as int] =~= after);
            assert(self@.devices =~= old(self)@.devices.update(i as int, after));
        }
        (cells, sensors)
    }

    /// The serial in the last realtime block of a device that carried one.
    pub fn realtime_serial(&self, i: usize) -> (r: Option<String>)
        requires
            i < self@.devices.len(),
        ensures
            text_view(r) == self@.devices[i as int].realtime_serial,
    {
        match &self.devices[i].realtime_serial {
            Some(serial) => Some(serial.clone()),
            None => None,
        }
    }

    /// Note the identity series that a device shows now. Gives the previous one.
    pub fn swap_identity(&mut self, i: usize, identity: Identity) -> (r: Option<Identity>)
        requires
            old(self)@.valid(),
            i < old(self)@.devices.len(),
        ensures
            final(self)@.valid(),
            final(self)@ == (CoulombModel {
                devices: old(self)@.devices.update(
                    i as int,
                    DeviceModel { device_info: Some(identity@), ..old(self)@.devices[i as int] },
                ),
                ..old(self)@
            }),
            match r {
                Some(previous) => old(self)@.devices[i as int].device_info == Some(previous@),
                None => old(self)@.devices[i as int].device_info is None,
            },
    {
        let ghost after = DeviceModel {
            device_info: Some(identity@),
            ..self@.devices[i as int]
        };
        let mut info = Some(identity);
        std::mem::swap(&mut self.devices[i].device_info, &mut info);
        proof {
            assert(self@.devices[i as int] =~= after);
            assert(self@.devices =~= old(self)@.devices.update(i as int, after));
        }
        info
    }
}

} // verus!
