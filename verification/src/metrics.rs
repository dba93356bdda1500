//! Metric families and the update logic that maps decoded telemetry onto them.

use vstd::prelude::*;
use vstd::string::*;

use crate::coulomb::{
    accumulated, admitted, file_rows, flush_aborted, flush_begun, flush_finished, flush_kind,
    has_room, latest_serial, outcome, place, restored, restored_count, row_views, tracks, with_device,
    CoulombModel, CoulombShared, DeviceModel, FlushStep, Identity, Row, SampleFault, SampleOutcome,
};
use crate::decode::{text_view, ConfigData, Limits, PlausibilityLimits, Reading, RealtimeData};
use crate::exposition::{
    has_line, is_comment, is_sample, is_sample_of, shows_heading, shows_sample,
};
use crate::families::{idx_label, law_families_are_describable, padded, Family, Kind};
use crate::family_ids::law_ids_are_distinct;
use crate::series::{
    counted, counter_sample, counters_about, descriptor_id, dropped, gauge_sample, gauges_about,
    head_of, label_values, renders, scalar_about, text_format, written, zero_line, Board,
    BoardModel, CounterSeries, Counters, GaugeSeries, Gauges, Scalar, Table,
};
use crate::text::{decimal, decimal_digits, same_text};

verus! {

/// Construction-time knobs for the metrics. A knob that is absent imposes no
/// bound.
#[derive(Debug, Clone, Copy, PartialEq, Eq)]
pub struct MetricsOptions {
    /// Integration-interval cap for the coulomb counter (seconds).
    pub coulomb_max_gap_secs: u64,
    /// Hard cap on distinct tracked serials (`0` = unlimited).
    pub max_devices: usize,
    /// Whether charge/energy totals are persisted and restored on startup.
    pub persist_state: bool,
    /// Minimum interval between durable writes of the state (seconds). Deltas
    /// arriving inside the window are held in memory, not lost.
    pub state_min_interval_secs: u64,
    /// Readings outside these limits are not integrated.
    pub plausibility: PlausibilityLimits,
    /// Cap on what one frame may add to the counters (mAh).
    pub max_frame_mah: Option<u64>,
    /// Cap on what one frame may add to the counters (mWh).
    pub max_frame_mwh: Option<u64>,
}

impl MetricsOptions {
    /// The knobs used when nothing is configured.
    pub open spec fn standard() -> MetricsOptions {
        MetricsOptions {
            coulomb_max_gap_secs: 900,
            max_devices: 64,
            persist_state: false,
            state_min_interval_secs: 5,
            plausibility: PlausibilityLimits {
                max_current_ma: Some(100_000),
                pack_mv: (Some(18_000), Some(34_000)),
            },
            max_frame_mah: Some(25_000),
            max_frame_mwh: Some(900_000),
        }
    }
}

impl Default for MetricsOptions {
    fn default() -> (r: Self)
        ensures
            r == MetricsOptions::standard(),
    {
        MetricsOptions {
            coulomb_max_gap_secs: 900,
            max_devices: 64,
            persist_state: false,
            state_min_interval_secs: 5,
            plausibility: PlausibilityLimits {
                max_current_ma: Some(100_000),
                pack_mv: (Some(18_000), Some(34_000)),
            },
            max_frame_mah: Some(25_000),
            max_frame_mwh: Some(900_000),
        }
    }
}

// --- Gauge updates ---
/// Which series of a family an update is for.
#[derive(Debug, Clone, Copy, PartialEq, Eq, Structural)]
pub enum SeriesLabel {
    /// The one series of the device.
    Device,
    /// A numbered cell or sensor.
    Index(u32),
    /// The warning level of a threshold.
    Warning,
    /// The protection level of a threshold.
    Protection,
}

impl SeriesLabel {
    /// The label value that follows the serial, if there is one.
    pub open spec fn text(self) -> Option<Seq<char>> {
        match self {
            SeriesLabel::Device => None,
            SeriesLabel::Index(n) => Some(padded(n)),
            SeriesLabel::Warning => Some("warning"@),
            SeriesLabel::Protection => Some("protection"@),
        }
    }

    /// The label value that follows the serial, if there is one.
    pub fn value(self) -> (r: Option<String>)
        ensures
            text_view(r) == self.text(),
    {
        match self {
            SeriesLabel::Device => None,
            SeriesLabel::Index(n) => Some(idx_label(n)),
            SeriesLabel::Warning => Some("warning".to_owned()),
            SeriesLabel::Protection => Some("protection".to_owned()),
        }
    }
}

/// One change to a gauge family: a new reading, in the family's resolution, or
/// the removal of a series.
#[derive(Debug, Clone, Copy, PartialEq, Eq, Structural)]
pub struct GaugeUpdate {
    pub family: Family,
    pub label: SeriesLabel,
    pub change: Option<i32>,
}

/// The update for a reading; an absent one leaves the gauge alone.
pub open spec fn reading_update(
    family: Family,
    label: SeriesLabel,
    v: Option<i32>,
) -> Seq<GaugeUpdate> {
    match v {
        Some(v) => seq![GaugeUpdate { family, label, change: Some(v) }],
        None => Seq::empty(),
    }
}

/// The updates for a threshold pair.
pub open spec fn limit_updates(family: Family, l: Limits) -> Seq<GaugeUpdate> {
    reading_update(family, SeriesLabel::Warning, l.warning) + reading_update(
        family,
        SeriesLabel::Protection,
        l.protection,
    )
}

/// Whether a reading with this number is among `cur`.
pub open spec fn present(cur: Seq<Reading>, n: u32) -> bool {
    exists|k: int| 0 <= k < cur.len() && (#[trigger] cur[k]).index == n
}

/// Removals of the series that existed before and have no reading now.
pub open spec fn stale_updates(
    family: Family,
    prev: Seq<u32>,
    cur: Seq<Reading>,
) -> Seq<GaugeUpdate>
    decreases prev.len(),
{
    if prev.len() == 0 {
        Seq::empty()
    } else {
        let before = stale_updates(family, prev.drop_last(), cur);
        if present(cur, prev.last()) {
            before
        } else {
            before.push(
                GaugeUpdate { family, label: SeriesLabel::Index(prev.last()), change: None },
            )
        }
    }
}

/// The current readings of an indexed family.
pub open spec fn indexed_updates(family: Family, cur: Seq<Reading>) -> Seq<GaugeUpdate> {
    Seq::new(
        cur.len(),
        |i: int|
            GaugeUpdate {
                family,
                label: SeriesLabel::Index(cur[i].index),
                change: Some(cur[i].value),
            },
    )
}

/// Prune, then set, an indexed (per-cell/per-sensor) family of one device.
pub open spec fn synced(family: Family, prev: Seq<u32>, cur: Seq<Reading>) -> Seq<GaugeUpdate> {
    stale_updates(family, prev, cur) + indexed_updates(family, cur)
}

/// The numbers of the current readings.
pub open spec fn indices(cur: Seq<Reading>) -> Seq<u32> {
    Seq::new(cur.len(), |i: int| cur[i].index)
}

fn set_gauge(out: &mut Vec<GaugeUpdate>, family: Family, v: Option<i32>)
    ensures
        final(out)@ == old(out)@ + reading_update(family, SeriesLabel::Device, v),
{
    if let Some(v) = v {
        out.push(GaugeUpdate { family, label: SeriesLabel::Device, change: Some(v) });
    }
    proof {
        assert(out@ =~= old(out)@ + reading_update(family, SeriesLabel::Device, v));
    }
}

fn set_limit(out: &mut Vec<GaugeUpdate>, family: Family, l: Limits)
    ensures
        final(out)@ == old(out)@ + limit_updates(family, l),
{
    if let Some(w) = l.warning {
        out.push(GaugeUpdate { family, label: SeriesLabel::Warning, change: Some(w) });
    }
    if let Some(p) = l.protection {
        out.push(GaugeUpdate { family, label: SeriesLabel::Protection, change: Some(p) });
    }
    proof {
        assert(out@ =~= old(out)@ + limit_updates(family, l));
    }
}

fn is_present(cur: &Vec<Reading>, n: u32) -> (r: bool)
    ensures
        r == present(cur@, n),
{
    let mut i: usize = 0;
    while i < cur.len()
        invariant
            i <= cur@.len(),
            forall|k: int| 0 <= k < i ==> (#[trigger] cur@[k]).index != n,
        decreases cur@.len() - i,
    {
        if cur[i].index == n {
            proof {
                assert(cur@[i as int].index == n);
            }
            return true;
        }
        i += 1;
    }
    false
}

fn indices_of(cur: &Vec<Reading>) -> (r: Vec<u32>)
    ensures
        r@ == indices(cur@),
{
    let mut out: Vec<u32> = Vec::new();
    let mut i: usize = 0;
    while i < cur.len()
        invariant
            i <= cur@.len(),
            out@ == indices(cur@).take(i as int),
        decreases cur@.len() - i,
    {
        out.push(cur[i].index);
        i += 1;
        proof {
            assert(out@ =~= indices(cur@).take(i as int));
        }
    }
    proof {
        assert(out@ =~= indices(cur@));
    }
    out
}

/// Remove series whose index was present before but is absent now, and set the
/// current values.
fn sync_indexed(out: &mut Vec<GaugeUpdate>, family: Family, prev: &Vec<u32>, cur: &Vec<Reading>)
    ensures
        final(out)@ == old(out)@ + synced(family, prev@, cur@),
{
    let ghost before = out@;
    let mut i: usize = 0;
    proof {
        assert(prev@.take(0) =~= Seq::<u32>::empty());
        assert(out@ =~= before + stale_updates(family, prev@.take(0), cur@));
    }
    while i < prev.len()
        invariant
            i <= prev@.len(),
            out@ == before + stale_updates(family, prev@.take(i as int), cur@),
        decreases prev@.len() - i,
    {
        let old_index: u32 = prev[i];
        proof {
            assert(prev@.take(i + 1).drop_last() =~= prev@.take(i as int));
        }
        if !is_present(cur, old_index) {
            out.push(GaugeUpdate { family, label: SeriesLabel::Index(old_index), change: None });
        }
        i += 1;
        proof {
            assert(out@ =~= before + stale_updates(family, prev@.take(i as int), cur@));
        }
    }
    proof {
        assert(prev@.take(prev@.len() as int) =~= prev@);
    }
    let ghost pruned = out@;
    let mut j: usize = 0;
    proof {
        assert(out@ =~= pruned + indexed_updates(family, cur@).take(0));
    }
    while j < cur.len()
        invariant
            j <= cur@.len(),
            out@ == pruned + indexed_updates(family, cur@).take(j as int),
        decreases cur@.len() - j,
    {
        let reading = cur[j];
        out.push(
            GaugeUpdate {
                family,
                label: SeriesLabel::Index(reading.index),
                change: Some(reading.value),
            },
        );
        j += 1;
        proof {
            assert(out@ =~= pruned + indexed_updates(family, cur@).take(j as int));
        }
    }
    proof {
        assert(out@ =~= before + synced(family, prev@, cur@));
    }
}

// --- Write stages ---
/// Stage of a durable write, used as the `stage` label of the write-error
/// counter: "the rename failed" needs a very different response from "the
/// directory fsync is unsupported".
#[derive(Debug, Clone, Copy, PartialEq, Eq, Structural)]
pub enum WriteStage {
    Serialize,
    CreateDir,
    Create,
    Write,
    Sync,
    Rename,
    DirSync,
}

impl WriteStage {
    /// The `stage` label.
    pub open spec fn label(self) -> Seq<char> {
        match self {
            WriteStage::Serialize => "serialize"@,
            WriteStage::CreateDir => "create_dir"@,
            WriteStage::Create => "create"@,
            WriteStage::Write => "write"@,
            WriteStage::Sync => "sync"@,
            WriteStage::Rename => "rename"@,
            WriteStage::DirSync => "dirsync"@,
        }
    }

    /// The `stage` label.
    pub fn as_str(self) -> (r: &'static str)
        ensures
            r@ == self.label(),
    {
        match self {
            WriteStage::Serialize => "serialize",
            WriteStage::CreateDir => "create_dir",
            WriteStage::Create => "create",
            WriteStage::Write => "write",
            WriteStage::Sync => "sync",
            WriteStage::Rename => "rename",
            WriteStage::DirSync => "dirsync",
        }
    }
}

// --- The metrics ---
/// What the metrics hold: the whole-number families, which of the others have
/// been shared, the knobs and the accounting.
#[verifier::ext_equal]
pub struct MetricsModel {
    pub charge_cycles: Map<u64, (Seq<Seq<char>>, i64)>,
    pub charge_mos: Map<u64, (Seq<Seq<char>>, i64)>,
    pub discharge_mos: Map<u64, (Seq<Seq<char>>, i64)>,
    pub balancer_active: Map<u64, (Seq<Seq<char>>, i64)>,
    pub balancing_cell_count: Map<u64, (Seq<Seq<char>>, i64)>,
    pub alarm_bits: Map<u64, (Seq<Seq<char>>, i64)>,
    pub alarm: Map<u64, (Seq<Seq<char>>, i64)>,
    pub balance_enable: Map<u64, (Seq<Seq<char>>, i64)>,
    pub device_info: Map<u64, (Seq<Seq<char>>, i64)>,
    pub http_requests: Map<u64, (Seq<Seq<char>>, u64)>,
    pub frames_decoded: Map<u64, (Seq<Seq<char>>, u64)>,
    pub frames_dropped: Map<u64, (Seq<Seq<char>>, u64)>,
    pub coulomb_samples_rejected: Map<u64, (Seq<Seq<char>>, u64)>,
    pub state_write_errors: Map<u64, (Seq<Seq<char>>, u64)>,
    /// The names of the fractional families that handles were given out for.
    pub shared: Set<Seq<char>>,
    pub options: MetricsOptions,
    pub coulombs: CoulombModel,
}

impl MetricsModel {
    /// No series, no device.
    pub open spec fn fresh(options: MetricsOptions) -> MetricsModel {
        MetricsModel {
            charge_cycles: Map::empty(),
            charge_mos: Map::empty(),
            discharge_mos: Map::empty(),
            balancer_active: Map::empty(),
            balancing_cell_count: Map::empty(),
            alarm_bits: Map::empty(),
            alarm: Map::empty(),
            balance_enable: Map::empty(),
            device_info: Map::empty(),
            http_requests: Map::empty(),
            frames_decoded: Map::empty(),
            frames_dropped: Map::empty(),
            coulomb_samples_rejected: Map::empty(),
            state_write_errors: Map::empty(),
            shared: Set::empty(),
            options,
            coulombs: CoulombModel::empty(),
        }
    }

    /// The series of a whole-number gauge family.
    pub open spec fn gauge_series(self, family: Family) -> Map<u64, (Seq<Seq<char>>, i64)> {
        match family {
            Family::ChargeCycles => self.charge_cycles,
            Family::ChargeMos => self.charge_mos,
            Family::DischargeMos => self.discharge_mos,
            Family::BalancerActive => self.balancer_active,
            Family::BalancingCellCount => self.balancing_cell_count,
            Family::AlarmBits => self.alarm_bits,
            Family::Alarm => self.alarm,
            Family::BalanceEnable => self.balance_enable,
            Family::DeviceInfo => self.device_info,
            _ => Map::empty(),
        }
    }

    /// The series of a whole-number counter family.
    pub open spec fn counter_series(self, family: Family) -> Map<u64, (Seq<Seq<char>>, u64)> {
        match family {
            Family::HttpRequests => self.http_requests,
            Family::FramesDecoded => self.frames_decoded,
            Family::FramesDropped => self.frames_dropped,
            Family::CoulombSamplesRejected => self.coulomb_samples_rejected,
            Family::StateWriteErrors => self.state_write_errors,
            _ => Map::empty(),
        }
    }

    /// Whether `line` is a sample of a whole-number gauge.
    pub open spec fn has_gauge_sample(self, line: Seq<char>) -> bool {
        exists|f: Family, slot: u64| #[trigger]
            self.gauge_series(f).dom().contains(slot) && is_sample(
                line,
                head_of(f.about(), self.gauge_series(f)[slot].0),
                self.gauge_series(f)[slot].1 as int,
            )
    }

    /// Whether `line` is a sample of a whole-number counter.
    pub open spec fn has_counter_sample(self, line: Seq<char>) -> bool {
        exists|f: Family, slot: u64| #[trigger]
            self.counter_series(f).dom().contains(slot) && is_sample(
                line,
                head_of(f.about(), self.counter_series(f)[slot].0),
                self.counter_series(f)[slot].1 as int,
            )
    }

    /// Whether `line` is a sample of a family that a handle was given out for.
    pub open spec fn has_shared_sample(self, line: Seq<char>) -> bool {
        exists|name: Seq<char>| #[trigger] self.shared.contains(name) && is_sample_of(line, name)
    }

    /// Whether the time of the last state write still stands at zero, and `line`
    /// says so.
    pub open spec fn has_zero_sample(self, line: Seq<char>) -> bool {
        !self.shared.contains(Family::StateLastWriteTimestamp.name_text()) && line == zero_line(
            Family::StateLastWriteTimestamp.about(),
        )
    }

    /// Whether `text` is an exposition of these metrics: it shows every
    /// whole-number series, under the heading of its family, and the time of the
    /// last state write, and it shows no other sample but those of families that
    /// handles were given out for.
    pub open spec fn exposed_by(self, text: Seq<char>) -> bool {
        &&& text.len() > 0 ==> text.last() == '\n'
        &&& forall|f: Family, slot: u64| #[trigger]
            self.gauge_series(f).dom().contains(slot) ==> shows_heading(
                text,
                f.name_text(),
                f.help_text(),
                "gauge"@,
            ) && shows_sample(
                text,
                head_of(f.about(), self.gauge_series(f)[slot].0),
                self.gauge_series(f)[slot].1 as int,
            )
        &&& forall|f: Family, slot: u64| #[trigger]
            self.counter_series(f).dom().contains(slot) ==> shows_heading(
                text,
                f.name_text(),
                f.help_text(),
                "counter"@,
            ) && shows_sample(
                text,
                head_of(f.about(), self.counter_series(f)[slot].0),
                self.counter_series(f)[slot].1 as int,
            )
        &&& shows_heading(
            text,
            Family::StateLastWriteTimestamp.name_text(),
            Family::StateLastWriteTimestamp.help_text(),
            "gauge"@,
        )
        &&& !self.shared.contains(Family::StateLastWriteTimestamp.name_text()) ==> has_line(
            text,
            zero_line(Family::StateLastWriteTimestamp.about()),
        )
        &&& forall|line: Seq<char>| #[trigger]
            has_line(text, line) ==> is_comment(line) || self.has_gauge_sample(line)
                || self.has_counter_sample(line) || self.has_shared_sample(line)
                || self.has_zero_sample(line)
    }
}

// Where the whole-number families stand on the board.
const CHARGE_CYCLES: usize = 0;

const CHARGE_MOS: usize = 1;

const DISCHARGE_MOS: usize = 2;

const BALANCER_ACTIVE: usize = 3;

const BALANCING_CELL_COUNT: usize = 4;

const ALARM_BITS: usize = 5;

const ALARM: usize = 6;

const BALANCE_ENABLE: usize = 7;

const DEVICE_INFO: usize = 8;

const HTTP_REQUESTS: usize = 0;

const FRAMES_DECODED: usize = 1;

const FRAMES_DROPPED: usize = 2;

const COULOMB_SAMPLES_REJECTED: usize = 3;

const STATE_WRITE_ERRORS: usize = 4;

/// The whole-number gauge families, in the order of their places.
pub open spec fn int_gauge_families() -> Seq<Family> {
    seq![
        Family::ChargeCycles,
        Family::ChargeMos,
        Family::DischargeMos,
        Family::BalancerActive,
        Family::BalancingCellCount,
        Family::AlarmBits,
        Family::Alarm,
        Family::BalanceEnable,
        Family::DeviceInfo,
    ]
}

/// The whole-number counter families, in the order of their places.
pub open spec fn int_counter_families() -> Seq<Family> {
    seq![
        Family::HttpRequests,
        Family::FramesDecoded,
        Family::FramesDropped,
        Family::CoulombSamplesRejected,
        Family::StateWriteErrors,
    ]
}

/// The place of a whole-number family among those of its kind.
spec fn int_place(family: Family) -> int {
    match family {
        Family::ChargeCycles => 0,
        Family::ChargeMos => 1,
        Family::DischargeMos => 2,
        Family::BalancerActive => 3,
        Family::BalancingCellCount => 4,
        Family::AlarmBits => 5,
        Family::Alarm => 6,
        Family::BalanceEnable => 7,
        Family::DeviceInfo => 8,
        Family::HttpRequests => 0,
        Family::FramesDecoded => 1,
        Family::FramesDropped => 2,
        Family::CoulombSamplesRejected => 3,
        Family::StateWriteErrors => 4,
        _ => -1,
    }
}

/// All metric families on the board that renders them, and the accounting behind
/// the charge and energy counters.
pub struct Metrics {
    board: Board,
    /// The fractional families, in the order of their places on the board.
    gauges: Vec<Family>,
    counters: Vec<Family>,
    options: MetricsOptions,
    coulombs: CoulombShared,
}

impl View for Metrics {
    type V = MetricsModel;

    closed spec fn view(&self) -> MetricsModel {
        MetricsModel {
            charge_cycles: self.board@.int_gauges[CHARGE_CYCLES as int].series,
            charge_mos: self.board@.int_gauges[CHARGE_MOS as int].series,
            discharge_mos: self.board@.int_gauges[DISCHARGE_MOS as int].series,
            balancer_active: self.board@.int_gauges[BALANCER_ACTIVE as int].series,
            balancing_cell_count: self.board@.int_gauges[BALANCING_CELL_COUNT as int].series,
            alarm_bits: self.board@.int_gauges[ALARM_BITS as int].series,
            alarm: self.board@.int_gauges[ALARM as int].series,
            balance_enable: self.board@.int_gauges[BALANCE_ENABLE as int].series,
            device_info: self.board@.int_gauges[DEVICE_INFO as int].series,
            http_requests: self.board@.int_counters[HTTP_REQUESTS as int].series,
            frames_decoded: self.board@.int_counters[FRAMES_DECODED as int].series,
            frames_dropped: self.board@.int_counters[FRAMES_DROPPED as int].series,
            coulomb_samples_rejected: self.board@.int_counters[COULOMB_SAMPLES_REJECTED as int].series,
            state_write_errors: self.board@.int_counters[STATE_WRITE_ERRORS as int].series,
            shared: self.board@.shared,
            options: self.options,
            coulombs: self.coulombs@,
        }
    }
}

/// Whether these ids are those of these families.
pub open spec fn ids_of(ids: Set<u64>, families: Set<Family>) -> bool {
    forall|id: u64| #[trigger]
        ids.contains(id) ==> exists|f: Family| #[trigger]
            families.contains(f) && descriptor_id(f.name_text()) == id
}

/// One more family finds its id free.
proof fn lemma_offered(ids: Set<u64>, families: Set<Family>, family: Family)
    requires
        ids_of(ids, families),
        !families.contains(family),
    ensures
        !ids.contains(descriptor_id(family.name_text())),
        ids_of(ids.insert(descriptor_id(family.name_text())), families.insert(family)),
{
    let id = descriptor_id(family.name_text());
    if ids.contains(id) {
        let f = choose|f: Family| #[trigger]
            families.contains(f) && descriptor_id(f.name_text()) == id;
        law_ids_are_distinct(f, family);
    }
    let now = families.insert(family);
    let now_ids = ids.insert(id);
    assert forall|i: u64| #[trigger] now_ids.contains(i) implies exists|f: Family| #[trigger]
        now.contains(f) && descriptor_id(f.name_text()) == i by {
        if i == id {
            assert(now.contains(family));
        } else {
            let f = choose|f: Family| #[trigger]
                families.contains(f) && descriptor_id(f.name_text()) == i;
            assert(now.contains(f));
        }
    }
}

/// A board with a family more, in the place that its kind has.
pub open spec fn enrolled(b: BoardModel, family: Family) -> BoardModel {
    match family.kind_of() {
        Kind::IntGauge => b.with_int_gauges(family.about()),
        Kind::IntCounter => b.with_int_counters(family.about()),
        Kind::Gauge => b.with_gauges(family.about()),
        Kind::Counter => b.with_counters(family.about()),
        Kind::Scalar => b.with_scalar(family.about()),
    }
}

/// A board with families of one kind more, and with these ids in use.
pub open spec fn all_enrolled(
    b: BoardModel,
    families: Seq<Family>,
    kind: Kind,
    ids: Set<u64>,
) -> BoardModel {
    let abouts = Seq::new(families.len(), |k: int| families[k].about());
    let with_ids = BoardModel { ids, ..b };
    match kind {
        Kind::IntGauge => BoardModel {
            int_gauges: b.int_gauges + Seq::new(
                families.len(),
                |k: int| GaugeSeries { about: families[k].about(), series: Map::empty() },
            ),
            ..with_ids
        },
        Kind::IntCounter => BoardModel {
            int_counters: b.int_counters + Seq::new(
                families.len(),
                |k: int| CounterSeries { about: families[k].about(), series: Map::empty() },
            ),
            ..with_ids
        },
        Kind::Gauge => BoardModel { gauges: b.gauges + abouts, ..with_ids },
        Kind::Counter => BoardModel { counters: b.counters + abouts, ..with_ids },
        Kind::Scalar => BoardModel { scalars: b.scalars + abouts, ..with_ids },
    }
}

proof fn lemma_one_more(b: BoardModel, families: Seq<Family>, i: int, kind: Kind, ids: Set<u64>)
    requires
        0 <= i < families.len(),
        families[i].kind_of() == kind,
    ensures
        all_enrolled(b, families.take(0), kind, b.ids) == b,
        enrolled(all_enrolled(b, families.take(i), kind, ids), families[i]) == all_enrolled(
            b,
            families.take(i + 1),
            kind,
            ids.insert(descriptor_id(families[i].name_text())),
        ),
{
    let before = all_enrolled(b, families.take(i), kind, ids);
    let x = enrolled(before, families[i]);
    let y = all_enrolled(
        b,
        families.take(i + 1),
        kind,
        ids.insert(descriptor_id(families[i].name_text())),
    );
    assert(x.int_gauges =~= y.int_gauges);
    assert(x.int_counters =~= y.int_counters);
    assert(x.gauges =~= y.gauges);
    assert(x.counters =~= y.counters);
    assert(x.scalars =~= y.scalars);
    assert(x =~= y);
    assert(all_enrolled(b, families.take(0), kind, b.ids) =~= b);
}

/// Add a family to the board. It is well described and has an id of its own, so
/// the board takes it.
fn enrol(board: &mut Board, family: Family, Ghost(held): Ghost<Set<Family>>)
    requires
        ids_of(old(board)@.ids, held),
        !held.contains(family),
    ensures
        final(board)@ == enrolled(old(board)@, family),
        ids_of(final(board)@.ids, held.insert(family)),
{
    let labels = family.labels();
    proof {
        law_families_are_describable(family);
        lemma_offered(board@.ids, held, family);
        if family.kind_of() is Scalar {
            assert(family.label_texts() =~= Seq::<Seq<char>>::empty());
        }
    }
    let done = match family.kind() {
        Kind::IntGauge => board.add_int_gauges(family.name(), family.help(), labels.as_slice()),
        Kind::IntCounter => board.add_int_counters(family.name(), family.help(), labels.as_slice()),
        Kind::Gauge => board.add_gauges(family.name(), family.help(), labels.as_slice()),
        Kind::Counter => board.add_counters(family.name(), family.help(), labels.as_slice()),
        Kind::Scalar => board.add_scalar(family.name(), family.help()),
    };
    proof {
        assert(done is Ok);
    }
}

/// Add families of one kind to the board, in order.
fn enrol_all(
    board: &mut Board,
    families: &Vec<Family>,
    kind: Kind,
    Ghost(held): Ghost<Set<Family>>,
)
    requires
        ids_of(old(board)@.ids, held),
        families@.no_duplicates(),
        forall|k: int|
            0 <= k < families@.len() ==> (#[trigger] families@[k]).kind_of() == kind
                && !held.contains(families@[k]),
    ensures
        final(board)@ == all_enrolled(old(board)@, families@, kind, final(board)@.ids),
        ids_of(final(board)@.ids, held.union(families@.to_set())),
{
    let mut i: usize = 0;
    proof {
        assert(all_enrolled(board@, families@.take(0), kind, board@.ids) =~= board@);
        assert(held.union(families@.take(0).to_set()) =~= held);
    }
    while i < families.len()
        invariant
            i <= families@.len(),
            families@.no_duplicates(),
            forall|k: int|
                0 <= k < families@.len() ==> (#[trigger] families@[k]).kind_of() == kind
                    && !held.contains(families@[k]),
            board@ == all_enrolled(old(board)@, families@.take(i as int), kind, board@.ids),
            ids_of(board@.ids, held.union(families@.take(i as int).to_set())),
        decreases families@.len() - i,
    {
        let family = families[i];
        let ghost so_far = held.union(families@.take(i as int).to_set());
        let ghost ids = board@.ids;
        proof {
            let part = families@.take(i as int);
            if part.to_set().contains(family) {
                let k = choose|k: int| 0 <= k < part.len() && part[k] == family;
                assert(families@[k] == families@[i as int]);
            }
            lemma_one_more(old(board)@, families@, i as int, kind, ids);
            let now = families@.take(i + 1);
            assert(now =~= part.push(family));
            assert forall|f: Family| now.to_set().contains(f) == (part.to_set().contains(f) || f
                == family) by {
                if part.to_set().contains(f) {
                    let k = choose|k: int| 0 <= k < part.len() && part[k] == f;
                    assert(now[k] == f);
                }
                assert(now[i as int] == family);
                if now.contains(f) {
                    let k = choose|k: int| 0 <= k < now.len() && now[k] == f;
                    if k < i {
                        assert(part[k] == f);
                    }
                }
            }
            assert(held.union(now.to_set()) =~= so_far.insert(family));
        }
        enrol(board, family, Ghost(so_far));
        i += 1;
    }
    proof {
        assert(families@.take(families@.len() as int) =~= families@);
    }
}

/// All families of one kind.
fn families_of(kind: Kind) -> (r: Vec<Family>)
    ensures
        r@.no_duplicates(),
        forall|f: Family| #[trigger] r@.contains(f) <==> f.kind_of() == kind,
{
    let all = Family::all();
    let mut out: Vec<Family> = Vec::new();
    let mut i: usize = 0;
    while i < all.len()
        invariant
            i <= all@.len(),
            all@.no_duplicates(),
            out@.no_duplicates(),
            forall|f: Family| #[trigger]
                out@.contains(f) <==> all@.take(i as int).contains(f) && f.kind_of() == kind,
        decreases all@.len() - i,
    {
        let family = all[i];
        let ghost before = out@;
        let ghost part = all@.take(i as int);
        if family.kind() == kind {
            out.push(family);
        }
        proof {
            let now = all@.take(i + 1);
            assert(now =~= part.push(family));
            if part.contains(family) {
                let k = choose|k: int| 0 <= k < part.len() && part[k] == family;
                assert(all@[k] == all@[i as int]);
            }
            assert forall|f: Family| #[trigger] now.contains(f) == (part.contains(f) || f
                == family) by {
                if part.contains(f) {
                    let k = choose|k: int| 0 <= k < part.len() && part[k] == f;
                    assert(now[k] == f);
                }
                assert(now[i as int] == family);
                if now.contains(f) {
                    let k = choose|k: int| 0 <= k < now.len() && now[k] == f;
                    if k < i {
                        assert(part[k] == f);
                    }
                }
            }
            if family.kind_of() == kind {
                assert(!before.contains(family));
                assert forall|f: Family| #[trigger] out@.contains(f) == (before.contains(f) || f
                    == family) by {
                    if before.contains(f) {
                        let k = choose|k: int| 0 <= k < before.len() && before[k] == f;
                        assert(out@[k] == f);
                    }
                    assert(out@[before.len() as int] == family);
                    if out@.contains(f) {
                        let k = choose|k: int| 0 <= k < out@.len() && out@[k] == f;
                        if k < before.len() {
                            assert(before[k] == f);
                        }
                    }
                }
                assert(out@.no_duplicates()) by {
                    assert forall|x: int, y: int|
                        0 <= x < out@.len() && 0 <= y < out@.len() && x != y implies out@[x]
                        != out@[y] by {
                        if x < before.len() && y < before.len() {
                            assert(before[x] != before[y]);
                        } else if x < before.len() {
                            assert(before.contains(before[x]));
                        } else if y < before.len() {
                            assert(before.contains(before[y]));
                        }
                    }
                }
            }
        }
        i += 1;
    }
    proof {
        assert(all@.take(all@.len() as int) =~= all@);
        assert forall|f: Family| #[trigger] out@.contains(f) <==> f.kind_of() == kind by {
            assert(all@.contains(f));
        }
    }
    out
}

impl Metrics {
    /// Every family stands on the board in its place, and the accounting is valid.
    pub closed spec fn valid(&self) -> bool {
        &&& self.board@.int_gauges.len() == int_gauge_families().len()
        &&& forall|i: int|
            0 <= i < int_gauge_families().len() ==> (#[trigger] self.board@.int_gauges[i]).about
                == int_gauge_families()[i].about()
        &&& self.board@.int_counters.len() == int_counter_families().len()
        &&& forall|i: int|
            0 <= i < int_counter_families().len() ==> (
            #[trigger] self.board@.int_counters[i]).about == int_counter_families()[i].about()
        &&& self.board@.gauges.len() == self.gauges@.len()
        &&& forall|i: int|
            0 <= i < self.gauges@.len() ==> (#[trigger] self.board@.gauges[i])
                == self.gauges@[i].about()
        &&& forall|f: Family| #[trigger] self.gauges@.contains(f) <==> f.kind_of() is Gauge
        &&& self.board@.counters.len() == self.counters@.len()
        &&& forall|i: int|
            0 <= i < self.counters@.len() ==> (#[trigger] self.board@.counters[i])
                == self.counters@[i].about()
        &&& forall|f: Family| #[trigger] self.counters@.contains(f) <==> f.kind_of() is Counter
        &&& self.board@.scalars == seq![Family::StateLastWriteTimestamp.about()]
        &&& self.coulombs@.valid()
    }

    /// Valid metrics have valid accounting.
    pub proof fn lemma_valid(&self)
        requires
            self.valid(),
        ensures
            self@.coulombs.valid(),
    {
    }

    /// Construct the registry and register all metric families. Every family is
    /// well described and has an id of its own, so the registry takes them all.
    pub fn new(options: MetricsOptions) -> (r: Metrics)
        ensures
            r.valid(),
            r@ == MetricsModel::fresh(options),
    {
        let mut board = Board::new();
        let int_gauges: Vec<Family> = vec![
            Family::ChargeCycles,
            Family::ChargeMos,
            Family::DischargeMos,
            Family::BalancerActive,
            Family::BalancingCellCount,
            Family::AlarmBits,
            Family::Alarm,
            Family::BalanceEnable,
            Family::DeviceInfo,
        ];
        let int_counters: Vec<Family> = vec![
            Family::HttpRequests,
            Family::FramesDecoded,
            Family::FramesDropped,
            Family::CoulombSamplesRejected,
            Family::StateWriteErrors,
        ];
        let gauges = families_of(Kind::Gauge);
        let counters = families_of(Kind::Counter);
        let scalars: Vec<Family> = vec![Family::StateLastWriteTimestamp];
        let ghost none: Set<Family> = Set::empty();
        let ghost held_a = none.union(int_gauges@.to_set());
        let ghost held_b = held_a.union(int_counters@.to_set());
        let ghost held_c = held_b.union(gauges@.to_set());
        let ghost held_d = held_c.union(counters@.to_set());
        proof {
            assert(int_gauges@ =~= int_gauge_families());
            assert(int_counters@ =~= int_counter_families());
            assert(scalars@ =~= seq![Family::StateLastWriteTimestamp]);
            assert forall|f: Family| int_gauges@.to_set().contains(f) implies f.kind_of()
                is IntGauge by {}
            assert forall|f: Family| int_counters@.to_set().contains(f) implies f.kind_of()
                is IntCounter by {}
            assert forall|k: int| 0 <= k < gauges@.len() implies (
            #[trigger] gauges@[k]).kind_of() is Gauge by {
                assert(gauges@.contains(gauges@[k]));
            }
            assert forall|k: int| 0 <= k < counters@.len() implies (
            #[trigger] counters@[k]).kind_of() is Counter by {
                assert(counters@.contains(counters@[k]));
            }
        }
        enrol_all(&mut board, &int_gauges, Kind::IntGauge, Ghost(none));
        enrol_all(&mut board, &int_counters, Kind::IntCounter, Ghost(held_a));
        enrol_all(&mut board, &gauges, Kind::Gauge, Ghost(held_b));
        enrol_all(&mut board, &counters, Kind::Counter, Ghost(held_c));
        enrol_all(&mut board, &scalars, Kind::Scalar, Ghost(held_d));
        let r = Metrics { board, gauges, counters, options, coulombs: CoulombShared::new() };
        proof {
            assert(r.board@.scalars =~= seq![Family::StateLastWriteTimestamp.about()]);
            assert(r@ =~= MetricsModel::fresh(options));
        }
        r
    }
}

// --- Counting ---
fn inc1(board: &mut Board, i: usize, label: &str)
    requires
        i < old(board)@.int_counters.len(),
        old(board)@.int_counters[i as int].about.2.len() == 1,
    ensures
        final(board)@ == old(board)@.with_counter_series(
            i as int,
            counted(old(board)@.int_counters[i as int].series, seq![label@]),
        ),
{
    let labels: Vec<&str> = vec![label];
    proof {
        assert(label_values(labels@) =~= seq![label@]);
    }
    board.inc(i, labels.as_slice());
}

fn inc2(board: &mut Board, i: usize, first: &str, second: &str)
    requires
        i < old(board)@.int_counters.len(),
        old(board)@.int_counters[i as int].about.2.len() == 2,
    ensures
        final(board)@ == old(board)@.with_counter_series(
            i as int,
            counted(old(board)@.int_counters[i as int].series, seq![first@, second@]),
        ),
{
    let labels: Vec<&str> = vec![first, second];
    proof {
        assert(label_values(labels@) =~= seq![first@, second@]);
    }
    board.inc(i, labels.as_slice());
}

/// Where a family stands in a list.
fn find(families: &Vec<Family>, family: Family) -> (r: Option<usize>)
    ensures
        match r {
            Some(i) => i < families@.len() && families@[i as int] == family,
            None => !families@.contains(family),
        },
{
    let mut i: usize = 0;
    while i < families.len()
        invariant
            i <= families@.len(),
            forall|k: int| 0 <= k < i ==> families@[k] != family,
        decreases families@.len() - i,
    {
        if families[i] == family {
            return Some(i);
        }
        i += 1;
    }
    None
}

impl Metrics {
    /// A handle of a fractional gauge family, to set its readings on.
    pub fn gauges(&mut self, family: Family) -> (r: Option<Gauges>)
        requires
            old(self).valid(),
        ensures
            final(self).valid(),
            r is Some <==> family.kind_of() is Gauge,
            r matches Some(g) ==> gauges_about(g) == family.about(),
            final(self)@ == if r is Some {
                MetricsModel { shared: old(self)@.shared.insert(family.name_text()), ..old(self)@ }
            } else {
                old(self)@
            },
    {
        match find(&self.gauges, family) {
            Some(i) => {
                proof {
                    assert(self.gauges@.contains(self.gauges@[i as int]));
                }
                Some(self.board.gauges(i))
            },
            None => None,
        }
    }

    /// A handle of a fractional counter family, to raise its totals on.
    pub fn counters(&mut self, family: Family) -> (r: Option<Counters>)
        requires
            old(self).valid(),
        ensures
            final(self).valid(),
            r is Some <==> family.kind_of() is Counter,
            r matches Some(c) ==> counters_about(c) == family.about(),
            final(self)@ == if r is Some {
                MetricsModel { shared: old(self)@.shared.insert(family.name_text()), ..old(self)@ }
            } else {
                old(self)@
            },
    {
        match find(&self.counters, family) {
            Some(i) => {
                proof {
                    assert(self.counters@.contains(self.counters@[i as int]));
                }
                Some(self.board.counters(i))
            },
            None => None,
        }
    }

    /// A handle of the time of the last successful state write, so that a stalled
    /// accounting loop is detectable even when nothing errors.
    pub fn state_last_write_timestamp(&mut self) -> (r: Scalar)
        requires
            old(self).valid(),
        ensures
            final(self).valid(),
            scalar_about(r) == Family::StateLastWriteTimestamp.about(),
            final(self)@ == (MetricsModel {
                shared: old(self)@.shared.insert(Family::StateLastWriteTimestamp.name_text()),
                ..old(self)@
            }),
    {
        self.board.scalar(0)
    }

    /// Record the outcome of an HTTP request (endpoint, status).
    pub fn record_request(&mut self, endpoint: &str, status: u16)
        requires
            old(self).valid(),
        ensures
            final(self).valid(),
            final(self)@ == (MetricsModel {
                http_requests: counted(
                    old(self)@.http_requests,
                    seq![endpoint@, decimal_digits(status as nat)],
                ),
                ..old(self)@
            }),
    {
        let status_text = decimal(status as u64);
        inc2(&mut self.board, HTTP_REQUESTS, endpoint, status_text.as_str());
    }

    /// Count a successfully decoded frame by block.
    pub fn record_decoded(&mut self, block: &str)
        requires
            old(self).valid(),
        ensures
            final(self).valid(),
            final(self)@ == (MetricsModel {
                frames_decoded: counted(old(self)@.frames_decoded, seq![block@]),
                ..old(self)@
            }),
    {
        inc1(&mut self.board, FRAMES_DECODED, block);
    }

    /// Count a dropped frame by reason.
    pub fn record_dropped(&mut self, reason: &str)
        requires
            old(self).valid(),
        ensures
            final(self).valid(),
            final(self)@ == (MetricsModel {
                frames_dropped: counted(old(self)@.frames_dropped, seq![reason@]),
                ..old(self)@
            }),
    {
        inc1(&mut self.board, FRAMES_DROPPED, reason);
    }

    /// Count a failed state write by stage.
    pub fn record_write_error(&mut self, stage: WriteStage)
        requires
            old(self).valid(),
        ensures
            final(self).valid(),
            final(self)@ == (MetricsModel {
                state_write_errors: counted(old(self)@.state_write_errors, seq![stage.label()]),
                ..old(self)@
            }),
    {
        inc1(&mut self.board, STATE_WRITE_ERRORS, stage.as_str());
    }

    /// Count a realtime sample rejected, or cut, at integration.
    ///
    /// Deliberately *not* a dropped frame: that family means "the frame never
    /// reached any metric", while these frames are decoded, exported as gauges
    /// and counted as decoded. Reusing it would count the same frame twice.
    fn record_sample_rejected(&mut self, fault: SampleFault)
        requires
            old(self).valid(),
        ensures
            final(self).valid(),
            final(self)@ == (MetricsModel {
                coulomb_samples_rejected: counted(
                    old(self)@.coulomb_samples_rejected,
                    seq![fault.label()],
                ),
                ..old(self)@
            }),
    {
        inc1(&mut self.board, COULOMB_SAMPLES_REJECTED, fault.as_str());
    }

    /// Render the metrics in the text exposition format, after its content type.
    pub fn render(&self) -> (r: (String, String))
        requires
            self.valid(),
        ensures
            r.0@ == "text/plain; version=0.0.4"@,
            self@.exposed_by(r.1@),
    {
        let text = self.board.gather_text();
        proof {
            self.lemma_rendered(text@);
        }
        (text_format(), text)
    }

    proof fn lemma_gauge_place(&self, f: Family)
        requires
            self.valid(),
        ensures
            f.kind_of() is IntGauge ==> 0 <= int_place(f) < self.board@.int_gauges.len()
                && self.board@.int_gauges[int_place(f)].about == f.about()
                && self.board@.int_gauges[int_place(f)].series == self@.gauge_series(f),
            !(f.kind_of() is IntGauge) ==> self@.gauge_series(f) == Table::<i64>::empty(),
    {
        if f.kind_of() is IntGauge {
            assert(int_gauge_families()[int_place(f)] == f);
        }
    }

    proof fn lemma_counter_place(&self, f: Family)
        requires
            self.valid(),
        ensures
            f.kind_of() is IntCounter ==> 0 <= int_place(f) < self.board@.int_counters.len()
                && self.board@.int_counters[int_place(f)].about == f.about()
                && self.board@.int_counters[int_place(f)].series == self@.counter_series(f),
            !(f.kind_of() is IntCounter) ==> self@.counter_series(f) == Table::<u64>::empty(),
    {
        if f.kind_of() is IntCounter {
            assert(int_counter_families()[int_place(f)] == f);
        }
    }

    proof fn lemma_gauge_sample(&self, line: Seq<char>)
        requires
            self.valid(),
            gauge_sample(self.board@, line),
        ensures
            self@.has_gauge_sample(line),
    {
        let b = self.board@;
        let (i, slot) = choose|i: int, slot: u64|
            0 <= i < b.int_gauges.len() && (#[trigger] b.int_gauges[i].series.dom().contains(slot))
                && is_sample(
                line,
                head_of(b.int_gauges[i].about, b.int_gauges[i].series[slot].0),
                b.int_gauges[i].series[slot].1 as int,
            );
        let f = int_gauge_families()[i];
        self.lemma_gauge_place(f);
        assert(int_place(f) == i && f.kind_of() is IntGauge);
        assert(self@.gauge_series(f).dom().contains(slot));
    }

    proof fn lemma_counter_sample(&self, line: Seq<char>)
        requires
            self.valid(),
            counter_sample(self.board@, line),
        ensures
            self@.has_counter_sample(line),
    {
        let b = self.board@;
        let (i, slot) = choose|i: int, slot: u64|
            0 <= i < b.int_counters.len() && (
            #[trigger] b.int_counters[i].series.dom().contains(slot)) && is_sample(
                line,
                head_of(b.int_counters[i].about, b.int_counters[i].series[slot].0),
                b.int_counters[i].series[slot].1 as int,
            );
        let f = int_counter_families()[i];
        self.lemma_counter_place(f);
        assert(int_place(f) == i && f.kind_of() is IntCounter);
        assert(self@.counter_series(f).dom().contains(slot));
    }

    /// An exposition of the board is one of the metrics on it.
    proof fn lemma_rendered(&self, text: Seq<char>)
        requires
            self.valid(),
            renders(self.board@, text),
        ensures
            self@.exposed_by(text),
    {
        let b = self.board@;
        let m = self@;
        assert forall|f: Family, slot: u64| #[trigger]
            m.gauge_series(f).dom().contains(slot) implies shows_heading(
            text,
            f.name_text(),
            f.help_text(),
            "gauge"@,
        ) && shows_sample(
            text,
            head_of(f.about(), m.gauge_series(f)[slot].0),
            m.gauge_series(f)[slot].1 as int,
        ) by {
            self.lemma_gauge_place(f);
            assert(b.int_gauges[int_place(f)].series.dom().contains(slot));
        }
        assert forall|f: Family, slot: u64| #[trigger]
            m.counter_series(f).dom().contains(slot) implies shows_heading(
            text,
            f.name_text(),
            f.help_text(),
            "counter"@,
        ) && shows_sample(
            text,
            head_of(f.about(), m.counter_series(f)[slot].0),
            m.counter_series(f)[slot].1 as int,
        ) by {
            self.lemma_counter_place(f);
            assert(b.int_counters[int_place(f)].series.dom().contains(slot));
        }
        assert(b.scalars[0] == Family::StateLastWriteTimestamp.about());
        assert forall|line: Seq<char>| #[trigger] has_line(text, line) implies is_comment(line)
            || m.has_gauge_sample(line) || m.has_counter_sample(line) || m.has_shared_sample(line)
            || m.has_zero_sample(line) by {
            if gauge_sample(b, line) {
                self.lemma_gauge_sample(line);
            } else if counter_sample(b, line) {
                self.lemma_counter_sample(line);
            }
        }
    }
}

// --- Accounting ---
/// The rejection counter after a sample.
pub open spec fn rejections(table: Table<u64>, what: SampleOutcome) -> Table<u64> {
    match what {
        SampleOutcome::Rejected(fault) => counted(table, seq![fault.label()]),
        SampleOutcome::Integrated { clamped: true } => counted(
            table,
            seq![SampleFault::ClampedDelta.label()],
        ),
        _ => table,
    }
}

/// The metrics after a sample.
pub open spec fn sample_applied(
    m: MetricsModel,
    sn: Seq<char>,
    current_ma: Option<i32>,
    pack_mv: Option<u32>,
    now_us: u64,
) -> MetricsModel {
    MetricsModel {
        coulombs: accumulated(m.coulombs, m.options, sn, current_ma, pack_mv, now_us),
        coulomb_samples_rejected: rejections(
            m.coulomb_samples_rejected,
            outcome(m.coulombs, m.options, sn, current_ma, pack_mv, now_us),
        ),
        ..m
    }
}

impl Metrics {
    /// Whether a telemetry frame for `sn` should be processed: `true` for an
    /// already-tracked device or while under the device cap; `false` once the
    /// cap is reached for a new serial (bounds cardinality).
    pub fn admit_device(&mut self, sn: &str) -> (r: bool)
        requires
            old(self).valid(),
        ensures
            final(self).valid(),
            final(self)@ == (MetricsModel {
                coulombs: admitted(old(self)@.coulombs, sn@, old(self)@.options.max_devices),
                ..old(self)@
            }),
            r == (tracks(old(self)@.coulombs.devices, sn@) || has_room(
                old(self)@.coulombs.devices,
                old(self)@.options.max_devices,
            )),
    {
        self.coulombs.admit_device(sn, self.options.max_devices)
    }

    /// Integrate pack current into charge and, when a pack voltage is present,
    /// measured power into energy. Call once per accepted realtime frame with
    /// the wall-clock time; trapezoidal over the interval since the previous
    /// frame.
    ///
    /// Three bounds keep an anomalous frame out of the monotonic counters: the
    /// gap cap on the interval, the plausibility gate on the reading, and the
    /// per-frame ceilings on the resulting delta.
    ///
    /// The deltas wait until [`Metrics::flush_coulomb_state`]; a flush is due
    /// exactly when the sample was integrated.
    pub fn accumulate_coulombs(
        &mut self,
        sn: &str,
        current_ma: Option<i32>,
        pack_mv: Option<u32>,
        now_us: u64,
    ) -> (r: SampleOutcome)
        requires
            old(self).valid(),
        ensures
            final(self).valid(),
            final(self)@ == sample_applied(old(self)@, sn@, current_ma, pack_mv, now_us),
            r == outcome(
                old(self)@.coulombs,
                old(self)@.options,
                sn@,
                current_ma,
                pack_mv,
                now_us,
            ),
    {
        let what = self.coulombs.accumulate(&self.options, sn, current_ma, pack_mv, now_us);
        match what {
            SampleOutcome::Rejected(fault) => {
                self.record_sample_rejected(fault);
            },
            SampleOutcome::Integrated { clamped } => {
                if clamped {
                    self.record_sample_rejected(SampleFault::ClampedDelta);
                }
            },
            _ => {},
        }
        what
    }

    /// Restore persisted totals so that they survive a restart. Restored serials
    /// still honour the device cap. Call once at startup; gives the number of
    /// devices restored.
    pub fn restore_coulombs(&mut self, rows: &Vec<Row>) -> (r: usize)
        requires
            old(self).valid(),
        ensures
            final(self).valid(),
            final(self)@ == (MetricsModel {
                coulombs: restored(
                    old(self)@.coulombs,
                    row_views(rows@),
                    old(self)@.options.max_devices,
                ),
                ..old(self)@
            }),
            r == restored_count(
                old(self)@.coulombs,
                row_views(rows@),
                old(self)@.options.max_devices,
            ),
    {
        self.coulombs.restore(rows, self.options.max_devices)
    }

    /// Begin persisting now (e.g. on graceful shutdown), bypassing the throttle.
    pub fn persist_coulombs(&mut self, now_us: u64) -> (r: FlushStep)
        requires
            old(self).valid(),
        ensures
            final(self).valid(),
            final(self)@ == (MetricsModel {
                coulombs: flush_begun(old(self)@.coulombs, old(self)@.options, true, now_us),
                ..old(self)@
            }),
            step_fits(r, old(self)@, final(self)@, true, now_us),
    {
        self.flush_coulomb_state(true, now_us)
    }

    /// Begin moving waiting deltas towards the counters: decide whether to write
    /// and, if so, hand out the rows. Write them with no lock held, then call
    /// [`Metrics::finish_flush`].
    pub fn flush_coulomb_state(&mut self, force: bool, now_us: u64) -> (r: FlushStep)
        requires
            old(self).valid(),
        ensures
            final(self).valid(),
            final(self)@ == (MetricsModel {
                coulombs: flush_begun(old(self)@.coulombs, old(self)@.options, force, now_us),
                ..old(self)@
            }),
            step_fits(r, old(self)@, final(self)@, force, now_us),
    {
        self.coulombs.begin_flush(&self.options, force, now_us)
    }

    /// Finish a flush: the counters advance only if the rows are durably
    /// written. Gives the totals the counters show from here on.
    pub fn finish_flush(&mut self, written: bool, now_us: u64) -> (r: Vec<Row>)
        requires
            old(self).valid(),
            old(self)@.coulombs.writing,
        ensures
            final(self).valid(),
            final(self)@ == (MetricsModel {
                coulombs: flush_finished(old(self)@.coulombs, written, now_us),
                ..old(self)@
            }),
            row_views(r@) == file_rows(final(self)@.coulombs.devices),
    {
        self.coulombs.finish_flush(written, now_us)
    }

    /// Give a flush up before anything was written; the deltas stay queued.
    pub fn abort_flush(&mut self)
        requires
            old(self).valid(),
            old(self)@.coulombs.writing,
        ensures
            final(self).valid(),
            final(self)@ == (MetricsModel {
                coulombs: flush_aborted(old(self)@.coulombs),
                ..old(self)@
            }),
    {
        self.coulombs.abort_flush();
    }

    /// Whether a flush has begun and not finished.
    pub fn is_writing(&self) -> (r: bool)
        ensures
            r == self@.coulombs.writing,
    {
        self.coulombs.is_writing()
    }
}

/// Whether a flush answered as its state asks, with the rows of its new state.
pub open spec fn step_fits(
    r: FlushStep,
    before: MetricsModel,
    after: MetricsModel,
    force: bool,
    now_us: u64,
) -> bool {
    let kind = flush_kind(before.coulombs, before.options, force, now_us);
    match r {
        FlushStep::Idle => kind is Idle,
        FlushStep::Applied(rows) => kind is Applied && row_views(rows@) == file_rows(
            after.coulombs.devices,
        ),
        FlushStep::Write(rows) => kind is Write && row_views(rows@) == file_rows(
            after.coulombs.devices,
        ),
    }
}

// --- Realtime frames ---
/// Bits of the alarm register that are exported as flags of their own.
pub const ALARM_DIFF_VOLT_L1: u16 = 0x0100;

pub const ALARM_DIFF_VOLT_L2: u16 = 0x0200;

/// The table after an optional value is set for a device.
pub open spec fn maybe_written(table: Table<i64>, sn: Seq<char>, v: Option<i64>) -> Table<i64> {
    match v {
        Some(v) => written(table, seq![sn], v),
        None => table,
    }
}

/// A count as a gauge value.
pub open spec fn as_count(v: Option<u16>) -> Option<i64> {
    match v {
        Some(n) => Some(n as i64),
        None => None,
    }
}

/// A flag as a gauge value: 1 when set.
pub open spec fn as_flag(v: Option<bool>) -> Option<i64> {
    match v {
        Some(true) => Some(1),
        Some(false) => Some(0),
        None => None,
    }
}

/// One alarm flag as a gauge value.
pub open spec fn alarm_value(bits: u16, mask: u16) -> i64 {
    if bits & mask != 0 {
        1
    } else {
        0
    }
}

/// The alarm flags after a frame.
pub open spec fn alarms_written(table: Table<i64>, sn: Seq<char>, bits: Option<u16>) -> Table<i64> {
    match bits {
        Some(bits) => written(
            written(table, seq![sn, "diff_volt_l1"@], alarm_value(bits, ALARM_DIFF_VOLT_L1)),
            seq![sn, "diff_volt_l2"@],
            alarm_value(bits, ALARM_DIFF_VOLT_L2),
        ),
        None => table,
    }
}

/// The gauge updates of a realtime frame, given the cells and sensors that had a
/// series before.
pub open spec fn realtime_updates(
    cells: Seq<u32>,
    sensors: Seq<u32>,
    d: RealtimeData,
) -> Seq<GaugeUpdate> {
    synced(Family::CellVoltage, cells, d.cells_mv@) + synced(
        Family::Temperature,
        sensors,
        d.temps_c@,
    )
        + reading_update(Family::PackVoltage, SeriesLabel::Device, d.pack_dv)
        + reading_update(Family::Current, SeriesLabel::Device, d.current_da)
        + reading_update(Family::Soc, SeriesLabel::Device, d.soc_permille)
        + reading_update(Family::RemainingCapacity, SeriesLabel::Device, d.remaining_dah)
        + reading_update(Family::CellVoltageMax, SeriesLabel::Device, d.cell_max_mv)
        + reading_update(Family::CellVoltageMin, SeriesLabel::Device, d.cell_min_mv)
        + reading_update(Family::CellVoltageAvg, SeriesLabel::Device, d.cell_avg_mv)
        + reading_update(Family::CellVoltageDelta, SeriesLabel::Device, d.cell_delta_mv)
        + reading_update(Family::TemperatureMax, SeriesLabel::Device, d.temp_max_c)
        + reading_update(Family::TemperatureMin, SeriesLabel::Device, d.temp_min_c)
        + reading_update(Family::MosTemperature, SeriesLabel::Device, d.mos_temp_c)
        + reading_update(Family::BalanceCurrent, SeriesLabel::Device, d.balance_current_da)
}

/// The metrics after a realtime frame. Past the device cap nothing changes.
pub open spec fn realtime_applied(m: MetricsModel, sn: Seq<char>, d: RealtimeData) -> MetricsModel {
    match with_device(m.coulombs.devices, sn, m.options.max_devices) {
        None => m,
        Some(devices) => {
            let i = place(devices, sn);
            MetricsModel {
                coulombs: CoulombModel {
                    devices: devices.update(
                        i,
                        DeviceModel {
                            cells: indices(d.cells_mv@),
                            sensors: indices(d.temps_c@),
                            realtime_serial: latest_serial(
                                text_view(d.serial),
                                devices[i].realtime_serial,
                            ),
                            ..devices[i]
                        },
                    ),
                    ..m.coulombs
                },
                charge_cycles: maybe_written(m.charge_cycles, sn, as_count(d.cycles)),
                balancing_cell_count: maybe_written(m.balancing_cell_count, sn, as_count(d.balancing_cells)),
                charge_mos: maybe_written(m.charge_mos, sn, as_flag(d.charge_mos)),
                discharge_mos: maybe_written(m.discharge_mos, sn, as_flag(d.discharge_mos)),
                balancer_active: maybe_written(m.balancer_active, sn, as_flag(d.balancer_active)),
                alarm_bits: maybe_written(m.alarm_bits, sn, as_count(d.alarm_bits)),
                alarm: alarms_written(m.alarm, sn, d.alarm_bits),
                ..m
            }
        },
    }
}

/// What a realtime frame asks of the gauges.
pub open spec fn realtime_asks(
    m: MetricsModel,
    sn: Seq<char>,
    d: RealtimeData,
) -> Seq<GaugeUpdate> {
    match with_device(m.coulombs.devices, sn, m.options.max_devices) {
        None => Seq::empty(),
        Some(devices) => realtime_updates(
            devices[place(devices, sn)].cells,
            devices[place(devices, sn)].sensors,
            d,
        ),
    }
}

fn set_int_gauge(board: &mut Board, i: usize, sn: &str, v: Option<i64>)
    requires
        i < old(board)@.int_gauges.len(),
        old(board)@.int_gauges[i as int].about.2.len() == 1,
    ensures
        final(board)@ == old(board)@.with_gauge_series(
            i as int,
            maybe_written(old(board)@.int_gauges[i as int].series, sn@, v),
        ),
{
    if let Some(v) = v {
        let labels: Vec<&str> = vec![sn];
        proof {
            assert(label_values(labels@) =~= seq![sn@]);
        }
        board.set(i, labels.as_slice(), v);
    } else {
        proof {
            let same = board@.with_gauge_series(i as int, board@.int_gauges[i as int].series);
            assert(same.int_gauges =~= board@.int_gauges);
            assert(same =~= board@);
        }
    }
}

fn set_alarm(board: &mut Board, i: usize, sn: &str, name: &str, on: bool)
    requires
        i < old(board)@.int_gauges.len(),
        old(board)@.int_gauges[i as int].about.2.len() == 2,
    ensures
        final(board)@ == old(board)@.with_gauge_series(
            i as int,
            written(
                old(board)@.int_gauges[i as int].series,
                seq![sn@, name@],
                if on {
                    1i64
                } else {
                    0i64
                },
            ),
        ),
{
    let labels: Vec<&str> = vec![sn, name];
    proof {
        assert(label_values(labels@) =~= seq![sn@, name@]);
    }
    board.set(
        i,
        labels.as_slice(),
        if on {
            1
        } else {
            0
        },
    );
}

fn count(v: Option<u16>) -> (r: Option<i64>)
    ensures
        r == as_count(v),
{
    match v {
        Some(n) => Some(n as i64),
        None => None,
    }
}

fn flag(v: Option<bool>) -> (r: Option<i64>)
    ensures
        r == as_flag(v),
{
    match v {
        Some(on) => if on {
            Some(1)
        } else {
            Some(0)
        },
        None => None,
    }
}

fn copy_text(s: &Option<String>) -> (r: Option<String>)
    ensures
        text_view(r) == text_view(*s),
{
    match s {
        Some(s) => Some(s.clone()),
        None => None,
    }
}

impl Metrics {
    /// Apply a decoded realtime frame, pruning stale per-cell/sensor series.
    /// Whole-number families change here; the updates returned are for the
    /// others, in order.
    pub fn update_realtime(&mut self, sn: &str, d: &RealtimeData) -> (r: Vec<GaugeUpdate>)
        requires
            old(self).valid(),
        ensures
            final(self).valid(),
            final(self)@ == realtime_applied(old(self)@, sn@, *d),
            r@ == realtime_asks(old(self)@, sn@, *d),
    {
        let mut out: Vec<GaugeUpdate> = Vec::new();
        let i: usize = match self.coulombs.track(sn, self.options.max_devices) {
            Some(i) => i,
            None => {
                return out;
            },
        };
        let (cells, sensors) = self.coulombs.swap_series(
            i,
            indices_of(&d.cells_mv),
            indices_of(&d.temps_c),
            copy_text(&d.serial),
        );
        sync_indexed(&mut out, Family::CellVoltage, &cells, &d.cells_mv);
        sync_indexed(&mut out, Family::Temperature, &sensors, &d.temps_c);
        set_gauge(&mut out, Family::PackVoltage, d.pack_dv);
        set_gauge(&mut out, Family::Current, d.current_da);
        set_gauge(&mut out, Family::Soc, d.soc_permille);
        set_gauge(&mut out, Family::RemainingCapacity, d.remaining_dah);
        set_gauge(&mut out, Family::CellVoltageMax, d.cell_max_mv);
        set_gauge(&mut out, Family::CellVoltageMin, d.cell_min_mv);
        set_gauge(&mut out, Family::CellVoltageAvg, d.cell_avg_mv);
        set_gauge(&mut out, Family::CellVoltageDelta, d.cell_delta_mv);
        set_gauge(&mut out, Family::TemperatureMax, d.temp_max_c);
        set_gauge(&mut out, Family::TemperatureMin, d.temp_min_c);
        set_gauge(&mut out, Family::MosTemperature, d.mos_temp_c);
        set_gauge(&mut out, Family::BalanceCurrent, d.balance_current_da);
        proof {
            assert(out@ =~= realtime_updates(cells@, sensors@, *d));
        }
        set_int_gauge(&mut self.board, CHARGE_CYCLES, sn, count(d.cycles));
        set_int_gauge(&mut self.board, BALANCING_CELL_COUNT, sn, count(d.balancing_cells));
        set_int_gauge(&mut self.board, CHARGE_MOS, sn, flag(d.charge_mos));
        set_int_gauge(&mut self.board, DISCHARGE_MOS, sn, flag(d.discharge_mos));
        set_int_gauge(&mut self.board, BALANCER_ACTIVE, sn, flag(d.balancer_active));
        set_int_gauge(&mut self.board, ALARM_BITS, sn, count(d.alarm_bits));
        if let Some(bits) = d.alarm_bits {
            set_alarm(&mut self.board, ALARM, sn, "diff_volt_l1", bits & ALARM_DIFF_VOLT_L1 != 0);
            set_alarm(&mut self.board, ALARM, sn, "diff_volt_l2", bits & ALARM_DIFF_VOLT_L2 != 0);
        }
        out
    }
}

// --- Config frames ---
/// The gauge updates of a config frame.
pub open spec fn config_updates(c: ConfigData) -> Seq<GaugeUpdate> {
    reading_update(Family::RatedCapacity, SeriesLabel::Device, c.rated_capacity_dah)
        + reading_update(Family::CellReferenceVoltage, SeriesLabel::Device, c.cell_reference_mv)
        + limit_updates(Family::CellVoltageHighLimit, c.cell_high_mv)
        + limit_updates(Family::CellVoltageLowLimit, c.cell_low_mv)
        + limit_updates(Family::PackVoltageHighLimit, c.pack_high_dv)
        + limit_updates(Family::PackVoltageLowLimit, c.pack_low_dv)
        + limit_updates(Family::ChargeOvercurrentLimit, c.charge_overcurrent_da)
        + limit_updates(Family::DischargeOvercurrentLimit, c.discharge_overcurrent_da)
        + limit_updates(Family::ChargeTempHighLimit, c.charge_temp_high_c)
        + limit_updates(Family::ChargeTempLowLimit, c.charge_temp_low_c)
        + limit_updates(Family::DischargeTempHighLimit, c.discharge_temp_high_c)
        + reading_update(Family::DiffTempLimit, SeriesLabel::Device, c.diff_temp_c)
        + reading_update(Family::FanOnTemperature, SeriesLabel::Device, c.fan_on_temp_c)
        + reading_update(Family::ConfigBalanceCurrent, SeriesLabel::Device, c.balance_current_da)
}

/// A label value; an absent field is shown empty.
pub open spec fn label_or_empty(s: Option<String>) -> Seq<char> {
    match s {
        Some(s) => s@,
        None => Seq::empty(),
    }
}

/// The identity series of a device. The real pack serial is shown when a
/// realtime frame has supplied one, otherwise the transport-level `sn`.
pub open spec fn identity_of(d: DeviceModel, sn: Seq<char>, c: ConfigData) -> Seq<Seq<char>> {
    seq![
        sn,
        match d.realtime_serial {
            Some(serial) => serial,
            None => sn,
        },
        label_or_empty(c.machine_code),
        label_or_empty(c.sw_version),
        label_or_empty(c.hw_version),
    ]
}

/// The identity family after a device shows `now` in place of `previous`. A
/// device that varies its identity would otherwise mint unbounded series, so a
/// tuple that differs is dropped first.
pub open spec fn identity_shown(
    table: Table<i64>,
    previous: Option<Seq<Seq<char>>>,
    now: Seq<Seq<char>>,
) -> Table<i64> {
    let pruned = match previous {
        Some(old_labels) => if old_labels != now {
            dropped(table, old_labels)
        } else {
            table
        },
        None => table,
    };
    written(pruned, now, 1)
}

/// The metrics after a config frame. Past the device cap nothing changes.
pub open spec fn config_applied(m: MetricsModel, sn: Seq<char>, c: ConfigData) -> MetricsModel {
    match with_device(m.coulombs.devices, sn, m.options.max_devices) {
        None => m,
        Some(devices) => {
            let i = place(devices, sn);
            let identity = identity_of(devices[i], sn, c);
            MetricsModel {
                coulombs: CoulombModel {
                    devices: devices.update(
                        i,
                        DeviceModel { device_info: Some(identity), ..devices[i] },
                    ),
                    ..m.coulombs
                },
                balance_enable: maybe_written(m.balance_enable, sn, as_flag(c.balance_enable)),
                device_info: identity_shown(m.device_info, devices[i].device_info, identity),
                ..m
            }
        },
    }
}

/// What a config frame asks of the gauges. Past the device cap it asks nothing.
pub open spec fn config_asks(m: MetricsModel, sn: Seq<char>, c: ConfigData) -> Seq<GaugeUpdate> {
    match with_device(m.coulombs.devices, sn, m.options.max_devices) {
        None => Seq::empty(),
        Some(_) => config_updates(c),
    }
}

fn text_or_empty(s: &Option<String>) -> (r: String)
    ensures
        r@ == label_or_empty(*s),
{
    match s {
        Some(s) => s.clone(),
        None => {
            let r = String::new();
            proof {
                assert(r@ =~= Seq::<char>::empty());
            }
            r
        },
    }
}

fn same_identity(a: &Identity, b: &Identity) -> (r: bool)
    ensures
        r == (a@ == b@),
{
    let r = same_text(a.sn.as_str(), b.sn.as_str()) && same_text(
        a.serial.as_str(),
        b.serial.as_str(),
    ) && same_text(a.machine_code.as_str(), b.machine_code.as_str()) && same_text(
        a.sw_version.as_str(),
        b.sw_version.as_str(),
    ) && same_text(a.hw_version.as_str(), b.hw_version.as_str());
    proof {
        if r {
            assert(a@ =~= b@);
        } else {
            assert(a@[0] != b@[0] || a@[1] != b@[1] || a@[2] != b@[2] || a@[3] != b@[3] || a@[4]
                != b@[4]);
        }
    }
    r
}

fn identity_labels(identity: &Identity) -> (r: Vec<&str>)
    ensures
        label_values(r@) == identity@,
        r@.len() == 5,
{
    let r: Vec<&str> = vec![
        identity.sn.as_str(),
        identity.serial.as_str(),
        identity.machine_code.as_str(),
        identity.sw_version.as_str(),
        identity.hw_version.as_str(),
    ];
    proof {
        assert(label_values(r@) =~= identity@);
    }
    r
}

impl Identity {
    fn duplicate(&self) -> (r: Identity)
        ensures
            r@ == self@,
    {
        Identity {
            sn: self.sn.clone(),
            serial: self.serial.clone(),
            machine_code: self.machine_code.clone(),
            sw_version: self.sw_version.clone(),
            hw_version: self.hw_version.clone(),
        }
    }
}

impl Metrics {
    /// Apply a decoded config frame. Whole-number families change here; the
    /// updates returned are for the others, in order. The device cap holds here
    /// too: a serial past it gets no series.
    pub fn update_config(&mut self, sn: &str, c: &ConfigData) -> (r: Vec<GaugeUpdate>)
        requires
            old(self).valid(),
        ensures
            final(self).valid(),
            final(self)@ == config_applied(old(self)@, sn@, *c),
            r@ == config_asks(old(self)@, sn@, *c),
    {
        let mut out: Vec<GaugeUpdate> = Vec::new();
        let i: usize = match self.coulombs.track(sn, self.options.max_devices) {
            Some(i) => i,
            None => {
                return out;
            },
        };
        set_gauge(&mut out, Family::RatedCapacity, c.rated_capacity_dah);
        set_gauge(&mut out, Family::CellReferenceVoltage, c.cell_reference_mv);
        set_limit(&mut out, Family::CellVoltageHighLimit, c.cell_high_mv);
        set_limit(&mut out, Family::CellVoltageLowLimit, c.cell_low_mv);
        set_limit(&mut out, Family::PackVoltageHighLimit, c.pack_high_dv);
        set_limit(&mut out, Family::PackVoltageLowLimit, c.pack_low_dv);
        set_limit(&mut out, Family::ChargeOvercurrentLimit, c.charge_overcurrent_da);
        set_limit(&mut out, Family::DischargeOvercurrentLimit, c.discharge_overcurrent_da);
        set_limit(&mut out, Family::ChargeTempHighLimit, c.charge_temp_high_c);
        set_limit(&mut out, Family::ChargeTempLowLimit, c.charge_temp_low_c);
        set_limit(&mut out, Family::DischargeTempHighLimit, c.discharge_temp_high_c);
        set_gauge(&mut out, Family::DiffTempLimit, c.diff_temp_c);
        set_gauge(&mut out, Family::FanOnTemperature, c.fan_on_temp_c);
        set_gauge(&mut out, Family::ConfigBalanceCurrent, c.balance_current_da);
        proof {
            assert(out@ =~= config_updates(*c));
        }
        set_int_gauge(&mut self.board, BALANCE_ENABLE, sn, flag(c.balance_enable));
        let serial = match self.coulombs.realtime_serial(i) {
            Some(serial) => serial,
            None => sn.to_owned(),
        };
        let identity = Identity {
            sn: sn.to_owned(),
            serial,
            machine_code: text_or_empty(&c.machine_code),
            sw_version: text_or_empty(&c.sw_version),
            hw_version: text_or_empty(&c.hw_version),
        };
        proof {
            assert(identity@ =~= identity_of(self@.coulombs.devices[i as int], sn@, *c));
        }
        self.set_device_info(i, identity);
        out
    }

    /// Prune the previous identity series (if it changed) and set the current
    /// one to `1`, recording it on the device.
    fn set_device_info(&mut self, i: usize, identity: Identity)
        requires
            old(self).valid(),
            i < old(self)@.coulombs.devices.len(),
        ensures
            final(self).valid(),
            final(self)@ == (MetricsModel {
                coulombs: CoulombModel {
                    devices: old(self)@.coulombs.devices.update(
                        i as int,
                        DeviceModel {
                            device_info: Some(identity@),
                            ..old(self)@.coulombs.devices[i as int]
                        },
                    ),
                    ..old(self)@.coulombs
                },
                device_info: identity_shown(
                    old(self)@.device_info,
                    old(self)@.coulombs.devices[i as int].device_info,
                    identity@,
                ),
                ..old(self)@
            }),
    {
        let previous = self.coulombs.swap_identity(i, identity.duplicate());
        if let Some(old_identity) = previous {
            if !same_identity(&old_identity, &identity) {
                self.board.remove(DEVICE_INFO, identity_labels(&old_identity).as_slice());
            }
        }
        self.board.set(DEVICE_INFO, identity_labels(&identity).as_slice(), 1);
    }
}

} // verus!
