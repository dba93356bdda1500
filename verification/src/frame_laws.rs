//! What a frame leaves in the series of its device, whatever they showed before.

use vstd::prelude::*;

use crate::coulomb::{
    accumulated, distinct, outcome, place, tracks, with_device, DeviceModel, SampleFault,
    SampleOutcome,
};
use crate::coulomb_laws::{is_full, is_known, is_nothing, lemma_with_device};
use crate::decode::{ConfigData, Limits, Reading, RealtimeData};
use crate::families::{padded, Family};
use crate::metrics::{
    config_applied, config_asks, config_updates, indexed_updates, limit_updates, present,
    reading_update, realtime_applied, realtime_asks, realtime_updates, rejections, sample_applied,
    stale_updates, synced, GaugeUpdate, MetricsModel, MetricsOptions, SeriesLabel, WriteStage,
};
use crate::series::{series_slot, Table};

verus! {

// --- What a series shows ---
/// What a series of a device shows once the updates have been made, in order: the
/// last one for it decides.
pub open spec fn shown(
    us: Seq<GaugeUpdate>,
    family: Family,
    label: SeriesLabel,
    before: Option<i32>,
) -> Option<i32>
    decreases us.len(),
{
    if us.len() == 0 {
        before
    } else if us.last().family == family && us.last().label == label {
        us.last().change
    } else {
        shown(us.drop_last(), family, label, before)
    }
}

/// A reading if there is one, else what was shown before.
pub open spec fn or_before(v: Option<i32>, before: Option<i32>) -> Option<i32> {
    if v is Some {
        v
    } else {
        before
    }
}

proof fn lemma_shown_after(
    a: Seq<GaugeUpdate>,
    b: Seq<GaugeUpdate>,
    family: Family,
    label: SeriesLabel,
    before: Option<i32>,
)
    ensures
        shown(a + b, family, label, before) == shown(
            b,
            family,
            label,
            shown(a, family, label, before),
        ),
    decreases b.len(),
{
    if b.len() == 0 {
        assert(a + b =~= a);
    } else {
        assert((a + b).drop_last() =~= a + b.drop_last());
        assert((a + b).last() == b.last());
        lemma_shown_after(a, b.drop_last(), family, label, before);
    }
}

proof fn lemma_shown_reading(
    f: Family,
    l: SeriesLabel,
    v: Option<i32>,
    family: Family,
    label: SeriesLabel,
    before: Option<i32>,
)
    ensures
        shown(reading_update(f, l, v), family, label, before) == (if f == family && l == label {
            or_before(v, before)
        } else {
            before
        }),
{
    reveal_with_fuel(shown, 2);
}

proof fn lemma_then_reading(
    us: Seq<GaugeUpdate>,
    f: Family,
    l: SeriesLabel,
    v: Option<i32>,
    family: Family,
    label: SeriesLabel,
    before: Option<i32>,
)
    ensures
        shown(us + reading_update(f, l, v), family, label, before) == (if f == family && l
            == label {
            or_before(v, shown(us, family, label, before))
        } else {
            shown(us, family, label, before)
        }),
{
    lemma_shown_after(us, reading_update(f, l, v), family, label, before);
    lemma_shown_reading(f, l, v, family, label, shown(us, family, label, before));
}

proof fn lemma_then_limits(
    us: Seq<GaugeUpdate>,
    f: Family,
    l: Limits,
    family: Family,
    label: SeriesLabel,
    before: Option<i32>,
)
    ensures
        shown(us + limit_updates(f, l), family, label, before) == (if f == family && label
            == SeriesLabel::Warning {
            or_before(l.warning, shown(us, family, label, before))
        } else if f == family && label == SeriesLabel::Protection {
            or_before(l.protection, shown(us, family, label, before))
        } else {
            shown(us, family, label, before)
        }),
{
    let warn = us + reading_update(f, SeriesLabel::Warning, l.warning);
    lemma_then_reading(us, f, SeriesLabel::Warning, l.warning, family, label, before);
    lemma_then_reading(warn, f, SeriesLabel::Protection, l.protection, family, label, before);
    assert(us + limit_updates(f, l) =~= warn + reading_update(
        f,
        SeriesLabel::Protection,
        l.protection,
    ));
}

// --- Config frames ---
/// The threshold pair that a config frame has for a family.
pub open spec fn thresholds(c: ConfigData, family: Family) -> Option<Limits> {
    match family {
        Family::CellVoltageHighLimit => Some(c.cell_high_mv),
        Family::CellVoltageLowLimit => Some(c.cell_low_mv),
        Family::PackVoltageHighLimit => Some(c.pack_high_dv),
        Family::PackVoltageLowLimit => Some(c.pack_low_dv),
        Family::ChargeOvercurrentLimit => Some(c.charge_overcurrent_da),
        Family::DischargeOvercurrentLimit => Some(c.discharge_overcurrent_da),
        Family::ChargeTempHighLimit => Some(c.charge_temp_high_c),
        Family::ChargeTempLowLimit => Some(c.charge_temp_low_c),
        Family::DischargeTempHighLimit => Some(c.discharge_temp_high_c),
        _ => None,
    }
}

/// The single reading that a config frame has for a family.
pub open spec fn setting(c: ConfigData, family: Family) -> Option<i32> {
    match family {
        Family::RatedCapacity => c.rated_capacity_dah,
        Family::CellReferenceVoltage => c.cell_reference_mv,
        Family::DiffTempLimit => c.diff_temp_c,
        Family::FanOnTemperature => c.fan_on_temp_c,
        Family::ConfigBalanceCurrent => c.balance_current_da,
        _ => None,
    }
}

/// What a config frame says of a series.
pub open spec fn config_says(c: ConfigData, family: Family, label: SeriesLabel) -> Option<i32> {
    match (label, thresholds(c, family)) {
        (SeriesLabel::Device, _) => setting(c, family),
        (SeriesLabel::Warning, Some(l)) => l.warning,
        (SeriesLabel::Protection, Some(l)) => l.protection,
        _ => None,
    }
}

#[verifier::rlimit(40)]
proof fn lemma_config_updates(
    c: ConfigData,
    family: Family,
    label: SeriesLabel,
    before: Option<i32>,
)
    ensures
        shown(config_updates(c), family, label, before) == or_before(
            config_says(c, family, label),
            before,
        ),
{
    let dev = SeriesLabel::Device;
    let u0 = reading_update(Family::RatedCapacity, dev, c.rated_capacity_dah);
    lemma_shown_reading(Family::RatedCapacity, dev, c.rated_capacity_dah, family, label, before);
    let u1 = u0 + reading_update(Family::CellReferenceVoltage, dev, c.cell_reference_mv);
    lemma_then_reading(u0, Family::CellReferenceVoltage, dev, c.cell_reference_mv, family, label, before);
    let u2 = u1 + limit_updates(Family::CellVoltageHighLimit, c.cell_high_mv);
    lemma_then_limits(u1, Family::CellVoltageHighLimit, c.cell_high_mv, family, label, before);
    let u3 = u2 + limit_updates(Family::CellVoltageLowLimit, c.cell_low_mv);
    lemma_then_limits(u2, Family::CellVoltageLowLimit, c.cell_low_mv, family, label, before);
    let u4 = u3 + limit_updates(Family::PackVoltageHighLimit, c.pack_high_dv);
    lemma_then_limits(u3, Family::PackVoltageHighLimit, c.pack_high_dv, family, label, before);
    let u5 = u4 + limit_updates(Family::PackVoltageLowLimit, c.pack_low_dv);
    lemma_then_limits(u4, Family::PackVoltageLowLimit, c.pack_low_dv, family, label, before);
    let u6 = u5 + limit_updates(Family::ChargeOvercurrentLimit, c.charge_overcurrent_da);
    lemma_then_limits(u5, Family::ChargeOvercurrentLimit, c.charge_overcurrent_da, family, label, before);
    let u7 = u6 + limit_updates(Family::DischargeOvercurrentLimit, c.discharge_overcurrent_da);
    lemma_then_limits(u6, Family::DischargeOvercurrentLimit, c.discharge_overcurrent_da, family, label, before);
    let u8 = u7 + limit_updates(Family::ChargeTempHighLimit, c.charge_temp_high_c);
    lemma_then_limits(u7, Family::ChargeTempHighLimit, c.charge_temp_high_c, family, label, before);
    let u9 = u8 + limit_updates(Family::ChargeTempLowLimit, c.charge_temp_low_c);
    lemma_then_limits(u8, Family::ChargeTempLowLimit, c.charge_temp_low_c, family, label, before);
    let u10 = u9 + limit_updates(Family::DischargeTempHighLimit, c.discharge_temp_high_c);
    lemma_then_limits(u9, Family::DischargeTempHighLimit, c.discharge_temp_high_c, family, label, before);
    let u11 = u10 + reading_update(Family::DiffTempLimit, dev, c.diff_temp_c);
    lemma_then_reading(u10, Family::DiffTempLimit, dev, c.diff_temp_c, family, label, before);
    let u12 = u11 + reading_update(Family::FanOnTemperature, dev, c.fan_on_temp_c);
    lemma_then_reading(u11, Family::FanOnTemperature, dev, c.fan_on_temp_c, family, label, before);
    let u13 = u12 + reading_update(Family::ConfigBalanceCurrent, dev, c.balance_current_da);
    lemma_then_reading(u12, Family::ConfigBalanceCurrent, dev, c.balance_current_da, family, label, before);
    assert(u13 == config_updates(c));
}

/// After the updates of a config frame each series of the device shows what the
/// frame says of it, and where the frame says nothing, what it showed before.
pub proof fn law_config_frames_are_shown(
    m: MetricsModel,
    sn: Seq<char>,
    c: ConfigData,
    family: Family,
    label: SeriesLabel,
    before: Option<i32>,
)
    requires
        is_known(m.coulombs, sn) || !is_full(m.coulombs, m.options.max_devices),
    ensures
        shown(config_asks(m, sn, c), family, label, before) == or_before(
            config_says(c, family, label),
            before,
        ),
{
    lemma_config_updates(c, family, label, before);
    assert(is_known(m.coulombs, sn) <==> tracks(m.coulombs.devices, sn));
}

/// After a config frame the series labelled `warning` of each threshold family
/// shows the warning value of its pair, and the one labelled `protection` the
/// protection value.
pub proof fn law_thresholds_keep_their_labels(
    m: MetricsModel,
    sn: Seq<char>,
    c: ConfigData,
    family: Family,
    before: Option<i32>,
)
    requires
        is_known(m.coulombs, sn) || !is_full(m.coulombs, m.options.max_devices),
        thresholds(c, family) is Some,
    ensures
        ({
            let us = config_asks(m, sn, c);
            let l = thresholds(c, family)->Some_0;
            &&& l.warning is Some ==> shown(us, family, SeriesLabel::Warning, before) == l.warning
            &&& l.protection is Some ==> shown(us, family, SeriesLabel::Protection, before)
                == l.protection
            &&& l.warning is None ==> shown(us, family, SeriesLabel::Warning, before) == before
            &&& l.protection is None ==> shown(us, family, SeriesLabel::Protection, before)
                == before
            &&& SeriesLabel::Warning.text() == Some("warning"@)
            &&& SeriesLabel::Protection.text() == Some("protection"@)
        }),
{
    law_config_frames_are_shown(m, sn, c, family, SeriesLabel::Warning, before);
    law_config_frames_are_shown(m, sn, c, family, SeriesLabel::Protection, before);
}

// --- Realtime frames ---
/// The numbered readings that a realtime frame has for a family.
pub open spec fn numbered(d: RealtimeData, family: Family) -> Option<Seq<Reading>> {
    match family {
        Family::CellVoltage => Some(d.cells_mv@),
        Family::Temperature => Some(d.temps_c@),
        _ => None,
    }
}

/// The single reading that a realtime frame has for a family.
pub open spec fn measured(d: RealtimeData, family: Family) -> Option<i32> {
    match family {
        Family::PackVoltage => d.pack_dv,
        Family::Current => d.current_da,
        Family::Soc => d.soc_permille,
        Family::RemainingCapacity => d.remaining_dah,
        Family::CellVoltageMax => d.cell_max_mv,
        Family::CellVoltageMin => d.cell_min_mv,
        Family::CellVoltageAvg => d.cell_avg_mv,
        Family::CellVoltageDelta => d.cell_delta_mv,
        Family::TemperatureMax => d.temp_max_c,
        Family::TemperatureMin => d.temp_min_c,
        Family::MosTemperature => d.mos_temp_c,
        Family::BalanceCurrent => d.balance_current_da,
        _ => None,
    }
}

/// What the last reading with a number says, if there is one.
pub open spec fn last_reading(cur: Seq<Reading>, n: u32) -> Option<i32>
    decreases cur.len(),
{
    if cur.len() == 0 {
        None
    } else if cur.last().index == n {
        Some(cur.last().value)
    } else {
        last_reading(cur.drop_last(), n)
    }
}

proof fn lemma_last_reading(cur: Seq<Reading>, n: u32)
    ensures
        last_reading(cur, n) is Some <==> present(cur, n),
    decreases cur.len(),
{
    if cur.len() > 0 {
        let head = cur.drop_last();
        lemma_last_reading(head, n);
        if present(head, n) {
            let k = choose|k: int| 0 <= k < head.len() && (#[trigger] head[k]).index == n;
            assert(cur[k].index == n);
        }
        if present(cur, n) && cur.last().index != n {
            let k = choose|k: int| 0 <= k < cur.len() && (#[trigger] cur[k]).index == n;
            assert(head[k].index == n);
        }
        if cur.last().index == n {
            assert(cur[cur.len() - 1].index == n);
        }
    }
}

proof fn lemma_stale_shown(
    f: Family,
    prev: Seq<u32>,
    cur: Seq<Reading>,
    family: Family,
    label: SeriesLabel,
    before: Option<i32>,
)
    ensures
        shown(stale_updates(f, prev, cur), family, label, before) == (match label {
            SeriesLabel::Index(n) => if f == family && prev.contains(n) && !present(cur, n) {
                None
            } else {
                before
            },
            _ => before,
        }),
    decreases prev.len(),
{
    if prev.len() > 0 {
        let head = prev.drop_last();
        lemma_stale_shown(f, head, cur, family, label, before);
        let us = stale_updates(f, head, cur);
        if let SeriesLabel::Index(n) = label {
            if head.contains(n) {
                let k = choose|k: int| 0 <= k < head.len() && head[k] == n;
                assert(prev[k] == n);
            }
            if prev.contains(n) && prev.last() != n {
                let k = choose|k: int| 0 <= k < prev.len() && prev[k] == n;
                assert(head[k] == n);
            }
            if prev.last() == n {
                assert(prev[prev.len() - 1] == n);
            }
        }
        if !present(cur, prev.last()) {
            let u = GaugeUpdate {
                family: f,
                label: SeriesLabel::Index(prev.last()),
                change: None,
            };
            assert(us.push(u).drop_last() =~= us);
        }
    }
}

proof fn lemma_indexed_shown(
    f: Family,
    cur: Seq<Reading>,
    family: Family,
    label: SeriesLabel,
    before: Option<i32>,
)
    ensures
        shown(indexed_updates(f, cur), family, label, before) == (match label {
            SeriesLabel::Index(n) => if f == family {
                or_before(last_reading(cur, n), before)
            } else {
                before
            },
            _ => before,
        }),
    decreases cur.len(),
{
    if cur.len() > 0 {
        lemma_indexed_shown(f, cur.drop_last(), family, label, before);
        assert(indexed_updates(f, cur).drop_last() =~= indexed_updates(f, cur.drop_last()));
    }
}

proof fn lemma_synced_shown(
    us: Seq<GaugeUpdate>,
    f: Family,
    prev: Seq<u32>,
    cur: Seq<Reading>,
    family: Family,
    label: SeriesLabel,
    before: Option<i32>,
)
    ensures
        shown(us + synced(f, prev, cur), family, label, before) == (match label {
            SeriesLabel::Index(n) => if f != family {
                shown(us, family, label, before)
            } else if last_reading(cur, n) is Some {
                last_reading(cur, n)
            } else if prev.contains(n) {
                None
            } else {
                shown(us, family, label, before)
            },
            _ => shown(us, family, label, before),
        }),
{
    let stale = stale_updates(f, prev, cur);
    let mid = shown(us, family, label, before);
    lemma_shown_after(us, synced(f, prev, cur), family, label, before);
    lemma_shown_after(stale, indexed_updates(f, cur), family, label, mid);
    lemma_stale_shown(f, prev, cur, family, label, mid);
    lemma_indexed_shown(f, cur, family, label, shown(stale, family, label, mid));
    if let SeriesLabel::Index(n) = label {
        lemma_last_reading(cur, n);
    }
}

/// What a series shows after a realtime frame, given the numbers that the cells and
/// sensors had before: a reading of the frame; nothing, for a numbered series that
/// the frame has no reading for any more; else what it showed before.
pub open spec fn realtime_shows(
    cells: Seq<u32>,
    sensors: Seq<u32>,
    d: RealtimeData,
    family: Family,
    label: SeriesLabel,
    before: Option<i32>,
) -> Option<i32> {
    let former = if family == Family::CellVoltage {
        cells
    } else {
        sensors
    };
    match (label, numbered(d, family)) {
        (SeriesLabel::Device, _) => or_before(measured(d, family), before),
        (SeriesLabel::Index(n), Some(cur)) => if last_reading(cur, n) is Some {
            last_reading(cur, n)
        } else if former.contains(n) {
            None
        } else {
            before
        },
        _ => before,
    }
}

#[verifier::rlimit(40)]
proof fn lemma_realtime_updates(
    cells: Seq<u32>,
    sensors: Seq<u32>,
    d: RealtimeData,
    family: Family,
    label: SeriesLabel,
    before: Option<i32>,
)
    ensures
        shown(realtime_updates(cells, sensors, d), family, label, before) == realtime_shows(
            cells,
            sensors,
            d,
            family,
            label,
            before,
        ),
{
    let dev = SeriesLabel::Device;
    let none = Seq::<GaugeUpdate>::empty();
    let c0 = synced(Family::CellVoltage, cells, d.cells_mv@);
    assert(none + c0 =~= c0);
    lemma_synced_shown(none, Family::CellVoltage, cells, d.cells_mv@, family, label, before);
    let u0 = c0 + synced(Family::Temperature, sensors, d.temps_c@);
    lemma_synced_shown(c0, Family::Temperature, sensors, d.temps_c@, family, label, before);
    let u1 = u0 + reading_update(Family::PackVoltage, dev, d.pack_dv);
    lemma_then_reading(u0, Family::PackVoltage, dev, d.pack_dv, family, label, before);
    let u2 = u1 + reading_update(Family::Current, dev, d.current_da);
    lemma_then_reading(u1, Family::Current, dev, d.current_da, family, label, before);
    let u3 = u2 + reading_update(Family::Soc, dev, d.soc_permille);
    lemma_then_reading(u2, Family::Soc, dev, d.soc_permille, family, label, before);
    let u4 = u3 + reading_update(Family::RemainingCapacity, dev, d.remaining_dah);
    lemma_then_reading(u3, Family::RemainingCapacity, dev, d.remaining_dah, family, label, before);
    let u5 = u4 + reading_update(Family::CellVoltageMax, dev, d.cell_max_mv);
    lemma_then_reading(u4, Family::CellVoltageMax, dev, d.cell_max_mv, family, label, before);
    let u6 = u5 + reading_update(Family::CellVoltageMin, dev, d.cell_min_mv);
    lemma_then_reading(u5, Family::CellVoltageMin, dev, d.cell_min_mv, family, label, before);
    let u7 = u6 + reading_update(Family::CellVoltageAvg, dev, d.cell_avg_mv);
    lemma_then_reading(u6, Family::CellVoltageAvg, dev, d.cell_avg_mv, family, label, before);
    let u8 = u7 + reading_update(Family::CellVoltageDelta, dev, d.cell_delta_mv);
    lemma_then_reading(u7, Family::CellVoltageDelta, dev, d.cell_delta_mv, family, label, before);
    let u9 = u8 + reading_update(Family::TemperatureMax, dev, d.temp_max_c);
    lemma_then_reading(u8, Family::TemperatureMax, dev, d.temp_max_c, family, label, before);
    let u10 = u9 + reading_update(Family::TemperatureMin, dev, d.temp_min_c);
    lemma_then_reading(u9, Family::TemperatureMin, dev, d.temp_min_c, family, label, before);
    let u11 = u10 + reading_update(Family::MosTemperature, dev, d.mos_temp_c);
    lemma_then_reading(u10, Family::MosTemperature, dev, d.mos_temp_c, family, label, before);
    let u12 = u11 + reading_update(Family::BalanceCurrent, dev, d.balance_current_da);
    lemma_then_reading(u11, Family::BalanceCurrent, dev, d.balance_current_da, family, label, before);
    assert(u12 == realtime_updates(cells, sensors, d));
}

/// After the updates of a realtime frame of a known device each of its series shows
/// what the frame says of it. Numbered series without a reading are gone.
pub proof fn law_realtime_frames_are_shown(
    m: MetricsModel,
    sn: Seq<char>,
    d: RealtimeData,
    i: int,
    family: Family,
    label: SeriesLabel,
    before: Option<i32>,
)
    requires
        distinct(m.coulombs.devices),
        0 <= i < m.coulombs.devices.len(),
        m.coulombs.devices[i].sn == sn,
    ensures
        shown(realtime_asks(m, sn, d), family, label, before) == realtime_shows(
            m.coulombs.devices[i].cells,
            m.coulombs.devices[i].sensors,
            d,
            family,
            label,
            before,
        ),
{
    lemma_place_of(m, sn, i);
    lemma_realtime_updates(
        m.coulombs.devices[i].cells,
        m.coulombs.devices[i].sensors,
        d,
        family,
        label,
        before,
    );
}

/// The first realtime frame of a device that there is room for is shown in the same
/// way; nothing is removed.
pub proof fn law_first_realtime_frame_is_shown(
    m: MetricsModel,
    sn: Seq<char>,
    d: RealtimeData,
    family: Family,
    label: SeriesLabel,
    before: Option<i32>,
)
    requires
        distinct(m.coulombs.devices),
        !is_known(m.coulombs, sn),
        !is_full(m.coulombs, m.options.max_devices),
    ensures
        shown(realtime_asks(m, sn, d), family, label, before) == realtime_shows(
            Seq::empty(),
            Seq::empty(),
            d,
            family,
            label,
            before,
        ),
{
    lemma_place_of_new(m, sn);
    lemma_realtime_updates(Seq::empty(), Seq::empty(), d, family, label, before);
}

proof fn lemma_place_of(m: MetricsModel, sn: Seq<char>, i: int)
    requires
        distinct(m.coulombs.devices),
        0 <= i < m.coulombs.devices.len(),
        m.coulombs.devices[i].sn == sn,
    ensures
        with_device(m.coulombs.devices, sn, m.options.max_devices) == Some(m.coulombs.devices),
        place(m.coulombs.devices, sn) == i,
{
    let devices = m.coulombs.devices;
    lemma_with_device(devices, sn, m.options.max_devices);
    assert(tracks(devices, sn));
    let at = place(devices, sn);
    if at < i {
        assert(devices[at].sn != devices[i].sn);
    } else if i < at {
        assert(devices[i].sn != devices[at].sn);
    }
}

proof fn lemma_place_of_new(m: MetricsModel, sn: Seq<char>)
    requires
        distinct(m.coulombs.devices),
        !is_known(m.coulombs, sn),
        !is_full(m.coulombs, m.options.max_devices),
    ensures
        with_device(m.coulombs.devices, sn, m.options.max_devices) == Some(
            m.coulombs.devices.push(DeviceModel::fresh(sn)),
        ),
        place(m.coulombs.devices.push(DeviceModel::fresh(sn)), sn) == m.coulombs.devices.len(),
{
    let devices = m.coulombs.devices;
    lemma_with_device(devices, sn, m.options.max_devices);
    assert(!tracks(devices, sn));
    let now = with_device(devices, sn, m.options.max_devices)->Some_0;
    assert(now =~= devices.push(DeviceModel::fresh(sn)));
    let at = place(now, sn);
    if at < devices.len() {
        assert(devices[at].sn == sn);
    }
}

/// Past the device cap frames of unknown devices ask nothing and change nothing.
pub proof fn law_nothing_past_the_cap(
    m: MetricsModel,
    sn: Seq<char>,
    d: RealtimeData,
    c: ConfigData,
)
    requires
        !is_known(m.coulombs, sn),
        is_full(m.coulombs, m.options.max_devices),
    ensures
        realtime_asks(m, sn, d).len() == 0,
        config_asks(m, sn, c).len() == 0,
        realtime_applied(m, sn, d) == m,
        config_applied(m, sn, c) == m,
{
    assert(!tracks(m.coulombs.devices, sn));
}

// --- Whole-number families ---
/// Whether a table went from `a` to `b` by one series taking a value; a new series
/// is shown under its labels, and no other series changed.
pub open spec fn takes(a: Table<i64>, b: Table<i64>, labels: Seq<Seq<char>>, v: i64) -> bool {
    let slot = series_slot(labels);
    &&& b.dom() == a.dom().insert(slot)
    &&& b[slot].1 == v
    &&& b[slot].0 == (if a.dom().contains(slot) {
        a[slot].0
    } else {
        labels
    })
    &&& forall|s: u64| s != slot && #[trigger] a.dom().contains(s) ==> b[s] == a[s]
}

/// Whether a table followed an optional reading of a device.
pub open spec fn follows(a: Table<i64>, b: Table<i64>, sn: Seq<char>, v: Option<i64>) -> bool {
    match v {
        Some(v) => takes(a, b, seq![sn], v),
        None => b == a,
    }
}

/// A register as a reading.
pub open spec fn number(v: Option<u16>) -> Option<i64> {
    match v {
        Some(n) => Some(n as i64),
        None => None,
    }
}

/// A switch as a reading: one is on, zero is off.
pub open spec fn switch(v: Option<bool>) -> Option<i64> {
    match v {
        Some(on) => Some(
            if on {
                1i64
            } else {
                0i64
            },
        ),
        None => None,
    }
}

/// A bit of a register, as a reading.
pub open spec fn bit(bits: u16, worth: u16) -> i64 {
    ((bits / worth) % 2) as i64
}

/// What a realtime frame does to the whole-number gauges: counts, switches, the
/// alarm register as it is and its two bits of their own. Readings that the frame
/// lacks leave their gauges alone, and no other family changes.
pub proof fn law_realtime_frames_set_whole_gauges(m: MetricsModel, sn: Seq<char>, d: RealtimeData)
    requires
        is_known(m.coulombs, sn) || !is_full(m.coulombs, m.options.max_devices),
    ensures
        ({
            let next = realtime_applied(m, sn, d);
            let first = seq![sn, "diff_volt_l1"@];
            let second = seq![sn, "diff_volt_l2"@];
            &&& follows(m.charge_cycles, next.charge_cycles, sn, number(d.cycles))
            &&& follows(
                m.balancing_cell_count,
                next.balancing_cell_count,
                sn,
                number(d.balancing_cells),
            )
            &&& follows(m.alarm_bits, next.alarm_bits, sn, number(d.alarm_bits))
            &&& follows(m.charge_mos, next.charge_mos, sn, switch(d.charge_mos))
            &&& follows(m.discharge_mos, next.discharge_mos, sn, switch(d.discharge_mos))
            &&& follows(m.balancer_active, next.balancer_active, sn, switch(d.balancer_active))
            &&& d.alarm_bits is None ==> next.alarm == m.alarm
            &&& d.alarm_bits is Some ==> exists|mid: Table<i64>|
                takes(m.alarm, mid, first, bit(d.alarm_bits->Some_0, 256)) && #[trigger] takes(
                    mid,
                    next.alarm,
                    second,
                    bit(d.alarm_bits->Some_0, 512),
                )
            &&& next.balance_enable == m.balance_enable
            &&& next.device_info == m.device_info
            &&& next.http_requests == m.http_requests
            &&& next.frames_decoded == m.frames_decoded
            &&& next.frames_dropped == m.frames_dropped
            &&& next.coulomb_samples_rejected == m.coulomb_samples_rejected
            &&& next.state_write_errors == m.state_write_errors
            &&& next.options == m.options
        }),
{
    assert(is_known(m.coulombs, sn) <==> tracks(m.coulombs.devices, sn));
    let next = realtime_applied(m, sn, d);
    if let Some(n) = number(d.cycles) {
        lemma_takes(m.charge_cycles, seq![sn], n);
    }
    if let Some(n) = number(d.balancing_cells) {
        lemma_takes(m.balancing_cell_count, seq![sn], n);
    }
    if let Some(n) = number(d.alarm_bits) {
        lemma_takes(m.alarm_bits, seq![sn], n);
    }
    if let Some(n) = switch(d.charge_mos) {
        lemma_takes(m.charge_mos, seq![sn], n);
    }
    if let Some(n) = switch(d.discharge_mos) {
        lemma_takes(m.discharge_mos, seq![sn], n);
    }
    if let Some(n) = switch(d.balancer_active) {
        lemma_takes(m.balancer_active, seq![sn], n);
    }
    if let Some(bits) = d.alarm_bits {
        assert((bits & 0x0100 != 0) == ((bits / 256) % 2 == 1)) by (bit_vector);
        assert((bits & 0x0200 != 0) == ((bits / 512) % 2 == 1)) by (bit_vector);
        let first = seq![sn, "diff_volt_l1"@];
        let second = seq![sn, "diff_volt_l2"@];
        lemma_takes(m.alarm, first, bit(bits, 256));
        let mid = crate::series::written(m.alarm, first, bit(bits, 256));
        lemma_takes(mid, second, bit(bits, 512));
        assert(takes(m.alarm, mid, first, bit(bits, 256)) && takes(
            mid,
            next.alarm,
            second,
            bit(bits, 512),
        ));
    }
}

proof fn lemma_takes(a: Table<i64>, labels: Seq<Seq<char>>, v: i64)
    ensures
        takes(a, crate::series::written(a, labels, v), labels, v),
{
    let b = crate::series::written(a, labels, v);
    assert(b.dom() =~= a.dom().insert(series_slot(labels)));
}

/// What a realtime frame leaves noted of its device: the numbers of its readings and
/// its serial, if it has one. Nothing that is counted changes, and no other device.
pub proof fn law_realtime_frames_are_noted(
    m: MetricsModel,
    sn: Seq<char>,
    d: RealtimeData,
    i: int,
)
    requires
        distinct(m.coulombs.devices),
        0 <= i < m.coulombs.devices.len(),
        m.coulombs.devices[i].sn == sn,
    ensures
        ({
            let next = realtime_applied(m, sn, d).coulombs;
            let a = m.coulombs.devices[i];
            let b = next.devices[i];
            &&& next.devices.len() == m.coulombs.devices.len()
            &&& b.cells.len() == d.cells_mv@.len()
            &&& forall|k: int| 0 <= k < b.cells.len() ==> #[trigger] b.cells[k]
                == d.cells_mv@[k].index
            &&& b.sensors.len() == d.temps_c@.len()
            &&& forall|k: int| 0 <= k < b.sensors.len() ==> #[trigger] b.sensors[k]
                == d.temps_c@[k].index
            &&& d.serial is Some ==> b.realtime_serial == Some(d.serial->Some_0@)
            &&& d.serial is None ==> b.realtime_serial == a.realtime_serial
            &&& b.sn == a.sn && b.baseline == a.baseline && b.device_info == a.device_info
            &&& b.pending == a.pending && b.in_flight == a.in_flight && b.exported == a.exported
            &&& forall|k: int|
                0 <= k < next.devices.len() && k != i ==> #[trigger] next.devices[k]
                    == m.coulombs.devices[k]
            &&& next.writing == m.coulombs.writing
            &&& next.last_persist_at == m.coulombs.last_persist_at
        }),
{
    lemma_place_of(m, sn, i);
}

/// A label; a field that is missing is shown empty.
pub open spec fn or_blank(s: Option<String>) -> Seq<char> {
    match s {
        Some(s) => s@,
        None => seq![],
    }
}

/// What a config frame does to the identity of a known device: one series at one,
/// labelled with the name it connects under, the serial its realtime frames gave
/// (else that name again), its code and its two versions. The series it had before
/// goes, if it was another. Its balancer switch follows the frame.
pub proof fn law_config_frames_show_identities(
    m: MetricsModel,
    sn: Seq<char>,
    c: ConfigData,
    i: int,
)
    requires
        distinct(m.coulombs.devices),
        0 <= i < m.coulombs.devices.len(),
        m.coulombs.devices[i].sn == sn,
    ensures
        ({
            let next = config_applied(m, sn, c);
            let a = m.coulombs.devices[i];
            let b = next.coulombs.devices[i];
            let serial = if a.realtime_serial is Some {
                a.realtime_serial->Some_0
            } else {
                sn
            };
            let now = b.device_info->Some_0;
            &&& b.device_info is Some
            &&& now.len() == 5
            &&& now[0] == sn
            &&& now[1] == serial
            &&& now[2] == or_blank(c.machine_code)
            &&& now[3] == or_blank(c.sw_version)
            &&& now[4] == or_blank(c.hw_version)
            &&& a.device_info is None || a.device_info == b.device_info ==> takes(
                m.device_info,
                next.device_info,
                now,
                1,
            )
            &&& a.device_info is Some && a.device_info != b.device_info ==> takes(
                m.device_info.remove(series_slot(a.device_info->Some_0)),
                next.device_info,
                now,
                1,
            )
            &&& follows(m.balance_enable, next.balance_enable, sn, switch(c.balance_enable))
            &&& b.sn == a.sn && b.baseline == a.baseline && b.realtime_serial == a.realtime_serial
            &&& b.cells == a.cells && b.sensors == a.sensors
            &&& b.pending == a.pending && b.in_flight == a.in_flight && b.exported == a.exported
            &&& next.coulombs.devices.len() == m.coulombs.devices.len()
            &&& forall|k: int|
                0 <= k < m.coulombs.devices.len() && k != i ==> #[trigger] next.coulombs.devices[k]
                    == m.coulombs.devices[k]
            &&& next.charge_mos == m.charge_mos && next.discharge_mos == m.discharge_mos
            &&& next.charge_cycles == m.charge_cycles && next.alarm == m.alarm
            &&& next.balancer_active == m.balancer_active && next.alarm_bits == m.alarm_bits
            &&& next.balancing_cell_count == m.balancing_cell_count
            &&& next.frames_decoded == m.frames_decoded
            &&& next.frames_dropped == m.frames_dropped
            &&& next.http_requests == m.http_requests
        }),
{
    lemma_place_of(m, sn, i);
    let next = config_applied(m, sn, c);
    let a = m.coulombs.devices[i];
    let now = next.coulombs.devices[i].device_info->Some_0;
    if a.device_info is Some && a.device_info->Some_0 != now {
        lemma_takes(m.device_info.remove(series_slot(a.device_info->Some_0)), now, 1);
    } else {
        lemma_takes(m.device_info, now, 1);
    }
    if let Some(n) = switch(c.balance_enable) {
        lemma_takes(m.balance_enable, seq![sn], n);
    }
}

/// The first frame of a device that there is room for starts it, last in the list: a
/// realtime frame with its numbers and its serial, a config frame with its identity,
/// which shows the name it connects under for the serial it has not given yet.
/// Nothing is counted, and no other device changes.
pub proof fn law_first_frames_start_devices(
    m: MetricsModel,
    sn: Seq<char>,
    d: RealtimeData,
    c: ConfigData,
)
    requires
        distinct(m.coulombs.devices),
        !is_known(m.coulombs, sn),
        !is_full(m.coulombs, m.options.max_devices),
    ensures
        ({
            let n = m.coulombs.devices.len();
            let told = realtime_applied(m, sn, d);
            let set = config_applied(m, sn, c);
            let a = told.coulombs.devices[n as int];
            let b = set.coulombs.devices[n as int];
            let now = b.device_info->Some_0;
            &&& told.coulombs.devices.len() == n + 1 && set.coulombs.devices.len() == n + 1
            &&& a.sn == sn && b.sn == sn
            &&& a.baseline is None && b.baseline is None
            &&& is_nothing(a.pending) && is_nothing(a.in_flight) && is_nothing(a.exported)
            &&& is_nothing(b.pending) && is_nothing(b.in_flight) && is_nothing(b.exported)
            &&& a.cells.len() == d.cells_mv@.len()
            &&& forall|k: int| 0 <= k < a.cells.len() ==> #[trigger] a.cells[k]
                == d.cells_mv@[k].index
            &&& a.sensors.len() == d.temps_c@.len()
            &&& forall|k: int| 0 <= k < a.sensors.len() ==> #[trigger] a.sensors[k]
                == d.temps_c@[k].index
            &&& d.serial is Some ==> a.realtime_serial == Some(d.serial->Some_0@)
            &&& d.serial is None ==> a.realtime_serial is None
            &&& a.device_info is None
            &&& b.device_info is Some && b.realtime_serial is None
            &&& b.cells.len() == 0 && b.sensors.len() == 0
            &&& now == seq![
                sn,
                sn,
                or_blank(c.machine_code),
                or_blank(c.sw_version),
                or_blank(c.hw_version),
            ]
            &&& takes(m.device_info, set.device_info, now, 1)
            &&& follows(m.balance_enable, set.balance_enable, sn, switch(c.balance_enable))
            &&& forall|k: int|
                0 <= k < n ==> #[trigger] told.coulombs.devices[k] == m.coulombs.devices[k]
            &&& forall|k: int|
                0 <= k < n ==> #[trigger] set.coulombs.devices[k] == m.coulombs.devices[k]
        }),
{
    lemma_place_of_new(m, sn);
    let set = config_applied(m, sn, c);
    let now = set.coulombs.devices[m.coulombs.devices.len() as int].device_info->Some_0;
    lemma_takes(m.device_info, now, 1);
    if let Some(v) = switch(c.balance_enable) {
        lemma_takes(m.balance_enable, seq![sn], v);
    }
}

/// Whether a counter went up by one, back to zero at the top of its range, and no
/// other counter of its family changed.
pub open spec fn ticks(a: Table<u64>, b: Table<u64>, labels: Seq<Seq<char>>) -> bool {
    let slot = series_slot(labels);
    let n = if a.dom().contains(slot) {
        a[slot].1 as int
    } else {
        0
    };
    &&& b.dom() == a.dom().insert(slot)
    &&& b[slot].1 == (if n == 0xffff_ffff_ffff_ffff {
        0
    } else {
        n + 1
    })
    &&& forall|s: u64| s != slot && #[trigger] a.dom().contains(s) ==> b[s] == a[s]
}

/// A rejected sample is counted under its fault, a cut one as cut, and no other
/// sample is counted.
pub proof fn law_rejections_are_counted(table: Table<u64>, what: SampleOutcome)
    ensures
        match what {
            SampleOutcome::Rejected(SampleFault::ImplausibleCurrent) => ticks(
                table,
                rejections(table, what),
                seq!["implausible_current"@],
            ),
            SampleOutcome::Rejected(SampleFault::ImplausibleVoltage) => ticks(
                table,
                rejections(table, what),
                seq!["implausible_voltage"@],
            ),
            SampleOutcome::Rejected(SampleFault::ClampedDelta) => ticks(
                table,
                rejections(table, what),
                seq!["clamped_delta"@],
            ),
            SampleOutcome::Integrated { clamped: true } => ticks(
                table,
                rejections(table, what),
                seq!["clamped_delta"@],
            ),
            _ => rejections(table, what) == table,
        },
{
    match what {
        SampleOutcome::Rejected(fault) => {
            lemma_ticks(table, seq![fault.label()]);
        },
        SampleOutcome::Integrated { clamped: true } => {
            lemma_ticks(table, seq![SampleFault::ClampedDelta.label()]);
        },
        _ => {},
    }
}

pub proof fn lemma_ticks(table: Table<u64>, labels: Seq<Seq<char>>)
    ensures
        ticks(table, crate::series::counted(table, labels), labels),
{
    let b = crate::series::counted(table, labels);
    assert(b.dom() =~= table.dom().insert(series_slot(labels)));
}

/// A sample is accounted for and, where it is rejected or cut, counted; nothing else
/// of the metrics changes.
pub proof fn law_samples_touch_the_accounting(
    m: MetricsModel,
    sn: Seq<char>,
    current_ma: Option<i32>,
    pack_mv: Option<u32>,
    now_us: u64,
)
    ensures
        ({
            let next = sample_applied(m, sn, current_ma, pack_mv, now_us);
            let what = outcome(m.coulombs, m.options, sn, current_ma, pack_mv, now_us);
            &&& next.coulombs == accumulated(
                m.coulombs,
                m.options,
                sn,
                current_ma,
                pack_mv,
                now_us,
            )
            &&& next.coulomb_samples_rejected == rejections(m.coulomb_samples_rejected, what)
            &&& next == (MetricsModel {
                coulombs: next.coulombs,
                coulomb_samples_rejected: next.coulomb_samples_rejected,
                ..m
            })
        }),
{
}

/// The labels of the series of a family: none but the serial, a number of two digits
/// at least, or the level of a threshold.
pub proof fn law_series_labels(label: SeriesLabel)
    ensures
        label is Device ==> label.text() is None,
        label matches SeriesLabel::Index(n) ==> label.text() == Some(padded(n)),
        label is Warning ==> label.text() == Some("warning"@),
        label is Protection ==> label.text() == Some("protection"@),
{
}

/// The labels of the stages of a write.
pub proof fn law_write_stages(stage: WriteStage)
    ensures
        stage is Serialize ==> stage.label() == "serialize"@,
        stage is CreateDir ==> stage.label() == "create_dir"@,
        stage is Create ==> stage.label() == "create"@,
        stage is Write ==> stage.label() == "write"@,
        stage is Sync ==> stage.label() == "sync"@,
        stage is Rename ==> stage.label() == "rename"@,
        stage is DirSync ==> stage.label() == "dirsync"@,
{
}

/// The knobs used when nothing is configured: fifteen minutes of gap, 64 devices, no
/// persistence, up to 100 A, 18 to 34 V, and 25 Ah and 900 Wh in a frame.
pub proof fn law_standard_knobs()
    ensures
        ({
            let o = MetricsOptions::standard();
            &&& o.coulomb_max_gap_secs == 15 * 60
            &&& o.max_devices == 64
            &&& !o.persist_state
            &&& o.state_min_interval_secs == 5
            &&& o.plausibility.max_current_ma is Some
            &&& o.plausibility.max_current_ma->Some_0 == 100 * 1000
            &&& o.plausibility.pack_mv.0 is Some && o.plausibility.pack_mv.0->Some_0 == 18 * 1000
            &&& o.plausibility.pack_mv.1 is Some && o.plausibility.pack_mv.1->Some_0 == 34 * 1000
            &&& o.max_frame_mah is Some && o.max_frame_mah->Some_0 == 25 * 1000
            &&& o.max_frame_mwh is Some && o.max_frame_mwh->Some_0 == 900 * 1000
        }),
{
}

} // verus!
