//! What the metric updates guarantee as a whole.

use vstd::prelude::*;

use crate::coulomb::{
    distinct, flush_begun, place, row_views, tracks, with_device, CoulombModel, DeviceModel,
    FlushStep, RowModel,
};
use crate::coulomb_laws::{
    adds_up, is_nothing, law_flush_begins, law_flush_decisions, law_rows_of_a_file,
    lemma_with_device, something_waits, too_soon, within_cap, write_ahead,
};
use crate::decode::{ConfigData, Reading, RealtimeData};
use crate::exposition::{has_line, is_comment};
use crate::families::Family;
use crate::metrics::{
    config_applied, config_asks, identity_of, indexed_updates, indices, present, realtime_applied,
    realtime_asks, sample_applied, stale_updates, step_fits, synced, GaugeUpdate, MetricsModel,
    MetricsOptions, SeriesLabel,
};
use crate::series::{series_slot, zero_line};

verus! {

// --- Indexed series ---
/// The numbered series of a family and device that exist after an update.
pub open spec fn series_after(series: Set<u32>, u: GaugeUpdate) -> Set<u32> {
    match (u.label, u.change) {
        (SeriesLabel::Index(n), Some(_)) => series.insert(n),
        (SeriesLabel::Index(n), None) => series.remove(n),
        _ => series,
    }
}

/// The numbered series that exist after all updates, in order.
pub open spec fn series_after_all(series: Set<u32>, us: Seq<GaugeUpdate>) -> Set<u32>
    decreases us.len(),
{
    if us.len() == 0 {
        series
    } else {
        series_after(series_after_all(series, us.drop_last()), us.last())
    }
}

/// The numbers of a list.
pub open spec fn numbers(list: Seq<u32>) -> Set<u32> {
    Set::new(|n: u32| list.contains(n))
}

proof fn lemma_after_concat(series: Set<u32>, a: Seq<GaugeUpdate>, b: Seq<GaugeUpdate>)
    ensures
        series_after_all(series, a + b) == series_after_all(series_after_all(series, a), b),
    decreases b.len(),
{
    if b.len() == 0 {
        assert(a + b =~= a);
    } else {
        assert((a + b).drop_last() =~= a + b.drop_last());
        lemma_after_concat(series, a, b.drop_last());
    }
}

proof fn lemma_after_stale(series: Set<u32>, family: Family, prev: Seq<u32>, cur: Seq<Reading>)
    ensures
        series_after_all(series, stale_updates(family, prev, cur)) =~= Set::new(
            |n: u32| series.contains(n) && !(prev.contains(n) && !present(cur, n)),
        ),
    decreases prev.len(),
{
    if prev.len() > 0 {
        let head = prev.drop_last();
        let before = stale_updates(family, head, cur);
        lemma_after_stale(series, family, head, cur);
        assert forall|n: u32| prev.contains(n) <==> head.contains(n) || n == prev.last() by {
            if head.contains(n) {
                let k = choose|k: int| 0 <= k < head.len() && head[k] == n;
                assert(prev[k] == n);
            }
            if prev.contains(n) && n != prev.last() {
                let k = choose|k: int| 0 <= k < prev.len() && prev[k] == n;
                assert(head[k] == n);
            }
            assert(prev[prev.len() - 1] == prev.last());
        }
        if !present(cur, prev.last()) {
            let u = GaugeUpdate {
                family,
                label: SeriesLabel::Index(prev.last()),
                change: None,
            };
            assert(before.push(u).drop_last() =~= before);
        }
    }
}

proof fn lemma_after_indexed(series: Set<u32>, family: Family, cur: Seq<Reading>)
    ensures
        series_after_all(series, indexed_updates(family, cur)) =~= Set::new(
            |n: u32| series.contains(n) || present(cur, n),
        ),
    decreases cur.len(),
{
    let us = indexed_updates(family, cur);
    if cur.len() > 0 {
        let head = cur.drop_last();
        lemma_after_indexed(series, family, head);
        assert(us.drop_last() =~= indexed_updates(family, head));
        assert forall|n: u32| present(cur, n) <==> present(head, n) || n == cur.last().index by {
            if present(head, n) {
                let k = choose|k: int| 0 <= k < head.len() && (#[trigger] head[k]).index == n;
                assert(cur[k].index == n);
            }
            if present(cur, n) && n != cur.last().index {
                let k = choose|k: int| 0 <= k < cur.len() && (#[trigger] cur[k]).index == n;
                assert(head[k].index == n);
            }
            assert(cur[cur.len() - 1].index == cur.last().index);
        }
    }
}

/// After a frame exactly the cells (or sensors) it reports have a series: stale
/// ones are pruned, and nothing else is.
pub proof fn law_indexed_series_follow_the_frame(
    family: Family,
    prev: Seq<u32>,
    cur: Seq<Reading>,
)
    ensures
        series_after_all(numbers(prev), synced(family, prev, cur)) == numbers(indices(cur)),
{
    let start = numbers(prev);
    lemma_after_concat(start, stale_updates(family, prev, cur), indexed_updates(family, cur));
    lemma_after_stale(start, family, prev, cur);
    let pruned = series_after_all(start, stale_updates(family, prev, cur));
    lemma_after_indexed(pruned, family, cur);
    assert forall|n: u32| present(cur, n) <==> indices(cur).contains(n) by {
        if present(cur, n) {
            let k = choose|k: int| 0 <= k < cur.len() && (#[trigger] cur[k]).index == n;
            assert(indices(cur)[k] == n);
        }
        if indices(cur).contains(n) {
            let k = choose|k: int| 0 <= k < indices(cur).len() && indices(cur)[k] == n;
            assert(cur[k].index == n);
        }
    }
    assert(series_after_all(start, synced(family, prev, cur)) =~= numbers(indices(cur)));
}

// --- Identity series ---
/// Whether the current identity series of a device stands in `slot`.
pub open spec fn stands_in(d: DeviceModel, slot: u64) -> bool {
    match d.device_info {
        Some(labels) => series_slot(labels) == slot,
        None => false,
    }
}

/// Whether the identity series in `slot` is the current one of some device.
pub open spec fn owned(devices: Seq<DeviceModel>, slot: u64) -> bool {
    exists|i: int|
        0 <= i < devices.len() && stands_in(#[trigger] devices[i], slot)
}

/// Every identity series is the current one of some device.
pub open spec fn identities_owned(m: MetricsModel) -> bool {
    forall|slot: u64| #[trigger]
        m.device_info.dom().contains(slot) ==> owned(m.coulombs.devices, slot)
}

pub proof fn lemma_owned_kept(a: Seq<DeviceModel>, b: Seq<DeviceModel>, slot: u64)
    requires
        a.len() <= b.len(),
        forall|i: int| 0 <= i < a.len() ==> (#[trigger] b[i]).device_info == a[i].device_info,
        owned(a, slot),
    ensures
        owned(b, slot),
{
    let i = choose|i: int|
        0 <= i < a.len() && stands_in(#[trigger] a[i], slot);
    assert(b[i].device_info == a[i].device_info);
}

/// A device that varies its identity replaces its series and does not add to
/// them: a config frame leaves no identity series without an owner.
pub proof fn law_config_keeps_identities_owned(m: MetricsModel, sn: Seq<char>, c: ConfigData)
    requires
        identities_owned(m),
        distinct(m.coulombs.devices),
    ensures
        identities_owned(config_applied(m, sn, c)),
{
    lemma_with_device(m.coulombs.devices, sn, m.options.max_devices);
    let after = config_applied(m, sn, c);
    if let Some(devices) = with_device(m.coulombs.devices, sn, m.options.max_devices) {
        let i = place(devices, sn);
        let now = identity_of(devices[i], sn, c);
        assert(after.coulombs.devices[i].device_info == Some(now));
        assert forall|slot: u64| #[trigger] after.device_info.dom().contains(slot) implies owned(
            after.coulombs.devices,
            slot,
        ) by {
            if slot != series_slot(now) {
                assert(m.device_info.dom().contains(slot));
                lemma_owned_kept(m.coulombs.devices, devices, slot);
                let k = choose|k: int|
                    0 <= k < devices.len() && stands_in(#[trigger] devices[k], slot);
                if k == i {
                    // The slot of the previous tuple was freed, unless it is the new one.
                    assert(devices[i].device_info matches Some(labels) && labels == now);
                }
                assert(after.coulombs.devices[k].device_info == devices[k].device_info);
            }
        }
    }
}

/// Realtime frames and samples leave the identity series alone.
pub proof fn law_realtime_keeps_identities_owned(
    m: MetricsModel,
    sn: Seq<char>,
    d: RealtimeData,
    current_ma: Option<i32>,
    pack_mv: Option<u32>,
    now_us: u64,
)
    requires
        identities_owned(m),
        distinct(m.coulombs.devices),
    ensures
        identities_owned(realtime_applied(m, sn, d)),
        identities_owned(sample_applied(m, sn, current_ma, pack_mv, now_us)),
{
    lemma_with_device(m.coulombs.devices, sn, m.options.max_devices);
    let a = realtime_applied(m, sn, d);
    assert forall|slot: u64| #[trigger] a.device_info.dom().contains(slot) implies owned(
        a.coulombs.devices,
        slot,
    ) by {
        assert(m.device_info.dom().contains(slot));
        lemma_owned_kept(m.coulombs.devices, a.coulombs.devices, slot);
    }
    let b = sample_applied(m, sn, current_ma, pack_mv, now_us);
    assert forall|slot: u64| #[trigger] b.device_info.dom().contains(slot) implies owned(
        b.coulombs.devices,
        slot,
    ) by {
        assert(m.device_info.dom().contains(slot));
        lemma_owned_kept(m.coulombs.devices, b.coulombs.devices, slot);
    }
}

/// The slots in use for identities.
spec fn owned_slots(devices: Seq<DeviceModel>) -> Set<u64>
    decreases devices.len(),
{
    if devices.len() == 0 {
        Set::empty()
    } else {
        let rest = owned_slots(devices.drop_last());
        match devices.last().device_info {
            Some(labels) => rest.insert(series_slot(labels)),
            None => rest,
        }
    }
}

proof fn lemma_owned_slots(devices: Seq<DeviceModel>)
    ensures
        owned_slots(devices).finite(),
        owned_slots(devices).len() <= devices.len(),
        forall|slot: u64| owned(devices, slot) ==> #[trigger] owned_slots(devices).contains(slot),
    decreases devices.len(),
{
    if devices.len() > 0 {
        let head = devices.drop_last();
        lemma_owned_slots(head);
        assert forall|slot: u64| owned(devices, slot) implies #[trigger] owned_slots(
            devices,
        ).contains(slot) by {
            let i = choose|i: int|
                0 <= i < devices.len() && stands_in(#[trigger] devices[i], slot);
            if i < head.len() {
                assert(head[i] == devices[i]);
                assert(owned(head, slot));
                assert(owned_slots(head).contains(slot));
            }
        }
    }
}

/// There are never more identity series than tracked devices, so the device cap
/// bounds them too.
pub proof fn law_identity_series_are_bounded(m: MetricsModel)
    requires
        identities_owned(m),
    ensures
        m.device_info.dom().finite(),
        m.device_info.dom().len() <= m.coulombs.devices.len(),
{
    let devices = m.coulombs.devices;
    lemma_owned_slots(devices);
    assert(m.device_info.dom().subset_of(owned_slots(devices)));
    vstd::set_lib::lemma_len_subset(m.device_info.dom(), owned_slots(devices));
}

/// Whether an identity series shows the current tuple of some device.
pub open spec fn current(devices: Seq<DeviceModel>, labels: Seq<Seq<char>>) -> bool {
    exists|i: int| 0 <= i < devices.len() && (#[trigger] devices[i]).device_info == Some(labels)
}

/// The identity series are exactly those of the devices: each stands at one in
/// the slot of its labels, which are the current tuple of a device, and every
/// device that has an identity shows it under its serial.
pub open spec fn identities_shown(m: MetricsModel) -> bool {
    let devices = m.coulombs.devices;
    &&& forall|slot: u64| #[trigger]
        m.device_info.dom().contains(slot) ==> {
            &&& current(devices, m.device_info[slot].0)
            &&& series_slot(m.device_info[slot].0) == slot
        }
    &&& forall|i: int|
        0 <= i < devices.len() ==> ((#[trigger] devices[i]).device_info matches Some(labels) ==> {
            &&& labels.len() > 0
            &&& labels[0] == devices[i].sn
            &&& m.device_info.dom().contains(series_slot(labels))
            &&& m.device_info[series_slot(labels)] == (labels, 1i64)
        })
}

/// Whether no other device has an identity in this slot.
pub open spec fn slot_is_free(devices: Seq<DeviceModel>, sn: Seq<char>, slot: u64) -> bool {
    forall|i: int|
        0 <= i < devices.len() && (#[trigger] devices[i]).sn != sn ==> !stands_in(devices[i], slot)
}

/// After a config frame of an admitted device exactly one identity series carries
/// its serial: that of this frame, at one. The series of other serials stay as
/// they were. This holds as long as the labels of the frame do not hash to the
/// slot of another device's identity.
pub proof fn law_one_identity_per_device(
    m: MetricsModel,
    sn: Seq<char>,
    c: ConfigData,
    devices: Seq<DeviceModel>,
)
    requires
        identities_shown(m),
        distinct(m.coulombs.devices),
        with_device(m.coulombs.devices, sn, m.options.max_devices) == Some(devices),
        slot_is_free(
            devices,
            sn,
            series_slot(identity_of(devices[place(devices, sn)], sn, c)),
        ),
    ensures
        ({
            let now = identity_of(devices[place(devices, sn)], sn, c);
            let before = m.device_info;
            let after = config_applied(m, sn, c).device_info;
            &&& identities_shown(config_applied(m, sn, c))
            &&& after.dom().contains(series_slot(now))
            &&& after[series_slot(now)] == (now, 1i64)
            &&& forall|slot: u64| #[trigger]
                after.dom().contains(slot) && after[slot].0[0] == sn ==> slot == series_slot(now)
            &&& forall|slot: u64|
                before.dom().contains(slot) && before[slot].0[0] != sn ==> (
                #[trigger] after.dom().contains(slot)) && after[slot] == before[slot]
            &&& forall|slot: u64| #[trigger]
                after.dom().contains(slot) && after[slot].0[0] != sn ==> before.dom().contains(slot)
        }),
{
    lemma_with_device(m.coulombs.devices, sn, m.options.max_devices);
    let i = place(devices, sn);
    let now = identity_of(devices[i], sn, c);
    let here = series_slot(now);
    let old_devices = m.coulombs.devices;
    let next = config_applied(m, sn, c);
    let before = m.device_info;
    let after = next.device_info;
    let now_devices = next.coulombs.devices;
    assert(now_devices =~= devices.update(
        i,
        DeviceModel { device_info: Some(now), ..devices[i] },
    ));
    // A tuple that stood in the slot was this device's own.
    assert(before.dom().contains(here) ==> devices[i].device_info == Some(before[here].0)) by {
        if before.dom().contains(here) {
            let k = choose|k: int|
                0 <= k < old_devices.len() && (#[trigger] old_devices[k]).device_info == Some(
                    before[here].0,
                );
            assert(devices[k].device_info == old_devices[k].device_info);
            assert(stands_in(devices[k], here));
            assert(devices[k].sn == sn);
            if k != i {
                assert(devices[k].sn != devices[i].sn);
            }
        }
    }
    assert(after[here] == (now, 1i64));
    assert forall|slot: u64| slot != here implies (#[trigger] after.dom().contains(slot) <==> (
    before.dom().contains(slot) && devices[i].device_info != Some(before[slot].0))) && (
    after.dom().contains(slot) ==> after[slot] == before[slot]) by {
        if before.dom().contains(slot) && devices[i].device_info == Some(before[slot].0) {
            assert(series_slot(before[slot].0) == slot);
        }
        if let Some(labels) = devices[i].device_info {
            if i < old_devices.len() {
                assert(old_devices[i].device_info == devices[i].device_info);
                assert(before[series_slot(labels)] == (labels, 1i64));
            }
        }
    }
    assert forall|slot: u64| #[trigger] after.dom().contains(slot) && slot != here implies {
        &&& current(now_devices, after[slot].0)
        &&& after[slot].0[0] != sn
    } by {
        let k = choose|k: int|
            0 <= k < old_devices.len() && (#[trigger] old_devices[k]).device_info == Some(
                before[slot].0,
            );
        assert(devices[k].device_info == old_devices[k].device_info);
        assert(k != i);
        assert(now_devices[k] == devices[k]);
        assert(devices[k].sn == old_devices[k].sn);
        assert(devices[k].sn != devices[i].sn);
    }
    assert(current(now_devices, now)) by {
        assert(now_devices[i].device_info == Some(now));
    }
    assert forall|k: int| 0 <= k < now_devices.len() implies ((
    #[trigger] now_devices[k]).device_info matches Some(labels) ==> {
        &&& labels.len() > 0
        &&& labels[0] == now_devices[k].sn
        &&& after.dom().contains(series_slot(labels))
        &&& after[series_slot(labels)] == (labels, 1i64)
    }) by {
        if k != i {
            if let Some(labels) = now_devices[k].device_info {
                assert(k < old_devices.len());
                assert(old_devices[k].device_info == Some(labels));
                assert(devices[k].sn != devices[i].sn);
                assert(!stands_in(devices[k], here));
                if devices[i].device_info == Some(labels) {
                    assert(old_devices[i].device_info == Some(labels));
                }
            }
        }
    }
    assert forall|slot: u64| before.dom().contains(slot) && before[slot].0[0] != sn implies (
    #[trigger] after.dom().contains(slot)) && after[slot] == before[slot] by {
        if devices[i].device_info == Some(before[slot].0) {
            assert(old_devices[i].device_info == Some(before[slot].0));
        }
    }
}

/// Where the identity series are those of the devices, no serial has two of them,
/// each stands at one, and a device shows exactly the one it has.
pub proof fn law_no_serial_has_two_identities(m: MetricsModel)
    requires
        identities_shown(m),
        distinct(m.coulombs.devices),
    ensures
        forall|a: u64, b: u64| #[trigger]
            m.device_info.dom().contains(a) && #[trigger] m.device_info.dom().contains(b)
                && m.device_info[a].0[0] == m.device_info[b].0[0] ==> a == b,
        forall|slot: u64| #[trigger]
            m.device_info.dom().contains(slot) ==> m.device_info[slot].1 == 1,
        forall|i: int|
            0 <= i < m.coulombs.devices.len() && (
            #[trigger] m.coulombs.devices[i]).device_info is Some ==> m.device_info.dom().contains(
                series_slot(m.coulombs.devices[i].device_info->Some_0),
            ),
{
    let devices = m.coulombs.devices;
    assert forall|a: u64, b: u64| #[trigger]
        m.device_info.dom().contains(a) && #[trigger] m.device_info.dom().contains(b)
            && m.device_info[a].0[0] == m.device_info[b].0[0] implies a == b by {
        let i = choose|i: int|
            0 <= i < devices.len() && (#[trigger] devices[i]).device_info == Some(
                m.device_info[a].0,
            );
        let k = choose|k: int|
            0 <= k < devices.len() && (#[trigger] devices[k]).device_info == Some(
                m.device_info[b].0,
            );
        assert(devices[i].sn == devices[k].sn);
        if i < k {
            assert(devices[i].sn != devices[k].sn);
        } else if k < i {
            assert(devices[k].sn != devices[i].sn);
        }
    }
    assert forall|slot: u64| #[trigger] m.device_info.dom().contains(slot) implies m.device_info[slot].1
        == 1 by {
        let i = choose|i: int|
            0 <= i < devices.len() && (#[trigger] devices[i]).device_info == Some(
                m.device_info[slot].0,
            );
        assert(devices[i].device_info is Some);
    }
}

/// Realtime frames and samples leave what the identity series show as it is, and
/// so do new metrics, which show none.
pub proof fn law_frames_keep_identities_shown(
    m: MetricsModel,
    options: MetricsOptions,
    sn: Seq<char>,
    d: RealtimeData,
    current_ma: Option<i32>,
    pack_mv: Option<u32>,
    now_us: u64,
)
    requires
        identities_shown(m),
        distinct(m.coulombs.devices),
    ensures
        identities_shown(MetricsModel::fresh(options)),
        identities_shown(realtime_applied(m, sn, d)),
        identities_shown(sample_applied(m, sn, current_ma, pack_mv, now_us)),
{
    lemma_with_device(m.coulombs.devices, sn, m.options.max_devices);
    lemma_same_identities(m, realtime_applied(m, sn, d));
    lemma_same_identities(m, sample_applied(m, sn, current_ma, pack_mv, now_us));
}

pub proof fn lemma_same_identities(a: MetricsModel, b: MetricsModel)
    requires
        identities_shown(a),
        a.device_info == b.device_info,
        a.coulombs.devices.len() <= b.coulombs.devices.len(),
        forall|i: int|
            0 <= i < a.coulombs.devices.len() ==> (#[trigger] b.coulombs.devices[i]).device_info
                == a.coulombs.devices[i].device_info && b.coulombs.devices[i].sn
                == a.coulombs.devices[i].sn,
        forall|i: int|
            a.coulombs.devices.len() <= i < b.coulombs.devices.len() ==> (
            #[trigger] b.coulombs.devices[i]).device_info is None,
    ensures
        identities_shown(b),
{
    let x = a.coulombs.devices;
    let y = b.coulombs.devices;
    assert forall|slot: u64| #[trigger] b.device_info.dom().contains(slot) implies current(
        y,
        b.device_info[slot].0,
    ) by {
        let k = choose|k: int|
            0 <= k < x.len() && (#[trigger] x[k]).device_info == Some(a.device_info[slot].0);
        assert(y[k].device_info == x[k].device_info);
    }
    assert forall|i: int| 0 <= i < y.len() && (#[trigger] y[i]).device_info is Some implies x[i].device_info
        == y[i].device_info && x[i].sn == y[i].sn && i < x.len() by {}
}

// --- Exposition ---
/// New metrics show one sample: that no state was ever written.
pub proof fn law_new_metrics_show_one_sample(options: MetricsOptions, text: Seq<char>)
    requires
        MetricsModel::fresh(options).exposed_by(text),
    ensures
        has_line(text, zero_line(Family::StateLastWriteTimestamp.about())),
        forall|line: Seq<char>| #[trigger]
            has_line(text, line) && !is_comment(line) ==> line == zero_line(
                Family::StateLastWriteTimestamp.about(),
            ),
{
}

// --- The device cap ---
/// A serial past the device cap gets no series: its frames change nothing and
/// ask nothing of the gauges.
pub proof fn law_cap_holds_for_frames(
    m: MetricsModel,
    sn: Seq<char>,
    d: RealtimeData,
    c: ConfigData,
)
    requires
        !tracks(m.coulombs.devices, sn),
        m.options.max_devices > 0,
        m.coulombs.devices.len() >= m.options.max_devices,
    ensures
        realtime_applied(m, sn, d) == m,
        realtime_asks(m, sn, d) == Seq::<GaugeUpdate>::empty(),
        config_applied(m, sn, c) == m,
        config_asks(m, sn, c) == Seq::<GaugeUpdate>::empty(),
{
}

// --- Frames and accounting ---
/// Showing a frame changes nothing in the accounting: what is counted, in flight
/// or exported stays as it is for every device, and no write-ahead is broken.
pub proof fn law_showing_frames_keeps_write_ahead(
    m: MetricsModel,
    sn: Seq<char>,
    d: RealtimeData,
    c: ConfigData,
    file: Seq<RowModel>,
    rows: Seq<RowModel>,
)
    requires
        write_ahead(m.coulombs, file, rows),
    ensures
        write_ahead(realtime_applied(m, sn, d).coulombs, file, rows),
        write_ahead(config_applied(m, sn, c).coulombs, file, rows),
{
    lemma_with_device(m.coulombs.devices, sn, m.options.max_devices);
    if let Some(devices) = with_device(m.coulombs.devices, sn, m.options.max_devices) {
        let r = realtime_applied(m, sn, d).coulombs;
        let g = config_applied(m, sn, c).coulombs;
        lemma_same_books(m.coulombs, r, sn, file, rows);
        lemma_same_books(m.coulombs, g, sn, file, rows);
    }
}

proof fn lemma_same_books(
    a: CoulombModel,
    b: CoulombModel,
    sn: Seq<char>,
    file: Seq<RowModel>,
    rows: Seq<RowModel>,
)
    requires
        write_ahead(a, file, rows),
        b.writing == a.writing,
        a.devices.len() <= b.devices.len() <= a.devices.len() + 1,
        forall|i: int|
            0 <= i < a.devices.len() ==> {
                &&& (#[trigger] b.devices[i]).sn == a.devices[i].sn
                &&& b.devices[i].exported == a.devices[i].exported
                &&& b.devices[i].in_flight == a.devices[i].in_flight
            },
        b.devices.len() > a.devices.len() ==> {
            let last = b.devices[a.devices.len() as int];
            &&& !tracks(a.devices, sn)
            &&& last.sn == sn
            &&& last.exported == DeviceModel::fresh(sn).exported
            &&& last.in_flight == DeviceModel::fresh(sn).in_flight
        },
    ensures
        write_ahead(b, file, rows),
{
    assert(distinct(b.devices)) by {
        assert forall|i: int, j: int| 0 <= i < j < b.devices.len() implies (
        #[trigger] b.devices[i]).sn != (#[trigger] b.devices[j]).sn by {
            assert(a.devices[i].sn == b.devices[i].sn);
            if j < a.devices.len() {
                assert(a.devices[i].sn != a.devices[j].sn);
            }
        }
    }
    assert forall|i: int| 0 <= i < b.devices.len() implies crate::coulomb_laws::recorded(
        file,
        (#[trigger] b.devices[i]).sn,
        b.devices[i].exported,
    ) by {
        if i < a.devices.len() {
            assert(crate::coulomb_laws::recorded(file, a.devices[i].sn, a.devices[i].exported));
        }
    }
    if b.writing {
        assert forall|i: int| 0 <= i < b.devices.len() implies crate::coulomb_laws::recorded(
            rows,
            (#[trigger] b.devices[i]).sn,
            b.devices[i].exported.plus(b.devices[i].in_flight),
        ) by {
            if i < a.devices.len() {
                assert(crate::coulomb_laws::recorded(
                    rows,
                    a.devices[i].sn,
                    a.devices[i].exported.plus(a.devices[i].in_flight),
                ));
            }
        }
    }
}

/// Frames never take the number of devices past the cap.
pub proof fn law_frames_keep_cap(m: MetricsModel, sn: Seq<char>, d: RealtimeData, c: ConfigData)
    requires
        distinct(m.coulombs.devices),
        within_cap(m.coulombs, m.options.max_devices),
    ensures
        within_cap(realtime_applied(m, sn, d).coulombs, m.options.max_devices),
        within_cap(config_applied(m, sn, c).coulombs, m.options.max_devices),
{
    lemma_with_device(m.coulombs.devices, sn, m.options.max_devices);
}

// --- Flushes ---
/// A flush answers with the step that is due. The rows it hands out, to write or to
/// show, are the devices in order, each with what it showed before and what waited
/// for it.
pub proof fn law_flushes_hand_out_all_rows(
    m: MetricsModel,
    r: FlushStep,
    force: bool,
    now_us: u64,
    i: int,
)
    requires
        0 <= i < m.coulombs.devices.len(),
        step_fits(
            r,
            m,
            MetricsModel { coulombs: flush_begun(m.coulombs, m.options, force, now_us), ..m },
            force,
            now_us,
        ),
    ensures
        r is Applied <==> !m.options.persist_state,
        r is Write <==> m.options.persist_state && !m.coulombs.writing && (force
            || something_waits(m.coulombs) && !too_soon(m.coulombs, m.options, now_us)),
        r matches FlushStep::Write(rows) ==> rows@.len() == m.coulombs.devices.len() && rows@[i].sn@
            == m.coulombs.devices[i].sn && adds_up(
            m.coulombs.devices[i].exported,
            m.coulombs.devices[i].pending,
            rows@[i].totals,
        ),
        r matches FlushStep::Applied(rows) ==> rows@.len() == m.coulombs.devices.len()
            && rows@[i].sn@ == m.coulombs.devices[i].sn && (is_nothing(
            m.coulombs.devices[i].in_flight,
        ) ==> adds_up(
            m.coulombs.devices[i].exported,
            m.coulombs.devices[i].pending,
            rows@[i].totals,
        )),
{
    law_flush_decisions(m.coulombs, m.options, force, now_us);
    law_flush_begins(m.coulombs, m.options, force, now_us, i);
    let next = flush_begun(m.coulombs, m.options, force, now_us);
    law_rows_of_a_file(next.devices, i);
    match r {
        FlushStep::Write(rows) => {
            assert(row_views(rows@)[i] == rows@[i]@);
        },
        FlushStep::Applied(rows) => {
            assert(row_views(rows@)[i] == rows@[i]@);
        },
        FlushStep::Idle => {},
    }
}

} // verus!
