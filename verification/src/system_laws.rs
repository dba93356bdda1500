//! What holds of the exporter in every state it can reach: any number of
//! frames, flushes, failed writes and restarts, in any order.

use vstd::prelude::*;

use crate::coulomb::{
    accumulated, admitted, distinct, file_rows, flush_aborted, flush_begun, flush_finished,
    flush_kind, place, restored, tracks, with_device, CoulombModel, DeviceModel, RowModel, Totals,
};
use crate::coulomb_laws::{
    covered_by, distinct_rows, law_begin_keeps_write_ahead, law_cap_is_kept,
    law_finish_keeps_write_ahead, law_frames_keep_write_ahead, law_restore_keeps_cap, lemma_plus,
    lemma_restored_rows, lemma_row_restored, lemma_with_device, recorded, within_cap, write_ahead,
};
use crate::decode::{ConfigData, RealtimeData};
use crate::metrics::{
    config_applied, identity_of, realtime_applied, sample_applied, MetricsModel, MetricsOptions,
};
use crate::metrics_laws::{
    identities_owned, identities_shown, law_config_keeps_identities_owned, law_frames_keep_cap,
    law_frames_keep_identities_shown, law_no_serial_has_two_identities,
    law_one_identity_per_device, law_realtime_keeps_identities_owned,
    law_showing_frames_keeps_write_ahead, lemma_owned_kept, lemma_same_identities, owned,
    slot_is_free,
};
use crate::series::series_slot;
use crate::server::{config_handled, current_milli, pack_milli, realtime_handled};

verus! {

/// The exporter and what its disk holds.
pub struct System {
    pub metrics: MetricsModel,
    /// The state file.
    pub disk: Seq<RowModel>,
    /// The rows that are being written.
    pub rows: Seq<RowModel>,
}

/// What can happen to the exporter.
pub enum Event {
    /// A device asks to be admitted.
    Admission { sn: Seq<char> },
    /// A realtime frame is handled.
    Realtime { sn: Seq<char>, d: RealtimeData, now_us: u64 },
    /// A config frame is handled.
    Config { sn: Seq<char>, c: ConfigData },
    /// A flush begins.
    Begin { force: bool, now_us: u64 },
    /// The write ends. A failed one may or may not have replaced the file.
    Finish { written: bool, replaced: bool, now_us: u64 },
    /// The flush is given up before anything is written.
    Abort,
    /// The exporter stops, whatever it was doing, and starts again.
    Restart,
}

/// The system after an event.
pub open spec fn after(s: System, e: Event) -> System {
    let m = s.metrics;
    match e {
        Event::Admission { sn } => System {
            metrics: MetricsModel {
                coulombs: admitted(m.coulombs, sn, m.options.max_devices),
                ..m
            },
            ..s
        },
        Event::Realtime { sn, d, now_us } => System {
            metrics: realtime_handled(m, sn, d, now_us),
            ..s
        },
        Event::Config { sn, c } => System { metrics: config_handled(m, sn, c), ..s },
        Event::Begin { force, now_us } => {
            let begun = flush_begun(m.coulombs, m.options, force, now_us);
            System {
                metrics: MetricsModel { coulombs: begun, ..m },
                rows: if flush_kind(m.coulombs, m.options, force, now_us) is Write {
                    file_rows(begun.devices)
                } else {
                    s.rows
                },
                ..s
            }
        },
        Event::Finish { written, replaced, now_us } => if m.coulombs.writing {
            System {
                metrics: MetricsModel {
                    coulombs: flush_finished(m.coulombs, written, now_us),
                    ..m
                },
                disk: if written || replaced {
                    s.rows
                } else {
                    s.disk
                },
                ..s
            }
        } else {
            s
        },
        Event::Abort => if m.coulombs.writing {
            System { metrics: MetricsModel { coulombs: flush_aborted(m.coulombs), ..m }, ..s }
        } else {
            s
        },
        Event::Restart => System {
            metrics: MetricsModel {
                coulombs: restored(CoulombModel::empty(), s.disk, m.options.max_devices),
                ..MetricsModel::fresh(m.options)
            },
            rows: Seq::empty(),
            ..s
        },
    }
}

/// The system after a series of events.
pub open spec fn after_all(s: System, events: Seq<Event>) -> System
    decreases events.len(),
{
    if events.len() == 0 {
        s
    } else {
        after(after_all(s, events.drop_last()), events.last())
    }
}

/// A system that has just been set up, with an empty disk.
pub open spec fn started(options: MetricsOptions) -> System {
    System { metrics: MetricsModel::fresh(options), disk: Seq::empty(), rows: Seq::empty() }
}

/// Whether a list of rows stays within the device cap.
pub open spec fn rows_within_cap(rows: Seq<RowModel>, max_devices: usize) -> bool {
    max_devices == 0 || rows.len() <= max_devices
}

/// What holds in every state: the counters are never ahead of the disk, the
/// device cap is kept, and every identity series has its device.
pub open spec fn sound(s: System) -> bool {
    let max = s.metrics.options.max_devices;
    &&& s.metrics.options.persist_state
    &&& write_ahead(s.metrics.coulombs, s.disk, s.rows)
    &&& within_cap(s.metrics.coulombs, max)
    &&& identities_owned(s.metrics)
    &&& distinct_rows(s.disk)
    &&& distinct_rows(s.rows)
    &&& rows_within_cap(s.disk, max)
    &&& rows_within_cap(s.rows, max)
}

/// What the counters show for a device.
pub open spec fn served(m: MetricsModel, sn: Seq<char>) -> Totals {
    let devices = m.coulombs.devices;
    if tracks(devices, sn) {
        devices[place(devices, sn)].exported
    } else {
        Totals::none()
    }
}

proof fn lemma_owned_same_devices(a: MetricsModel, b: MetricsModel)
    requires
        identities_owned(a),
        a.device_info == b.device_info,
        a.coulombs.devices.len() <= b.coulombs.devices.len(),
        forall|i: int|
            0 <= i < a.coulombs.devices.len() ==> (#[trigger] b.coulombs.devices[i]).device_info
                == a.coulombs.devices[i].device_info,
    ensures
        identities_owned(b),
{
    assert forall|slot: u64| #[trigger] b.device_info.dom().contains(slot) implies owned(
        b.coulombs.devices,
        slot,
    ) by {
        assert(a.device_info.dom().contains(slot));
        lemma_owned_kept(a.coulombs.devices, b.coulombs.devices, slot);
    }
}

proof fn lemma_file_rows_distinct(devices: Seq<DeviceModel>)
    requires
        distinct(devices),
    ensures
        distinct_rows(file_rows(devices)),
{
    let rows = file_rows(devices);
    assert forall|i: int, j: int| 0 <= i < j < rows.len() implies (#[trigger] rows[i]).sn != (
    #[trigger] rows[j]).sn by {
        assert(devices[i].sn != devices[j].sn);
    }
}

proof fn lemma_restart_sound(s: System)
    requires
        sound(s),
    ensures
        sound(after(s, Event::Restart)),
{
    let max = s.metrics.options.max_devices;
    let now = after(s, Event::Restart);
    let m = now.metrics.coulombs;
    law_restore_keeps_cap(CoulombModel::empty(), s.disk, max);
    lemma_restored_rows(s.disk, max);
    lemma_restored_frame(CoulombModel::empty(), s.disk, max);
    assert(covered_by(m, s.disk)) by {
        assert forall|i: int| 0 <= i < m.devices.len() implies recorded(
            s.disk,
            (#[trigger] m.devices[i]).sn,
            m.devices[i].exported,
        ) by {
            lemma_plus(s.disk[i].totals, Totals::none(), Totals::none());
            assert(s.disk[i].sn == m.devices[i].sn && m.devices[i].exported.within(
                s.disk[i].totals,
            ));
        }
    }
}

proof fn lemma_restored_frame(m: CoulombModel, rows: Seq<RowModel>, max_devices: usize)
    requires
        distinct(m.devices),
        forall|i: int|
            0 <= i < m.devices.len() ==> (#[trigger] m.devices[i]).in_flight == Totals::none(),
    ensures
        ({
            let now = restored(m, rows, max_devices);
            &&& now.writing == m.writing
            &&& distinct(now.devices)
            &&& forall|i: int|
                0 <= i < now.devices.len() ==> (#[trigger] now.devices[i]).in_flight
                    == Totals::none()
        }),
    decreases rows.len(),
{
    if rows.len() > 0 {
        let before = restored(m, rows.drop_last(), max_devices);
        lemma_restored_frame(m, rows.drop_last(), max_devices);
        lemma_with_device(before.devices, rows.last().sn, max_devices);
        lemma_row_restored(before, rows.last(), max_devices);
        let now = restored(m, rows, max_devices);
        assert forall|i: int| 0 <= i < now.devices.len() implies (
        #[trigger] now.devices[i]).in_flight == Totals::none() by {
            if let Some(devices) = with_device(before.devices, rows.last().sn, max_devices) {
                if i < before.devices.len() {
                    assert(devices[i] == before.devices[i]);
                }
            }
        }
    }
}

/// Every event keeps the system sound.
pub proof fn law_events_keep_the_system_sound(s: System, e: Event)
    requires
        sound(s),
    ensures
        sound(after(s, e)),
{
    let m = s.metrics;
    let max = m.options.max_devices;
    let next = after(s, e);
    match e {
        Event::Admission { sn } => {
            law_frames_keep_write_ahead(
                m.coulombs,
                s.disk,
                s.rows,
                m.options,
                sn,
                None,
                None,
                0,
            );
            law_cap_is_kept(m.coulombs, m.options, sn, None, None, false, false, 0);
            lemma_with_device(m.coulombs.devices, sn, max);
            lemma_owned_same_devices(m, next.metrics);
        },
        Event::Realtime { sn, d, now_us } => {
            let shown = realtime_applied(m, sn, d);
            law_showing_frames_keeps_write_ahead(m, sn, d, any_config(), s.disk, s.rows);
            law_frames_keep_cap(m, sn, d, any_config());
            law_realtime_keeps_identities_owned(m, sn, d, None, None, 0);
            let current = current_milli(d);
            let pack = pack_milli(d);
            law_frames_keep_write_ahead(
                shown.coulombs,
                s.disk,
                s.rows,
                m.options,
                sn,
                current,
                pack,
                now_us,
            );
            law_cap_is_kept(
                shown.coulombs,
                m.options,
                sn,
                current,
                pack,
                false,
                false,
                now_us,
            );
            law_realtime_keeps_identities_owned(shown, sn, d, current, pack, now_us);
            assert(next.metrics.coulombs == accumulated(
                shown.coulombs,
                m.options,
                sn,
                current,
                pack,
                now_us,
            ));
        },
        Event::Config { sn, c } => {
            law_showing_frames_keeps_write_ahead(m, sn, any_realtime(), c, s.disk, s.rows);
            law_frames_keep_cap(m, sn, any_realtime(), c);
            law_config_keeps_identities_owned(m, sn, c);
        },
        Event::Begin { force, now_us } => {
            law_begin_keeps_write_ahead(m.coulombs, s.disk, s.rows, m.options, force, now_us);
            law_cap_is_kept(
                m.coulombs,
                m.options,
                Seq::empty(),
                None,
                None,
                force,
                false,
                now_us,
            );
            lemma_owned_same_devices(m, next.metrics);
            lemma_file_rows_distinct(next.metrics.coulombs.devices);
        },
        Event::Finish { written, replaced, now_us } => {
            if m.coulombs.writing {
                law_finish_keeps_write_ahead(m.coulombs, s.disk, s.rows, now_us);
                law_cap_is_kept(
                    m.coulombs,
                    m.options,
                    Seq::empty(),
                    None,
                    None,
                    false,
                    written,
                    now_us,
                );
                lemma_owned_same_devices(m, next.metrics);
            }
        },
        Event::Abort => {
            if m.coulombs.writing {
                law_finish_keeps_write_ahead(m.coulombs, s.disk, s.rows, 0);
                lemma_owned_same_devices(m, next.metrics);
            }
        },
        Event::Restart => {
            lemma_restart_sound(s);
        },
    }
}

spec fn any_config() -> ConfigData {
    arbitrary()
}

spec fn any_realtime() -> RealtimeData {
    arbitrary()
}

/// In every state that can be reached, the disk holds at least what every
/// counter shows, the device cap is kept, and every identity series belongs to a
/// device.
pub proof fn law_counters_never_ahead_of_the_disk(options: MetricsOptions, events: Seq<Event>)
    requires
        options.persist_state,
    ensures
        sound(after_all(started(options), events)),
    decreases events.len(),
{
    if events.len() == 0 {
        let s = started(options);
        assert(s.metrics.device_info.dom() =~= Set::empty());
    } else {
        let before = after_all(started(options), events.drop_last());
        law_counters_never_ahead_of_the_disk(options, events.drop_last());
        law_events_keep_the_system_sound(before, events.last());
    }
}

proof fn lemma_served(a: MetricsModel, b: MetricsModel, sn: Seq<char>)
    requires
        distinct(a.coulombs.devices),
        distinct(b.coulombs.devices),
        a.coulombs.devices.len() <= b.coulombs.devices.len(),
        forall|i: int|
            0 <= i < a.coulombs.devices.len() ==> (#[trigger] b.coulombs.devices[i]).sn
                == a.coulombs.devices[i].sn && a.coulombs.devices[i].exported.within(
                b.coulombs.devices[i].exported,
            ),
    ensures
        served(a, sn).within(served(b, sn)),
{
    let x = a.coulombs.devices;
    let y = b.coulombs.devices;
    lemma_plus(served(b, sn), served(b, sn), served(b, sn));
    if tracks(x, sn) {
        let i = place(x, sn);
        assert(0 <= i < x.len() && x[i].sn == sn);
        assert(y[i].sn == sn);
        let k = place(y, sn);
        assert(0 <= k < y.len() && y[k].sn == sn);
        if k < i {
            assert(y[k].sn != y[i].sn);
        } else if i < k {
            assert(y[i].sn != y[k].sn);
        }
    }
}

/// What is served never goes down: no event, a restart included, lowers what the
/// counters show for any device.
pub proof fn law_counters_never_decrease(s: System, e: Event, sn: Seq<char>)
    requires
        sound(s),
    ensures
        served(s.metrics, sn).within(served(after(s, e).metrics, sn)),
{
    let m = s.metrics;
    let next = after(s, e);
    let max = m.options.max_devices;
    law_events_keep_the_system_sound(s, e);
    assert forall|i: int| 0 <= i < m.coulombs.devices.len() implies (
    #[trigger] m.coulombs.devices[i]).exported.within(m.coulombs.devices[i].exported)
        && m.coulombs.devices[i].exported.within(
        m.coulombs.devices[i].exported.plus(m.coulombs.devices[i].in_flight),
    ) by {
        lemma_plus(
            m.coulombs.devices[i].exported,
            m.coulombs.devices[i].in_flight,
            Totals::none(),
        );
    }
    match e {
        Event::Restart => {
            let again = next.metrics.coulombs;
            lemma_restored_rows(s.disk, max);
            if tracks(m.coulombs.devices, sn) {
                let i = place(m.coulombs.devices, sn);
                let d = m.coulombs.devices[i];
                assert(recorded(s.disk, d.sn, d.exported));
                if d.exported != Totals::none() {
                    let k = choose|k: int|
                        0 <= k < s.disk.len() && (#[trigger] s.disk[k]).sn == d.sn
                            && d.exported.within(s.disk[k].totals);
                    assert(again.devices[k].sn == sn);
                    let p = place(again.devices, sn);
                    assert(0 <= p < again.devices.len() && again.devices[p].sn == sn);
                    if p < k {
                        assert(again.devices[p].sn != again.devices[k].sn);
                    } else if k < p {
                        assert(again.devices[k].sn != again.devices[p].sn);
                    }
                }
            }
            lemma_plus(
                Totals::none(),
                served(next.metrics, sn),
                served(next.metrics, sn),
            );
        },
        Event::Admission { sn: who } => {
            lemma_with_device(m.coulombs.devices, who, max);
            lemma_served(m, next.metrics, sn);
        },
        Event::Realtime { sn: who, d, now_us } => {
            let shown = realtime_applied(m, who, d);
            lemma_with_device(m.coulombs.devices, who, max);
            law_showing_frames_keeps_write_ahead(m, who, d, any_config(), s.disk, s.rows);
            lemma_with_device(shown.coulombs.devices, who, max);
            lemma_served(m, next.metrics, sn);
        },
        Event::Config { sn: who, c } => {
            lemma_with_device(m.coulombs.devices, who, max);
            lemma_served(m, next.metrics, sn);
        },
        _ => {
            lemma_served(m, next.metrics, sn);
        },
    }
}

/// Nor does any series of events lower what the counters show.
pub proof fn law_history_never_decreases(s: System, events: Seq<Event>, sn: Seq<char>)
    requires
        sound(s),
    ensures
        sound(after_all(s, events)),
        served(s.metrics, sn).within(served(after_all(s, events).metrics, sn)),
    decreases events.len(),
{
    if events.len() == 0 {
        lemma_plus(served(s.metrics, sn), Totals::none(), Totals::none());
    } else {
        let before = after_all(s, events.drop_last());
        law_history_never_decreases(s, events.drop_last(), sn);
        law_events_keep_the_system_sound(before, events.last());
        law_counters_never_decrease(before, events.last(), sn);
    }
}

// --- Identities ---
/// Whether an event keeps the identities apart: the labels of a config frame that
/// is shown do not fall into the slot of another device's identity.
pub open spec fn tells_apart(s: System, e: Event) -> bool {
    let m = s.metrics;
    match e {
        Event::Config { sn, c } => match with_device(
            m.coulombs.devices,
            sn,
            m.options.max_devices,
        ) {
            Some(devices) => slot_is_free(
                devices,
                sn,
                series_slot(identity_of(devices[place(devices, sn)], sn, c)),
            ),
            None => true,
        },
        _ => true,
    }
}

/// Whether this holds of every event of a series.
pub open spec fn all_told_apart(s: System, events: Seq<Event>) -> bool
    decreases events.len(),
{
    events.len() > 0 ==> all_told_apart(s, events.drop_last()) && tells_apart(
        after_all(s, events.drop_last()),
        events.last(),
    )
}

/// The identity series are exactly those of the devices, of which no two have the
/// same serial.
pub open spec fn identities_exact(s: System) -> bool {
    distinct(s.metrics.coulombs.devices) && identities_shown(s.metrics)
}

proof fn lemma_restored_shows_none(m: CoulombModel, rows: Seq<RowModel>, max_devices: usize)
    requires
        distinct(m.devices),
        forall|i: int| 0 <= i < m.devices.len() ==> (#[trigger] m.devices[i]).device_info is None,
    ensures
        ({
            let now = restored(m, rows, max_devices);
            &&& distinct(now.devices)
            &&& forall|i: int|
                0 <= i < now.devices.len() ==> (#[trigger] now.devices[i]).device_info is None
        }),
    decreases rows.len(),
{
    if rows.len() > 0 {
        let before = restored(m, rows.drop_last(), max_devices);
        lemma_restored_shows_none(m, rows.drop_last(), max_devices);
        lemma_with_device(before.devices, rows.last().sn, max_devices);
        lemma_row_restored(before, rows.last(), max_devices);
        let now = restored(m, rows, max_devices);
        assert forall|i: int| 0 <= i < now.devices.len() implies (
        #[trigger] now.devices[i]).device_info is None by {
            if let Some(devices) = with_device(before.devices, rows.last().sn, max_devices) {
                if i < before.devices.len() {
                    assert(devices[i] == before.devices[i]);
                }
            }
        }
    }
}

proof fn lemma_distinct_kept(a: Seq<DeviceModel>, b: Seq<DeviceModel>)
    requires
        distinct(a),
        a.len() == b.len(),
        forall|i: int| 0 <= i < a.len() ==> (#[trigger] b[i]).sn == a[i].sn,
    ensures
        distinct(b),
{
    assert forall|i: int, j: int| 0 <= i < j < b.len() implies (#[trigger] b[i]).sn != (
    #[trigger] b[j]).sn by {
        assert(a[i].sn != a[j].sn);
    }
}

/// Every event keeps the identity series exact: frames, admissions, flushes,
/// whether they are written, fail or are given up, and restarts. A config frame
/// does so as long as its labels do not fall into the slot of another device's
/// identity.
pub proof fn law_events_keep_identities_exact(s: System, e: Event)
    requires
        identities_exact(s),
        tells_apart(s, e),
    ensures
        identities_exact(after(s, e)),
{
    let m = s.metrics;
    let max = m.options.max_devices;
    let next = after(s, e).metrics;
    match e {
        Event::Admission { sn } => {
            lemma_with_device(m.coulombs.devices, sn, max);
            lemma_same_identities(m, next);
        },
        Event::Realtime { sn, d, now_us } => {
            let shown = realtime_applied(m, sn, d);
            lemma_with_device(m.coulombs.devices, sn, max);
            if let Some(devices) = with_device(m.coulombs.devices, sn, max) {
                lemma_distinct_kept(devices, shown.coulombs.devices);
            }
            law_frames_keep_identities_shown(m, m.options, sn, d, None, None, 0);
            lemma_with_device(shown.coulombs.devices, sn, max);
            law_frames_keep_identities_shown(
                shown,
                m.options,
                sn,
                d,
                current_milli(d),
                pack_milli(d),
                now_us,
            );
            let counted = sample_applied(shown, sn, current_milli(d), pack_milli(d), now_us);
            if let Some(devices) = with_device(shown.coulombs.devices, sn, max) {
                if counted.coulombs.devices.len() == devices.len() {
                    lemma_distinct_kept(devices, counted.coulombs.devices);
                }
            }
            lemma_same_identities(counted, next);
        },
        Event::Config { sn, c } => {
            lemma_with_device(m.coulombs.devices, sn, max);
            let shown = config_applied(m, sn, c);
            if let Some(devices) = with_device(m.coulombs.devices, sn, max) {
                law_one_identity_per_device(m, sn, c, devices);
                lemma_distinct_kept(devices, shown.coulombs.devices);
            }
            lemma_same_identities(shown, next);
        },
        Event::Restart => {
            lemma_restored_shows_none(CoulombModel::empty(), s.disk, max);
        },
        _ => {
            lemma_distinct_kept(m.coulombs.devices, next.coulombs.devices);
            lemma_same_identities(m, next);
        },
    }
}

/// In every state that can be reached, with or without a state file, the identity
/// series are exactly those of the devices, and no serial has two: as long as no
/// config frame's labels fell into the slot of another device's identity.
pub proof fn law_identities_in_every_history(options: MetricsOptions, events: Seq<Event>)
    requires
        all_told_apart(started(options), events),
    ensures
        ({
            let m = after_all(started(options), events).metrics;
            &&& identities_exact(after_all(started(options), events))
            &&& forall|a: u64, b: u64| #[trigger]
                m.device_info.dom().contains(a) && #[trigger] m.device_info.dom().contains(b)
                    && m.device_info[a].0[0] == m.device_info[b].0[0] ==> a == b
        }),
    decreases events.len(),
{
    let now = after_all(started(options), events);
    if events.len() == 0 {
        assert(now.metrics.device_info.dom() =~= Set::empty());
    } else {
        let before = after_all(started(options), events.drop_last());
        law_identities_in_every_history(options, events.drop_last());
        law_events_keep_identities_exact(before, events.last());
    }
    law_no_serial_has_two_identities(now.metrics);
}

} // verus!
