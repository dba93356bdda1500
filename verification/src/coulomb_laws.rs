//! What the accounting guarantees as a whole.

use vstd::prelude::*;

use crate::coulomb::{
    accumulated, admitted, all_moved, any_pending, capped_sum, counted_time, distinct, file_rows,
    flush_aborted, flush_begun, flush_finished, flush_kind, frame_delta, has_room, interval,
    limited, moved, outcome, place, restored, restored_count, row_restored, tracks, trapezoid,
    with_device, Baseline, CoulombModel, DeviceModel, FlushKind, Move, RowModel, SampleFault,
    SampleOutcome, Split, Totals, MICROS_PER_SEC, UNITS_PER_MAH, UNITS_PER_MWH,
};
use crate::decode::PlausibilityLimits;
use crate::metrics::MetricsOptions;

verus! {

// --- One interval ---
/// An integral goes in one direction only.
pub proof fn law_one_direction(prev: i64, cur: i64, dt_us: u64, max_gap_secs: u64)
    ensures
        ({
            let s = trapezoid(prev as int, cur as int, dt_us, max_gap_secs);
            s.charge == 0 || s.discharge == 0
        }),
{
}

/// Readings of equal size and opposite sign integrate to nothing, and so does an
/// interval of no length.
pub proof fn law_nothing_to_integrate(prev: i64, cur: i64, dt_us: u64, max_gap_secs: u64)
    ensures
        prev + cur == 0 || dt_us == 0 || max_gap_secs == 0 ==> trapezoid(
            prev as int,
            cur as int,
            dt_us,
            max_gap_secs,
        ) == Split::none(),
{
    let t = counted_time(dt_us, max_gap_secs);
    assert((prev + cur == 0 || t == 0) ==> (prev + cur) * t == 0) by (nonlinear_arith);
}

/// However long the data gap, no more than the gap cap is integrated.
pub proof fn law_gap_is_capped(prev: i64, cur: i64, dt_us: u64, longer_us: u64, max_gap_secs: u64)
    requires
        max_gap_secs * MICROS_PER_SEC <= dt_us <= longer_us,
    ensures
        trapezoid(prev as int, cur as int, dt_us, max_gap_secs) == trapezoid(
            prev as int,
            cur as int,
            longer_us,
            max_gap_secs,
        ),
{
}

/// No frame adds more than the ceilings allow, in either direction.
pub proof fn law_frame_ceiling(delta: Totals, opts: MetricsOptions)
    ensures
        opts.max_frame_mah matches Some(max) ==> limited(delta, opts).ah.within(
            Split { charge: (max * UNITS_PER_MAH) as u128, discharge: (max * UNITS_PER_MAH) as u128 },
        ),
        opts.max_frame_mwh matches Some(max) ==> limited(delta, opts).wh.within(
            Split { charge: (max * UNITS_PER_MWH) as u128, discharge: (max * UNITS_PER_MWH) as u128 },
        ),
        limited(delta, opts).within(delta),
{
}

// --- Nothing is lost ---
proof fn lemma_sum(a: u128, b: u128, c: u128)
    ensures
        capped_sum(capped_sum(a, b), c) == capped_sum(a, capped_sum(b, c)),
        capped_sum(a, b) == capped_sum(b, a),
        capped_sum(a, 0) == a,
        a <= capped_sum(a, b),
{
}

pub proof fn lemma_plus(a: Totals, b: Totals, c: Totals)
    ensures
        a.plus(b).plus(c) == a.plus(b.plus(c)),
        a.plus(b) == b.plus(a),
        a.plus(Totals::none()) == a,
        a.within(a.plus(b)),
        a.within(a),
        a.within(b) && b.within(c) ==> a.within(c),
        Totals::none().within(a),
{
    lemma_sum(a.ah.charge, b.ah.charge, c.ah.charge);
    lemma_sum(a.ah.discharge, b.ah.discharge, c.ah.discharge);
    lemma_sum(a.wh.charge, b.wh.charge, c.wh.charge);
    lemma_sum(a.wh.discharge, b.wh.discharge, c.wh.discharge);
}

/// A move carries deltas along, and neither adds nor drops any. (Taking needs
/// that nothing is in flight yet, as holds between writes.)
pub proof fn law_moves_conserve(d: DeviceModel, step: Move)
    requires
        step is Take ==> d.in_flight == Totals::none(),
    ensures
        moved(d, step).counted() == d.counted(),
{
    let n = Totals::none();
    lemma_plus(d.exported, d.in_flight, d.pending);
    lemma_plus(d.exported, d.pending, d.in_flight);
    lemma_plus(d.exported.plus(d.in_flight), n, n);
    lemma_plus(d.exported, d.pending, n);
    lemma_plus(d.exported.plus(d.in_flight), n, d.pending);
    lemma_plus(d.exported, n, d.pending);
    lemma_plus(d.exported, n, d.pending.plus(d.in_flight));
    lemma_plus(d.exported.plus(d.pending), d.in_flight, n);
    lemma_plus(d.pending, d.in_flight, n);
    lemma_plus(d.exported, n, n);
}

/// Whether two states count the same for the same devices.
pub open spec fn same_counts(a: CoulombModel, b: CoulombModel) -> bool {
    &&& a.devices.len() == b.devices.len()
    &&& forall|i: int|
        0 <= i < a.devices.len() ==> (#[trigger] a.devices[i]).sn == b.devices[i].sn
            && a.devices[i].counted() == b.devices[i].counted()
}

/// Deltas that are throttled, in flight or failed to be written are deferred,
/// never lost: no step of a flush changes what has been counted in all.
pub proof fn law_flush_loses_nothing(
    m: CoulombModel,
    opts: MetricsOptions,
    force: bool,
    written: bool,
    now_us: u64,
)
    requires
        m.valid(),
    ensures
        same_counts(m, flush_begun(m, opts, force, now_us)),
        same_counts(m, flush_finished(m, written, now_us)),
        same_counts(m, flush_aborted(m)),
{
    assert forall|i: int| 0 <= i < m.devices.len() implies {
        let d = #[trigger] m.devices[i];
        &&& moved(d, Move::Apply).counted() == d.counted()
        &&& moved(d, Move::Land).counted() == d.counted()
        &&& moved(d, Move::Requeue).counted() == d.counted()
        &&& !m.writing ==> moved(d, Move::Take).counted() == d.counted()
    } by {
        let d = m.devices[i];
        law_moves_conserve(d, Move::Apply);
        law_moves_conserve(d, Move::Land);
        law_moves_conserve(d, Move::Requeue);
        if !m.writing {
            law_moves_conserve(d, Move::Take);
        }
    }
}

/// A frame adds its (limited) delta to what is counted for its own device, and
/// nothing to any other.
pub proof fn law_frame_counts_once(
    m: CoulombModel,
    opts: MetricsOptions,
    sn: Seq<char>,
    current_ma: i32,
    pack_mv: Option<u32>,
    now_us: u64,
)
    requires
        m.valid(),
        outcome(m, opts, sn, Some(current_ma), pack_mv, now_us) is Integrated,
    ensures
        ({
            let before = with_device(m.devices, sn, opts.max_devices)->Some_0;
            let after = accumulated(m, opts, sn, Some(current_ma), pack_mv, now_us).devices;
            let at = place(before, sn);
            &&& 0 <= at < before.len()
            &&& before[at].sn == sn
            &&& after.len() == before.len()
            &&& after[at].counted() == before[at].counted().plus(
                limited(frame_delta(before[at], opts, current_ma, pack_mv, now_us), opts),
            )
            &&& forall|i: int|
                0 <= i < before.len() && i != at ==> #[trigger] after[i] == before[i]
        }),
{
    let before = with_device(m.devices, sn, opts.max_devices)->Some_0;
    lemma_with_device(m.devices, sn, opts.max_devices);
    let at = place(before, sn);
    let d = before[at];
    let delta = limited(frame_delta(d, opts, current_ma, pack_mv, now_us), opts);
    lemma_plus(d.exported.plus(d.in_flight), d.pending, delta);
}

/// A sample that is not integrated changes nothing: neither the baseline nor
/// what is pending. The next good frame integrates across the whole interval.
pub proof fn law_rejected_sample_changes_nothing(
    m: CoulombModel,
    opts: MetricsOptions,
    sn: Seq<char>,
    current_ma: Option<i32>,
    pack_mv: Option<u32>,
    now_us: u64,
)
    requires
        !(outcome(m, opts, sn, current_ma, pack_mv, now_us) is Integrated),
    ensures
        accumulated(m, opts, sn, current_ma, pack_mv, now_us) == m,
{
}

// --- The device cap ---
/// Whether the tracked devices respect the cap.
pub open spec fn within_cap(m: CoulombModel, max_devices: usize) -> bool {
    max_devices == 0 || m.devices.len() <= max_devices
}

pub proof fn lemma_with_device(devices: Seq<DeviceModel>, sn: Seq<char>, max_devices: usize)
    requires
        distinct(devices),
    ensures
        with_device(devices, sn, max_devices) matches Some(now) ==> {
            &&& distinct(now)
            &&& tracks(now, sn)
            &&& 0 <= place(now, sn) < now.len()
            &&& now[place(now, sn)].sn == sn
            &&& devices.len() <= now.len()
            &&& forall|i: int| 0 <= i < devices.len() ==> #[trigger] now[i] == devices[i]
            &&& now.len() > devices.len() ==> now.len() == devices.len() + 1 && !tracks(
                devices,
                sn,
            ) && has_room(devices, max_devices) && now[devices.len() as int] == DeviceModel::fresh(
                sn,
            )
        },
{
    if let Some(now) = with_device(devices, sn, max_devices) {
        if !tracks(devices, sn) {
            assert(now[devices.len() as int].sn == sn);
            assert forall|i: int, j: int| 0 <= i < j < now.len() implies (#[trigger] now[i]).sn != (
            #[trigger] now[j]).sn by {
                if j == devices.len() {
                    assert(devices[i].sn != sn);
                }
            }
        }
        assert(tracks(now, sn));
    }
}

/// No step takes the number of devices past the cap.
pub proof fn law_cap_is_kept(
    m: CoulombModel,
    opts: MetricsOptions,
    sn: Seq<char>,
    current_ma: Option<i32>,
    pack_mv: Option<u32>,
    force: bool,
    written: bool,
    now_us: u64,
)
    requires
        m.valid(),
        within_cap(m, opts.max_devices),
    ensures
        within_cap(admitted(m, sn, opts.max_devices), opts.max_devices),
        within_cap(accumulated(m, opts, sn, current_ma, pack_mv, now_us), opts.max_devices),
        within_cap(flush_begun(m, opts, force, now_us), opts.max_devices),
        within_cap(flush_finished(m, written, now_us), opts.max_devices),
        within_cap(flush_aborted(m), opts.max_devices),
{
    lemma_with_device(m.devices, sn, opts.max_devices);
}

pub proof fn lemma_row_restored(m: CoulombModel, row: RowModel, max_devices: usize)
    requires
        distinct(m.devices),
    ensures
        ({
            let now = row_restored(m, row, max_devices);
            &&& distinct(now.devices)
            &&& within_cap(m, max_devices) ==> within_cap(now, max_devices)
            &&& now.devices.len() <= m.devices.len() + 1
            &&& has_room(m.devices, max_devices) ==> {
                let at = place(now.devices, row.sn);
                &&& tracks(now.devices, row.sn)
                &&& 0 <= at < now.devices.len()
                &&& now.devices[at].sn == row.sn
                &&& row.totals.within(now.devices[at].exported)
                &&& !tracks(m.devices, row.sn) ==> now.devices[at].exported == row.totals
            }
            &&& forall|i: int|
                0 <= i < m.devices.len() && (#[trigger] m.devices[i]).sn != row.sn
                    ==> now.devices[i] == m.devices[i]
            &&& forall|i: int|
                0 <= i < m.devices.len() ==> (#[trigger] now.devices[i]).sn == m.devices[i].sn
        }),
{
    let now = row_restored(m, row, max_devices);
    lemma_with_device(m.devices, row.sn, max_devices);
    if has_room(m.devices, max_devices) {
        let devices = with_device(m.devices, row.sn, max_devices)->Some_0;
        let at = place(devices, row.sn);
        lemma_plus(row.totals, devices[at].exported, Totals::none());
        assert(distinct(now.devices)) by {
            assert forall|i: int, j: int| 0 <= i < j < now.devices.len() implies (
            #[trigger] now.devices[i]).sn != (#[trigger] now.devices[j]).sn by {
                assert(devices[i].sn != devices[j].sn);
            }
        }
        assert(now.devices[at].sn == row.sn);
        let k = place(now.devices, row.sn);
        assert(0 <= k < now.devices.len() && now.devices[k].sn == row.sn);
        assert(k == at) by {
            if k < at {
                assert(now.devices[k].sn != now.devices[at].sn);
            } else if at < k {
                assert(now.devices[at].sn != now.devices[k].sn);
            }
        }
        if !tracks(m.devices, row.sn) {
            assert(devices[at] == DeviceModel::fresh(row.sn)) by {
                if at < m.devices.len() {
                    assert(m.devices[at].sn == row.sn);
                }
            }
        }
    }
}

/// A state file does not take the number of devices past the cap either, however
/// many rows it has.
pub proof fn law_restore_keeps_cap(m: CoulombModel, rows: Seq<RowModel>, max_devices: usize)
    requires
        distinct(m.devices),
        within_cap(m, max_devices),
    ensures
        distinct(restored(m, rows, max_devices).devices),
        within_cap(restored(m, rows, max_devices), max_devices),
    decreases rows.len(),
{
    if rows.len() > 0 {
        law_restore_keeps_cap(m, rows.drop_last(), max_devices);
        lemma_row_restored(
            restored(m, rows.drop_last(), max_devices),
            rows.last(),
            max_devices,
        );
    }
}

// --- The counters never run ahead of the state file ---
/// Whether a row of `rows` holds at least `totals` for `sn`.
pub open spec fn recorded(rows: Seq<RowModel>, sn: Seq<char>, totals: Totals) -> bool {
    totals == Totals::none() || exists|k: int|
        0 <= k < rows.len() && (#[trigger] rows[k]).sn == sn && totals.within(rows[k].totals)
}

/// Whether the file holds at least what every counter shows.
pub open spec fn covered_by(m: CoulombModel, file: Seq<RowModel>) -> bool {
    forall|i: int|
        0 <= i < m.devices.len() ==> recorded(
            file,
            (#[trigger] m.devices[i]).sn,
            m.devices[i].exported,
        )
}

/// Whether the rows being written hold at least what every counter will show
/// once they have landed.
pub open spec fn carried_by(m: CoulombModel, rows: Seq<RowModel>) -> bool {
    forall|i: int|
        0 <= i < m.devices.len() ==> recorded(
            rows,
            (#[trigger] m.devices[i]).sn,
            m.devices[i].exported.plus(m.devices[i].in_flight),
        )
}

/// The write-ahead rule: `file` is what the disk holds, `rows` is what is being
/// written, if anything is.
pub open spec fn write_ahead(m: CoulombModel, file: Seq<RowModel>, rows: Seq<RowModel>) -> bool {
    &&& m.valid()
    &&& covered_by(m, file)
    &&& m.writing ==> carried_by(m, rows)
}

proof fn lemma_carried_is_covered(m: CoulombModel, rows: Seq<RowModel>)
    requires
        carried_by(m, rows),
    ensures
        covered_by(m, rows),
{
    assert forall|i: int| 0 <= i < m.devices.len() implies recorded(
        rows,
        (#[trigger] m.devices[i]).sn,
        m.devices[i].exported,
    ) by {
        let d = m.devices[i];
        let sum = d.exported.plus(d.in_flight);
        lemma_plus(d.exported, d.in_flight, Totals::none());
        if sum == Totals::none() {
            assert(d.exported == Totals::none());
        } else {
            let k = choose|k: int|
                0 <= k < rows.len() && (#[trigger] rows[k]).sn == d.sn && sum.within(
                    rows[k].totals,
                );
            assert(rows[k].sn == d.sn && d.exported.within(rows[k].totals));
        }
    }
}

proof fn lemma_file_rows_carry(m: CoulombModel)
    ensures
        carried_by(m, file_rows(m.devices)),
{
    let rows = file_rows(m.devices);
    assert forall|i: int| 0 <= i < m.devices.len() implies recorded(
        rows,
        (#[trigger] m.devices[i]).sn,
        m.devices[i].exported.plus(m.devices[i].in_flight),
    ) by {
        let sum = m.devices[i].exported.plus(m.devices[i].in_flight);
        lemma_plus(sum, sum, sum);
        assert(rows[i].sn == m.devices[i].sn && sum.within(rows[i].totals));
    }
}

/// A frame and an admission, even in the middle of a write, keep the
/// write-ahead rule.
pub proof fn law_frames_keep_write_ahead(
    m: CoulombModel,
    file: Seq<RowModel>,
    rows: Seq<RowModel>,
    opts: MetricsOptions,
    sn: Seq<char>,
    current_ma: Option<i32>,
    pack_mv: Option<u32>,
    now_us: u64,
)
    requires
        write_ahead(m, file, rows),
    ensures
        write_ahead(accumulated(m, opts, sn, current_ma, pack_mv, now_us), file, rows),
        write_ahead(admitted(m, sn, opts.max_devices), file, rows),
{
    lemma_with_device(m.devices, sn, opts.max_devices);
    if let Some(devices) = with_device(m.devices, sn, opts.max_devices) {
        let grown = CoulombModel { devices, ..m };
        lemma_plus(Totals::none(), Totals::none(), Totals::none());
        assert forall|i: int| 0 <= i < devices.len() implies {
            let d = #[trigger] devices[i];
            &&& recorded(file, d.sn, d.exported)
            &&& !m.writing ==> d.in_flight == Totals::none()
            &&& m.writing ==> recorded(rows, d.sn, d.exported.plus(d.in_flight))
        } by {
            if i < m.devices.len() {
                assert(devices[i] == m.devices[i]);
            } else {
                assert(devices[i] == DeviceModel::fresh(sn));
            }
        }
        assert(write_ahead(grown, file, rows));
        if let SampleOutcome::Integrated { .. } = outcome(
            m,
            opts,
            sn,
            current_ma,
            pack_mv,
            now_us,
        ) {
            let after = accumulated(m, opts, sn, current_ma, pack_mv, now_us);
            assert forall|i: int| 0 <= i < after.devices.len() implies (
            #[trigger] after.devices[i]).sn == devices[i].sn && after.devices[i].exported
                == devices[i].exported && after.devices[i].in_flight == devices[i].in_flight by {}
            assert(distinct(after.devices)) by {
                assert forall|i: int, j: int| 0 <= i < j < after.devices.len() implies (
                #[trigger] after.devices[i]).sn != (#[trigger] after.devices[j]).sn by {
                    assert(devices[i].sn != devices[j].sn);
                }
            }
            assert(write_ahead(after, file, rows));
        }
    }
}

/// Beginning a flush shows nothing new, and the rows to be written carry all
/// that a success will show.
pub proof fn law_begin_keeps_write_ahead(
    m: CoulombModel,
    file: Seq<RowModel>,
    rows: Seq<RowModel>,
    opts: MetricsOptions,
    force: bool,
    now_us: u64,
)
    requires
        write_ahead(m, file, rows),
        opts.persist_state,
    ensures
        ({
            let begun = flush_begun(m, opts, force, now_us);
            if flush_kind(m, opts, force, now_us) is Write {
                write_ahead(begun, file, file_rows(begun.devices))
            } else {
                write_ahead(begun, file, rows)
            }
        }),
{
    if flush_kind(m, opts, force, now_us) is Write {
        let begun = flush_begun(m, opts, force, now_us);
        lemma_file_rows_carry(begun);
        assert(distinct(begun.devices)) by {
            assert forall|i: int, j: int| 0 <= i < j < begun.devices.len() implies (
            #[trigger] begun.devices[i]).sn != (#[trigger] begun.devices[j]).sn by {
                assert(m.devices[i].sn != m.devices[j].sn);
            }
        }
        assert forall|i: int| 0 <= i < begun.devices.len() implies recorded(
            file,
            (#[trigger] begun.devices[i]).sn,
            begun.devices[i].exported,
        ) by {
            assert(recorded(file, m.devices[i].sn, m.devices[i].exported));
        }
    }
}

/// When a flush ends, the counters show no more than what the disk holds: the
/// new rows after a success, and after a failure whichever file the disk holds,
/// the old one or the new.
pub proof fn law_finish_keeps_write_ahead(
    m: CoulombModel,
    file: Seq<RowModel>,
    rows: Seq<RowModel>,
    now_us: u64,
)
    requires
        write_ahead(m, file, rows),
        m.writing,
    ensures
        write_ahead(flush_finished(m, true, now_us), rows, rows),
        write_ahead(flush_finished(m, false, now_us), file, rows),
        write_ahead(flush_finished(m, false, now_us), rows, rows),
        write_ahead(flush_aborted(m), file, rows),
{
    lemma_carried_is_covered(m, rows);
    assert forall|step: Move| step is Land || step is Requeue implies distinct(
        #[trigger] all_moved(m.devices, step),
    ) by {
        let devices = all_moved(m.devices, step);
        assert forall|i: int, j: int| 0 <= i < j < devices.len() implies (
        #[trigger] devices[i]).sn != (#[trigger] devices[j]).sn by {
            assert(m.devices[i].sn != m.devices[j].sn);
        }
    }
    let landed = flush_finished(m, true, now_us);
    assert forall|i: int| 0 <= i < landed.devices.len() implies recorded(
        rows,
        (#[trigger] landed.devices[i]).sn,
        landed.devices[i].exported,
    ) by {
        assert(recorded(
            rows,
            m.devices[i].sn,
            m.devices[i].exported.plus(m.devices[i].in_flight),
        ));
    }
    let failed = flush_finished(m, false, now_us);
    assert forall|i: int| 0 <= i < failed.devices.len() implies recorded(
        rows,
        (#[trigger] failed.devices[i]).sn,
        failed.devices[i].exported,
    ) && recorded(file, failed.devices[i].sn, failed.devices[i].exported) by {
        assert(recorded(rows, m.devices[i].sn, m.devices[i].exported));
        assert(recorded(file, m.devices[i].sn, m.devices[i].exported));
    }
    let aborted = flush_aborted(m);
    assert forall|i: int| 0 <= i < aborted.devices.len() implies recorded(
        file,
        (#[trigger] aborted.devices[i]).sn,
        aborted.devices[i].exported,
    ) by {
        assert(recorded(file, m.devices[i].sn, m.devices[i].exported));
    }
}

/// A failed write freezes the counters.
pub proof fn law_failed_write_freezes_counters(m: CoulombModel, now_us: u64, i: int)
    requires
        0 <= i < m.devices.len(),
    ensures
        flush_finished(m, false, now_us).devices[i].exported == m.devices[i].exported,
        flush_aborted(m).devices[i].exported == m.devices[i].exported,
{
}

// --- Restarts ---
/// No serial occurs twice in the rows.
pub open spec fn distinct_rows(rows: Seq<RowModel>) -> bool {
    forall|i: int, j: int|
        0 <= i < j < rows.len() ==> (#[trigger] rows[i]).sn != (#[trigger] rows[j]).sn
}

pub proof fn lemma_restored_rows(rows: Seq<RowModel>, max_devices: usize)
    requires
        distinct_rows(rows),
        max_devices == 0 || rows.len() <= max_devices,
    ensures
        ({
            let m = restored(CoulombModel::empty(), rows, max_devices);
            &&& distinct(m.devices)
            &&& m.devices.len() == rows.len()
            &&& forall|k: int|
                0 <= k < rows.len() ==> (#[trigger] m.devices[k]).sn == rows[k].sn
                    && m.devices[k].exported == rows[k].totals
        }),
    decreases rows.len(),
{
    if rows.len() > 0 {
        let head = rows.drop_last();
        let before = restored(CoulombModel::empty(), head, max_devices);
        lemma_restored_rows(head, max_devices);
        lemma_row_restored(before, rows.last(), max_devices);
        let m = restored(CoulombModel::empty(), rows, max_devices);
        assert(!tracks(before.devices, rows.last().sn)) by {
            assert forall|i: int| 0 <= i < before.devices.len() implies (
            #[trigger] before.devices[i]).sn != rows.last().sn by {
                assert(before.devices[i].sn == head[i].sn);
                assert(rows[i].sn != rows[rows.len() - 1].sn);
            }
        }
        assert(has_room(before.devices, max_devices));
        let at = place(m.devices, rows.last().sn);
        assert(at == before.devices.len()) by {
            if at < before.devices.len() {
                assert(m.devices[at].sn == before.devices[at].sn);
            }
        }
        assert forall|k: int| 0 <= k < rows.len() implies (#[trigger] m.devices[k]).sn == rows[k].sn
            && m.devices[k].exported == rows[k].totals by {
            if k < before.devices.len() {
                assert(before.devices[k].sn == head[k].sn);
                assert(before.devices[k].sn != rows.last().sn);
            }
        }
    }
}

/// A restart never makes a counter go down: what is restored from a file that
/// covers the counters shows at least as much for every device, as long as the
/// file itself does not exceed the device cap.
pub proof fn law_restart_never_decreases(
    m: CoulombModel,
    file: Seq<RowModel>,
    max_devices: usize,
    i: int,
)
    requires
        covered_by(m, file),
        distinct_rows(file),
        max_devices == 0 || file.len() <= max_devices,
        0 <= i < m.devices.len(),
    ensures
        ({
            let again = restored(CoulombModel::empty(), file, max_devices);
            recorded(file_rows(again.devices), m.devices[i].sn, m.devices[i].exported)
        }),
{
    let again = restored(CoulombModel::empty(), file, max_devices);
    lemma_restored_rows(file, max_devices);
    let d = m.devices[i];
    assert(recorded(file, d.sn, d.exported));
    if d.exported != Totals::none() {
        let k = choose|k: int|
            0 <= k < file.len() && (#[trigger] file[k]).sn == d.sn && d.exported.within(
                file[k].totals,
            );
        let row = file_rows(again.devices)[k];
        assert(again.devices[k].sn == file[k].sn);
        lemma_plus(again.devices[k].exported, again.devices[k].in_flight, Totals::none());
        lemma_plus(d.exported, file[k].totals, row.totals);
        assert(d.exported.within(row.totals));
    }
}

/// What is written is what comes back: restoring the rows of a flush gives each
/// device the totals that the rows hold.
pub proof fn law_state_round_trip(m: CoulombModel, max_devices: usize)
    requires
        m.valid(),
        within_cap(m, max_devices),
    ensures
        ({
            let rows = file_rows(m.devices);
            let again = restored(CoulombModel::empty(), rows, max_devices);
            &&& again.devices.len() == rows.len()
            &&& forall|k: int|
                0 <= k < rows.len() ==> (#[trigger] again.devices[k]).sn == rows[k].sn
                    && again.devices[k].exported == rows[k].totals
        }),
{
    let rows = file_rows(m.devices);
    assert forall|i: int, j: int| 0 <= i < j < rows.len() implies (#[trigger] rows[i]).sn != (
    #[trigger] rows[j]).sn by {
        assert(m.devices[i].sn != m.devices[j].sn);
    }
    lemma_restored_rows(rows, max_devices);
}

/// Persisting twice in a row shows no more than persisting once.
pub proof fn law_persist_is_idempotent(
    m: CoulombModel,
    opts: MetricsOptions,
    now_us: u64,
    later_us: u64,
)
    requires
        m.valid(),
        !m.writing,
        opts.persist_state,
    ensures
        ({
            let once = flush_finished(flush_begun(m, opts, true, now_us), true, now_us);
            let twice = flush_finished(flush_begun(once, opts, true, later_us), true, later_us);
            once.devices == twice.devices
        }),
{
    let once = flush_finished(flush_begun(m, opts, true, now_us), true, now_us);
    let twice = flush_finished(flush_begun(once, opts, true, later_us), true, later_us);
    assert forall|i: int| 0 <= i < once.devices.len() implies once.devices[i]
        == twice.devices[i] by {
        let d = once.devices[i];
        assert(d.pending == Totals::none() && d.in_flight == Totals::none());
        lemma_plus(d.exported, Totals::none(), Totals::none());
        assert(moved(moved(d, Move::Take), Move::Land) =~= d);
    }
    assert(once.devices =~= twice.devices);
}

/// Right after a forced flush succeeds, the counters show all that was counted.
pub proof fn law_persist_shows_everything(m: CoulombModel, opts: MetricsOptions, now_us: u64, i: int)
    requires
        m.valid(),
        !m.writing,
        opts.persist_state,
        0 <= i < m.devices.len(),
    ensures
        flush_finished(flush_begun(m, opts, true, now_us), true, now_us).devices[i].exported
            == m.devices[i].counted(),
{
    let d = m.devices[i];
    lemma_plus(d.exported, Totals::none(), Totals::none());
}

/// Without persistence every delta is shown at once.
pub proof fn law_unpersisted_deltas_show_at_once(
    m: CoulombModel,
    opts: MetricsOptions,
    force: bool,
    now_us: u64,
    i: int,
)
    requires
        m.valid(),
        !m.writing,
        !opts.persist_state,
        0 <= i < m.devices.len(),
    ensures
        flush_begun(m, opts, force, now_us).devices[i].exported == m.devices[i].counted(),
{
    let d = m.devices[i];
    lemma_plus(d.exported, Totals::none(), Totals::none());
}

// --- What an interval is worth ---
/// The time that counts between two frames (microseconds): none if the clock did
/// not advance, and at most the gap cap.
pub open spec fn time_between(last_us: u64, now_us: u64, gap_secs: u64) -> int {
    if now_us <= last_us {
        0
    } else if now_us - last_us <= gap_secs * 1_000_000 {
        now_us - last_us
    } else {
        gap_secs * 1_000_000
    }
}

/// A number that stops at the top of its range.
pub open spec fn stopped(v: int) -> int {
    if v <= 0xffff_ffff_ffff_ffff_ffff_ffff_ffff_ffff {
        v
    } else {
        0xffff_ffff_ffff_ffff_ffff_ffff_ffff_ffff
    }
}

/// What is above zero of a number.
pub open spec fn above_zero(v: int) -> int {
    if v > 0 {
        v
    } else {
        0
    }
}

/// A number cut at a ceiling, where there is one.
pub open spec fn cut(v: int, max: Option<u64>, unit: int) -> int {
    match max {
        Some(m) => if v <= m * unit {
            v
        } else {
            m * unit
        },
        None => v,
    }
}

/// Whether `sum` is the sum of `a` and `b`, each number stopping at the top of
/// its range.
pub open spec fn adds_up(a: Totals, b: Totals, sum: Totals) -> bool {
    &&& sum.ah.charge == stopped(a.ah.charge + b.ah.charge)
    &&& sum.ah.discharge == stopped(a.ah.discharge + b.ah.discharge)
    &&& sum.wh.charge == stopped(a.wh.charge + b.wh.charge)
    &&& sum.wh.discharge == stopped(a.wh.discharge + b.wh.discharge)
}

/// Whether nothing stands in any of the four totals.
pub open spec fn is_nothing(t: Totals) -> bool {
    t.ah.charge == 0 && t.ah.discharge == 0 && t.wh.charge == 0 && t.wh.discharge == 0
}

/// Twice the charge of an interval (mA times microseconds): both ends weigh the
/// same, so half of it is their mean times the time.
pub open spec fn double_charge(last: Baseline, current_ma: i32, now_us: u64, gap_secs: u64) -> int {
    (last.current_ma + current_ma) * time_between(last.at_us, now_us, gap_secs)
}

/// Twice the energy of an interval (microwatts times microseconds): none unless
/// both ends have a voltage.
pub open spec fn double_energy(
    last: Baseline,
    current_ma: i32,
    pack_mv: Option<u32>,
    now_us: u64,
    gap_secs: u64,
) -> int {
    match (last.pack_mv, pack_mv) {
        (Some(before), Some(now)) => (last.current_ma * before + current_ma * now) * time_between(
            last.at_us,
            now_us,
            gap_secs,
        ),
        _ => 0,
    }
}

/// An integral goes in one direction, and is the mean of both readings times the
/// time that counts, in halves.
pub proof fn law_trapezoid(prev: i64, cur: i64, dt_us: u64, gap_secs: u64)
    ensures
        ({
            let s = trapezoid(prev as int, cur as int, dt_us, gap_secs);
            let t = if dt_us <= gap_secs * 1_000_000 {
                dt_us as int
            } else {
                gap_secs * 1_000_000
            };
            &&& s.charge - s.discharge == (prev + cur) * t
            &&& s.charge == 0 || s.discharge == 0
            &&& trapezoid(cur as int, prev as int, dt_us, gap_secs) == s
            &&& trapezoid(-prev as int, -cur as int, dt_us, gap_secs).charge == s.discharge
        }),
{
    let t = if dt_us <= gap_secs * 1_000_000 {
        dt_us as int
    } else {
        gap_secs * 1_000_000
    };
    lemma_fits(prev + cur, t);
    assert((-prev - cur) * t == -((prev + cur) * t)) by (nonlinear_arith);
}

proof fn lemma_fits(sum: int, t: int)
    requires
        -0x1_0000_0000_0000_0000 <= sum <= 0x1_0000_0000_0000_0000,
        0 <= t <= 0xffff_ffff_ffff_ffff,
    ensures
        -0xffff_ffff_ffff_ffff_ffff_ffff_ffff_ffff <= sum * t
            <= 0xffff_ffff_ffff_ffff_ffff_ffff_ffff_ffff,
{
    assert(-0x1_0000_0000_0000_0000 * 0xffff_ffff_ffff_ffff <= sum * t <= 0x1_0000_0000_0000_0000
        * 0xffff_ffff_ffff_ffff) by (nonlinear_arith)
        requires
            -0x1_0000_0000_0000_0000 <= sum <= 0x1_0000_0000_0000_0000,
            0 <= t <= 0xffff_ffff_ffff_ffff,
    ;
}

/// One milliampere for one hour is one milliampere-hour, and one milliwatt for
/// one hour is one milliwatt-hour, in the units that the ceilings are given in.
pub proof fn law_units(n: u32, gap_secs: u64)
    requires
        gap_secs >= 3600,
    ensures
        trapezoid(n as int, n as int, 3_600_000_000, gap_secs).charge == n * UNITS_PER_MAH,
        trapezoid(1000 * n, 1000 * n, 3_600_000_000, gap_secs).charge == n * UNITS_PER_MWH,
        UNITS_PER_MAH == 7_200_000_000,
        UNITS_PER_MWH == 7_200_000_000_000,
{
    let t = counted_time(3_600_000_000, gap_secs);
    assert(t == 3_600_000_000);
    assert((n + n) * t == n * 7_200_000_000) by (nonlinear_arith)
        requires
            t == 3_600_000_000,
    ;
    assert((1000 * n + 1000 * n) * t == n * 7_200_000_000_000) by (nonlinear_arith)
        requires
            t == 3_600_000_000,
    ;
}

proof fn lemma_interval(
    last: Baseline,
    current_ma: i32,
    pack_mv: Option<u32>,
    now_us: u64,
    gap_secs: u64,
)
    ensures
        ({
            let q = double_charge(last, current_ma, now_us, gap_secs);
            let e = double_energy(last, current_ma, pack_mv, now_us, gap_secs);
            let t = interval(last, current_ma, pack_mv, now_us, gap_secs);
            &&& t.ah.charge == above_zero(q)
            &&& t.ah.discharge == above_zero(-q)
            &&& t.wh.charge == above_zero(e)
            &&& t.wh.discharge == above_zero(-e)
        }),
{
    let t = time_between(last.at_us, now_us, gap_secs);
    assert(t == counted_time(crate::coulomb::elapsed(last.at_us, now_us), gap_secs));
    lemma_fits(last.current_ma + current_ma, t);
    if let (Some(before), Some(now)) = (last.pack_mv, pack_mv) {
        assert(-0x8000_0000_0000_0000 <= last.current_ma * before <= 0x8000_0000_0000_0000)
            by (nonlinear_arith)
            requires
                -0x8000_0000 <= last.current_ma <= 0x7fff_ffff,
                0 <= before <= 0xffff_ffff,
        ;
        assert(-0x8000_0000_0000_0000 <= current_ma * now <= 0x8000_0000_0000_0000)
            by (nonlinear_arith)
            requires
                -0x8000_0000 <= current_ma <= 0x7fff_ffff,
                0 <= now <= 0xffff_ffff,
        ;
        lemma_fits(last.current_ma * before + current_ma * now, t);
    }
}

/// Exchanging the two readings of an interval leaves what it integrates to
/// unchanged: both ends weigh the same.
pub proof fn law_both_ends_weigh_the_same(
    last: Baseline,
    current_ma: i32,
    pack_mv: Option<u32>,
    now_us: u64,
    gap_secs: u64,
)
    ensures
        interval(last, current_ma, pack_mv, now_us, gap_secs) == interval(
            Baseline { at_us: last.at_us, current_ma, pack_mv },
            last.current_ma,
            last.pack_mv,
            now_us,
            gap_secs,
        ),
{
    let other = Baseline { at_us: last.at_us, current_ma, pack_mv };
    lemma_interval(last, current_ma, pack_mv, now_us, gap_secs);
    lemma_interval(other, last.current_ma, last.pack_mv, now_us, gap_secs);
}

/// Whether the limits let a reading pass.
pub open spec fn passes(limits: PlausibilityLimits, current_ma: i32, pack_mv: Option<u32>) -> bool {
    !too_much_current(limits, current_ma) && !odd_voltage(limits, pack_mv)
}

/// Whether a current exceeds the limit, in either direction.
pub open spec fn too_much_current(limits: PlausibilityLimits, current_ma: i32) -> bool {
    match limits.max_current_ma {
        Some(max) => current_ma > max || current_ma < -max,
        None => false,
    }
}

/// Whether a voltage lies outside the window; a bound of the window is inside.
pub open spec fn odd_voltage(limits: PlausibilityLimits, pack_mv: Option<u32>) -> bool {
    match pack_mv {
        Some(v) => {
            ||| limits.pack_mv.0 is Some && v < limits.pack_mv.0->Some_0
            ||| limits.pack_mv.1 is Some && v > limits.pack_mv.1->Some_0
        },
        None => false,
    }
}

/// A reading is faulted for its current first, then for its voltage, and for
/// nothing else.
pub proof fn law_faults(limits: PlausibilityLimits, current_ma: i32, pack_mv: Option<u32>)
    ensures
        limits.fault(current_ma, pack_mv) == (if too_much_current(limits, current_ma) {
            Some(SampleFault::ImplausibleCurrent)
        } else if odd_voltage(limits, pack_mv) {
            Some(SampleFault::ImplausibleVoltage)
        } else {
            None
        }),
{
}

/// Whether some device has this serial.
pub open spec fn is_known(m: CoulombModel, sn: Seq<char>) -> bool {
    exists|i: int| 0 <= i < m.devices.len() && (#[trigger] m.devices[i]).sn == sn
}

/// Whether the cap is reached; zero is no cap.
pub open spec fn is_full(m: CoulombModel, max_devices: usize) -> bool {
    max_devices != 0 && m.devices.len() >= max_devices
}

/// What becomes of a sample: one without a current is no sample, an implausible
/// one is rejected, one of an unknown device is turned away at the cap, and every
/// other one is integrated.
pub proof fn law_samples_are_sorted(
    m: CoulombModel,
    opts: MetricsOptions,
    sn: Seq<char>,
    current_ma: Option<i32>,
    pack_mv: Option<u32>,
    now_us: u64,
)
    ensures
        match (current_ma, outcome(m, opts, sn, current_ma, pack_mv, now_us)) {
            (None, o) => o is Absent,
            (Some(cur), SampleOutcome::Absent) => false,
            (Some(cur), SampleOutcome::Rejected(fault)) => {
                ||| fault is ImplausibleCurrent && too_much_current(opts.plausibility, cur)
                ||| fault is ImplausibleVoltage && !too_much_current(opts.plausibility, cur)
                    && odd_voltage(opts.plausibility, pack_mv)
            },
            (Some(cur), SampleOutcome::CapReached) => passes(opts.plausibility, cur, pack_mv)
                && !is_known(m, sn) && is_full(m, opts.max_devices),
            (Some(cur), SampleOutcome::Integrated { .. }) => passes(
                opts.plausibility,
                cur,
                pack_mv,
            ) && (is_known(m, sn) || !is_full(m, opts.max_devices)),
        },
{
}

/// Whether a device after a frame is the device before it, with this much more
/// waiting and the frame as its new baseline, and nothing else changed.
pub open spec fn frame_noted(
    before: DeviceModel,
    after: DeviceModel,
    charge: int,
    energy: int,
    opts: MetricsOptions,
    current_ma: i32,
    pack_mv: Option<u32>,
    now_us: u64,
) -> bool {
    &&& after.pending.ah.charge == stopped(
        before.pending.ah.charge + cut(above_zero(charge), opts.max_frame_mah, 7_200_000_000),
    )
    &&& after.pending.ah.discharge == stopped(
        before.pending.ah.discharge + cut(above_zero(-charge), opts.max_frame_mah, 7_200_000_000),
    )
    &&& after.pending.wh.charge == stopped(
        before.pending.wh.charge + cut(
            above_zero(energy),
            opts.max_frame_mwh,
            7_200_000_000_000,
        ),
    )
    &&& after.pending.wh.discharge == stopped(
        before.pending.wh.discharge + cut(
            above_zero(-energy),
            opts.max_frame_mwh,
            7_200_000_000_000,
        ),
    )
    &&& after.baseline == Some(Baseline { at_us: now_us, current_ma, pack_mv })
    &&& after.exported == before.exported
    &&& after.in_flight == before.in_flight
    &&& after.sn == before.sn
    &&& after.cells == before.cells
    &&& after.sensors == before.sensors
    &&& after.device_info == before.device_info
    &&& after.realtime_serial == before.realtime_serial
}

/// A plausible frame of a known device adds to what waits for it: charge is the
/// mean of both currents times the time that counts, and energy the mean of both
/// powers times that time, each in its direction and up to the ceiling of a frame.
/// Other devices are left alone. The first frame of a device adds nothing.
pub proof fn law_frame_adds_the_mean(
    m: CoulombModel,
    opts: MetricsOptions,
    sn: Seq<char>,
    current_ma: i32,
    pack_mv: Option<u32>,
    now_us: u64,
    i: int,
)
    requires
        distinct(m.devices),
        0 <= i < m.devices.len(),
        m.devices[i].sn == sn,
        passes(opts.plausibility, current_ma, pack_mv),
    ensures
        ({
            let next = accumulated(m, opts, sn, Some(current_ma), pack_mv, now_us);
            let gap = opts.coulomb_max_gap_secs;
            &&& next.devices.len() == m.devices.len()
            &&& match m.devices[i].baseline {
                Some(last) => frame_noted(
                    m.devices[i],
                    next.devices[i],
                    double_charge(last, current_ma, now_us, gap),
                    double_energy(last, current_ma, pack_mv, now_us, gap),
                    opts,
                    current_ma,
                    pack_mv,
                    now_us,
                ),
                None => frame_noted(
                    m.devices[i],
                    next.devices[i],
                    0,
                    0,
                    opts,
                    current_ma,
                    pack_mv,
                    now_us,
                ),
            }
            &&& forall|k: int|
                0 <= k < m.devices.len() && k != i ==> #[trigger] next.devices[k] == m.devices[k]
            &&& next.writing == m.writing
            &&& next.last_persist_at == m.last_persist_at
        }),
{
    lemma_with_device(m.devices, sn, opts.max_devices);
    let at = place(m.devices, sn);
    assert(tracks(m.devices, sn));
    assert(at == i) by {
        if at < i {
            assert(m.devices[at].sn != m.devices[i].sn);
        } else if i < at {
            assert(m.devices[i].sn != m.devices[at].sn);
        }
    }
    if let Some(last) = m.devices[i].baseline {
        lemma_interval(last, current_ma, pack_mv, now_us, opts.coulomb_max_gap_secs);
    }
    if let Some(max) = opts.max_frame_mah {
        lemma_ceiling_fits(max);
    }
    if let Some(max) = opts.max_frame_mwh {
        lemma_ceiling_fits(max);
    }
}

proof fn lemma_ceiling_fits(max: u64)
    ensures
        0 <= max * 7_200_000_000 <= 0xffff_ffff_ffff_ffff_ffff_ffff_ffff_ffff,
        0 <= max * 7_200_000_000_000 <= 0xffff_ffff_ffff_ffff_ffff_ffff_ffff_ffff,
{
}

/// A frame of an unknown device that there is room for starts it: last in the
/// list, with this frame as its baseline and nothing counted.
pub proof fn law_first_frame_starts_a_device(
    m: CoulombModel,
    opts: MetricsOptions,
    sn: Seq<char>,
    current_ma: i32,
    pack_mv: Option<u32>,
    now_us: u64,
)
    requires
        distinct(m.devices),
        !is_known(m, sn),
        !is_full(m, opts.max_devices),
        passes(opts.plausibility, current_ma, pack_mv),
    ensures
        ({
            let next = accumulated(m, opts, sn, Some(current_ma), pack_mv, now_us).devices;
            let d = next[m.devices.len() as int];
            &&& next.len() == m.devices.len() + 1
            &&& forall|k: int| 0 <= k < m.devices.len() ==> #[trigger] next[k] == m.devices[k]
            &&& d.sn == sn
            &&& d.baseline == Some(Baseline { at_us: now_us, current_ma, pack_mv })
            &&& is_nothing(d.pending) && is_nothing(d.in_flight) && is_nothing(d.exported)
        }),
{
    lemma_with_device(m.devices, sn, opts.max_devices);
    let devices = with_device(m.devices, sn, opts.max_devices)->Some_0;
    let at = place(devices, sn);
    assert(!tracks(m.devices, sn));
    if at < m.devices.len() {
        assert(m.devices[at].sn == sn);
    }
    if let Some(max) = opts.max_frame_mah {
        lemma_ceiling_fits(max);
    }
    if let Some(max) = opts.max_frame_mwh {
        lemma_ceiling_fits(max);
    }
}

/// A frame is reported as cut exactly when it is worth more than a ceiling allows,
/// in charge or in energy, in either direction.
pub proof fn law_cuts_are_reported(
    m: CoulombModel,
    opts: MetricsOptions,
    sn: Seq<char>,
    current_ma: i32,
    pack_mv: Option<u32>,
    now_us: u64,
    i: int,
)
    requires
        distinct(m.devices),
        0 <= i < m.devices.len(),
        m.devices[i].sn == sn,
        m.devices[i].baseline is Some,
        passes(opts.plausibility, current_ma, pack_mv),
    ensures
        ({
            let last = m.devices[i].baseline->Some_0;
            let gap = opts.coulomb_max_gap_secs;
            let q = double_charge(last, current_ma, now_us, gap);
            let e = double_energy(last, current_ma, pack_mv, now_us, gap);
            outcome(m, opts, sn, Some(current_ma), pack_mv, now_us) == (
            SampleOutcome::Integrated {
                clamped: {
                    ||| opts.max_frame_mah is Some && (q > opts.max_frame_mah->Some_0
                        * 7_200_000_000 || -q > opts.max_frame_mah->Some_0 * 7_200_000_000)
                    ||| opts.max_frame_mwh is Some && (e > opts.max_frame_mwh->Some_0
                        * 7_200_000_000_000 || -e > opts.max_frame_mwh->Some_0
                        * 7_200_000_000_000)
                },
            })
        }),
{
    lemma_with_device(m.devices, sn, opts.max_devices);
    let at = place(m.devices, sn);
    assert(tracks(m.devices, sn));
    assert(at == i) by {
        if at < i {
            assert(m.devices[at].sn != m.devices[i].sn);
        } else if i < at {
            assert(m.devices[i].sn != m.devices[at].sn);
        }
    }
    let last = m.devices[i].baseline->Some_0;
    lemma_interval(last, current_ma, pack_mv, now_us, opts.coulomb_max_gap_secs);
    if let Some(max) = opts.max_frame_mah {
        lemma_ceiling_fits(max);
    }
    if let Some(max) = opts.max_frame_mwh {
        lemma_ceiling_fits(max);
    }
}

/// A sample without a current, an implausible one, and one of an unknown device past
/// the cap leave the accounting as it is. The first frame of a device is never cut.
pub proof fn law_other_samples_change_nothing(
    m: CoulombModel,
    opts: MetricsOptions,
    sn: Seq<char>,
    current_ma: Option<i32>,
    pack_mv: Option<u32>,
    now_us: u64,
)
    requires
        distinct(m.devices),
    ensures
        current_ma is None || !passes(opts.plausibility, current_ma->Some_0, pack_mv) || !is_known(
            m,
            sn,
        ) && is_full(m, opts.max_devices) ==> accumulated(
            m,
            opts,
            sn,
            current_ma,
            pack_mv,
            now_us,
        ) == m,
        (forall|i: int|
            0 <= i < m.devices.len() && (#[trigger] m.devices[i]).sn == sn
                ==> m.devices[i].baseline is None) ==> match outcome(
            m,
            opts,
            sn,
            current_ma,
            pack_mv,
            now_us,
        ) {
            SampleOutcome::Integrated { clamped } => !clamped,
            _ => true,
        },
{
    lemma_with_device(m.devices, sn, opts.max_devices);
    if let Some(devices) = with_device(m.devices, sn, opts.max_devices) {
        let at = place(devices, sn);
        if at < m.devices.len() {
            assert(m.devices[at] == devices[at]);
        }
    }
}

/// Admission reserves a place for a device while there is room: a known one keeps
/// its place, a new one comes last with nothing counted, and past the cap nothing
/// changes. Without a cap no place is reserved.
pub proof fn law_admission(m: CoulombModel, sn: Seq<char>, max_devices: usize)
    ensures
        ({
            let next = admitted(m, sn, max_devices);
            &&& max_devices == 0 || is_known(m, sn) || is_full(m, max_devices) ==> next == m
            &&& max_devices != 0 && !is_known(m, sn) && !is_full(m, max_devices) ==> {
                let d = next.devices[m.devices.len() as int];
                &&& next.devices.len() == m.devices.len() + 1
                &&& forall|k: int|
                    0 <= k < m.devices.len() ==> #[trigger] next.devices[k] == m.devices[k]
                &&& d.sn == sn
                &&& d.baseline is None && d.device_info is None && d.realtime_serial is None
                &&& is_nothing(d.pending) && is_nothing(d.in_flight) && is_nothing(d.exported)
                &&& next.writing == m.writing
                &&& next.last_persist_at == m.last_persist_at
            }
        }),
{
}

// --- When and what a flush writes ---
/// Whether something waits for some device, wherever it stands.
pub open spec fn something_waits(m: CoulombModel) -> bool {
    exists|i: int| 0 <= i < m.devices.len() && !is_nothing((#[trigger] m.devices[i]).pending)
}

/// Whether the last attempt is less than the minimum interval ago.
pub open spec fn too_soon(m: CoulombModel, opts: MetricsOptions, now_us: u64) -> bool {
    match m.last_persist_at {
        Some(at) => now_us < at + opts.state_min_interval_secs * 1_000_000 && (
        opts.state_min_interval_secs > 0),
        None => false,
    }
}

/// Which step a flush takes. Without persistence deltas are shown at once. With
/// it, a flush writes unless a write is under way; unforced, it also needs that
/// something waits for some device and that the last attempt is not too recent.
pub proof fn law_flush_decisions(m: CoulombModel, opts: MetricsOptions, force: bool, now_us: u64)
    ensures
        !opts.persist_state ==> flush_kind(m, opts, force, now_us) is Applied,
        opts.persist_state ==> (flush_kind(m, opts, force, now_us) is Write <==> !m.writing && (
        force || something_waits(m) && !too_soon(m, opts, now_us))),
        opts.persist_state ==> (flush_kind(m, opts, force, now_us) is Idle <==> m.writing || !force
            && (!something_waits(m) || too_soon(m, opts, now_us))),
{
    assert(something_waits(m) <==> any_pending(m.devices)) by {
        if any_pending(m.devices) {
            let i = choose|i: int|
                0 <= i < m.devices.len() && (#[trigger] m.devices[i]).pending != Totals::none();
            assert(!is_nothing(m.devices[i].pending));
        }
        if something_waits(m) {
            let i = choose|i: int|
                0 <= i < m.devices.len() && !is_nothing((#[trigger] m.devices[i]).pending);
            assert(m.devices[i].pending != Totals::none());
        }
    }
}

/// With persistence on, no write under way and no recent attempt, whatever waits
/// for any one device is written.
pub proof fn law_whatever_waits_is_written(
    m: CoulombModel,
    opts: MetricsOptions,
    now_us: u64,
    i: int,
)
    requires
        opts.persist_state,
        !m.writing,
        !too_soon(m, opts, now_us),
        0 <= i < m.devices.len(),
        !is_nothing(m.devices[i].pending),
    ensures
        flush_kind(m, opts, false, now_us) is Write,
        ({
            let next = flush_begun(m, opts, false, now_us);
            let row = file_rows(next.devices)[i];
            &&& next.writing
            &&& row.sn == m.devices[i].sn
            &&& adds_up(m.devices[i].exported, m.devices[i].pending, row.totals)
        }),
{
    assert(something_waits(m));
    law_flush_decisions(m, opts, false, now_us);
}

/// Whether two devices differ in nothing but the stages of what they count.
pub open spec fn same_but_stages(a: DeviceModel, b: DeviceModel) -> bool {
    &&& a.sn == b.sn
    &&& a.cells == b.cells
    &&& a.sensors == b.sensors
    &&& a.baseline == b.baseline
    &&& a.device_info == b.device_info
    &&& a.realtime_serial == b.realtime_serial
}

/// What the beginning of a flush does to each device: a write takes along all that
/// waits, and without persistence all of it is shown.
pub proof fn law_flush_begins(
    m: CoulombModel,
    opts: MetricsOptions,
    force: bool,
    now_us: u64,
    i: int,
)
    requires
        0 <= i < m.devices.len(),
    ensures
        ({
            let next = flush_begun(m, opts, force, now_us);
            let a = m.devices[i];
            let b = next.devices[i];
            &&& next.devices.len() == m.devices.len()
            &&& next.last_persist_at == m.last_persist_at
            &&& same_but_stages(a, b)
            &&& match flush_kind(m, opts, force, now_us) {
                FlushKind::Idle => next == m,
                FlushKind::Applied => is_nothing(b.pending) && adds_up(
                    a.exported,
                    a.pending,
                    b.exported,
                ) && b.in_flight == a.in_flight && next.writing == m.writing,
                FlushKind::Write => is_nothing(b.pending) && b.in_flight == a.pending && b.exported
                    == a.exported && next.writing,
            }
        }),
{
}

/// What the end of a flush does to each device: a write that succeeded is shown,
/// and one that failed or was given up waits again. A finished write, whether it
/// succeeded or not, stamps the time of the attempt; one given up does not.
pub proof fn law_flush_ends(m: CoulombModel, written: bool, now_us: u64, i: int)
    requires
        0 <= i < m.devices.len(),
    ensures
        ({
            let done = flush_finished(m, written, now_us);
            let left = flush_aborted(m);
            let a = m.devices[i];
            let b = done.devices[i];
            let c = left.devices[i];
            &&& done.devices.len() == m.devices.len() && left.devices.len() == m.devices.len()
            &&& !done.writing && !left.writing
            &&& done.last_persist_at == Some(now_us)
            &&& left.last_persist_at == m.last_persist_at
            &&& same_but_stages(a, b) && same_but_stages(a, c)
            &&& is_nothing(b.in_flight) && is_nothing(c.in_flight)
            &&& written ==> adds_up(a.exported, a.in_flight, b.exported) && b.pending == a.pending
            &&& !written ==> b.exported == a.exported && adds_up(a.pending, a.in_flight, b.pending)
            &&& c.exported == a.exported && adds_up(a.pending, a.in_flight, c.pending)
        }),
{
}

/// The rows of a state file: one for each device, in order, with what is shown and
/// what is in flight.
pub proof fn law_rows_of_a_file(devices: Seq<DeviceModel>, i: int)
    requires
        0 <= i < devices.len(),
    ensures
        file_rows(devices).len() == devices.len(),
        file_rows(devices)[i].sn == devices[i].sn,
        adds_up(devices[i].exported, devices[i].in_flight, file_rows(devices)[i].totals),
{
}

/// A restart takes the rows of a file in order, as many as the cap allows, and
/// shows for each device what its row holds. Nothing waits then.
pub proof fn law_restore_takes_rows_in_order(rows: Seq<RowModel>, max_devices: usize)
    requires
        distinct_rows(rows),
    ensures
        ({
            let m = restored(CoulombModel::empty(), rows, max_devices);
            let n = if max_devices == 0 || rows.len() <= max_devices {
                rows.len() as int
            } else {
                max_devices as int
            };
            &&& m.devices.len() == n
            &&& restored_count(CoulombModel::empty(), rows, max_devices) == n
            &&& distinct(m.devices)
            &&& !m.writing && m.last_persist_at is None
            &&& forall|k: int|
                0 <= k < n ==> (#[trigger] m.devices[k]).sn == rows[k].sn && m.devices[k].exported
                    == rows[k].totals && is_nothing(m.devices[k].pending) && is_nothing(
                    m.devices[k].in_flight,
                ) && m.devices[k].baseline is None
        }),
    decreases rows.len(),
{
    if rows.len() > 0 {
        let head = rows.drop_last();
        let before = restored(CoulombModel::empty(), head, max_devices);
        law_restore_takes_rows_in_order(head, max_devices);
        lemma_row_restored(before, rows.last(), max_devices);
        let m = restored(CoulombModel::empty(), rows, max_devices);
        assert(!tracks(before.devices, rows.last().sn)) by {
            assert forall|i: int| 0 <= i < before.devices.len() implies (
            #[trigger] before.devices[i]).sn != rows.last().sn by {
                assert(before.devices[i].sn == head[i].sn);
                assert(rows[i].sn != rows[rows.len() - 1].sn);
            }
        }
        if has_room(before.devices, max_devices) {
            lemma_with_device(before.devices, rows.last().sn, max_devices);
            let devices = with_device(before.devices, rows.last().sn, max_devices)->Some_0;
            let at = place(devices, rows.last().sn);
            assert(at == before.devices.len()) by {
                if at < before.devices.len() {
                    assert(devices[at].sn == before.devices[at].sn);
                }
            }
            assert forall|k: int| 0 <= k < m.devices.len() implies (#[trigger] m.devices[k]).sn
                == rows[k].sn && m.devices[k].exported == rows[k].totals && is_nothing(
                m.devices[k].pending,
            ) && is_nothing(m.devices[k].in_flight) && m.devices[k].baseline is None by {
                if k < before.devices.len() {
                    assert(m.devices[k] == before.devices[k]);
                    assert(head[k] == rows[k]);
                }
            }
        } else {
            assert forall|k: int| 0 <= k < m.devices.len() implies (#[trigger] m.devices[k]).sn
                == rows[k].sn && m.devices[k].exported == rows[k].totals && is_nothing(
                m.devices[k].pending,
            ) && is_nothing(m.devices[k].in_flight) && m.devices[k].baseline is None by {
                assert(head[k] == rows[k]);
            }
        }
    }
}

/// One row more is restored unless the cap is reached: it adds to what its device
/// shows, or starts the device with it. Other devices are left alone. At the cap no
/// row is restored, not even one of a known device.
pub proof fn law_each_row_is_restored(
    m: CoulombModel,
    rows: Seq<RowModel>,
    row: RowModel,
    max_devices: usize,
)
    requires
        distinct(m.devices),
    ensures
        ({
            let a = restored(m, rows, max_devices);
            let b = restored(m, rows.push(row), max_devices);
            let count = restored_count(m, rows, max_devices);
            &&& is_full(a, max_devices) ==> b == a && restored_count(
                m,
                rows.push(row),
                max_devices,
            ) == count
            &&& !is_full(a, max_devices) ==> {
                &&& restored_count(m, rows.push(row), max_devices) == count + 1
                &&& b.writing == a.writing && b.last_persist_at == a.last_persist_at
                &&& forall|i: int|
                    0 <= i < a.devices.len() && (#[trigger] a.devices[i]).sn != row.sn
                        ==> b.devices[i] == a.devices[i]
                &&& forall|i: int|
                    0 <= i < a.devices.len() && (#[trigger] a.devices[i]).sn == row.sn ==> {
                        &&& b.devices.len() == a.devices.len()
                        &&& adds_up(a.devices[i].exported, row.totals, b.devices[i].exported)
                        &&& b.devices[i].pending == a.devices[i].pending
                        &&& b.devices[i].in_flight == a.devices[i].in_flight
                        &&& same_but_stages(a.devices[i], b.devices[i])
                    }
                &&& !is_known(a, row.sn) ==> {
                    let d = b.devices[a.devices.len() as int];
                    &&& b.devices.len() == a.devices.len() + 1
                    &&& d.sn == row.sn && d.exported == row.totals
                    &&& is_nothing(d.pending) && is_nothing(d.in_flight) && d.baseline is None
                }
            }
        }),
{
    assert(rows.push(row).drop_last() =~= rows);
    assert(rows.push(row).last() == row);
    lemma_restored_distinct(m, rows, max_devices);
    let a = restored(m, rows, max_devices);
    let b = restored(m, rows.push(row), max_devices);
    lemma_with_device(a.devices, row.sn, max_devices);
    if !is_full(a, max_devices) {
        let devices = with_device(a.devices, row.sn, max_devices)->Some_0;
        let at = place(devices, row.sn);
        assert(is_known(a, row.sn) <==> tracks(a.devices, row.sn));
        assert forall|i: int|
            0 <= i < a.devices.len() && (#[trigger] a.devices[i]).sn == row.sn implies at == i by {
            if at < i {
                assert(devices[at].sn != devices[i].sn);
            } else if i < at {
                assert(devices[i].sn != devices[at].sn);
            }
        }
        if !is_known(a, row.sn) {
            if at < a.devices.len() {
                assert(a.devices[at].sn == row.sn);
            }
            assert(at == a.devices.len());
        }
    }
}

proof fn lemma_restored_distinct(m: CoulombModel, rows: Seq<RowModel>, max_devices: usize)
    requires
        distinct(m.devices),
    ensures
        distinct(restored(m, rows, max_devices).devices),
    decreases rows.len(),
{
    if rows.len() > 0 {
        lemma_restored_distinct(m, rows.drop_last(), max_devices);
        lemma_row_restored(
            restored(m, rows.drop_last(), max_devices),
            rows.last(),
            max_devices,
        );
    }
}

/// The labels of the faults.
pub proof fn law_fault_labels()
    ensures
        SampleFault::ImplausibleCurrent.label() == "implausible_current"@,
        SampleFault::ImplausibleVoltage.label() == "implausible_voltage"@,
        SampleFault::ClampedDelta.label() == "clamped_delta"@,
{
}

} // verus!
