//! What becomes of requests, bodies and frames.

use vstd::prelude::*;

use crate::config::Config;
use crate::coulomb::{accumulated, outcome, tracks};
use crate::coulomb_laws::{is_full, is_known, law_samples_are_sorted, passes};
use crate::decode::{Block, ConfigData, RealtimeData};
use crate::error::DecodeError;
use crate::frame_laws::{lemma_ticks, ticks};
use crate::metrics::{
    config_applied, config_asks, realtime_applied, realtime_asks, rejections, MetricsModel,
};
use crate::modbus::{request_start_text, response_text};
use crate::payload::TelemetryBody;
use crate::series::{count_at, counted_times, law_counting_adds_up, series_slot, Table};
use crate::server::{
    admission, body_judged, config_handled, current_milli, encodable, endpoint_of, entry_content,
    frame_handled, mismatched, pack_milli, realtime_flushes, realtime_handled, reason_of,
    Admission, EntryEffect,
};

verus! {

// --- Endpoints ---
/// Each path is counted under its endpoint. The two device paths come before the
/// configured one, and the configured one before the health check.
pub proof fn law_endpoints(path: Seq<char>, metrics_path: Seq<char>)
    ensures
        ({
            let e = endpoint_of(path, metrics_path);
            let device = path == "/api/v2/http2/SaveThingInfo1"@ || path
                == "/api/v2/http2/SaveThing"@;
            &&& path == "/api/v2/http2/SaveThingInfo1"@ ==> e == "telemetry"@
            &&& path == "/api/v2/http2/SaveThing"@ ==> e == "registration"@
            &&& !device && path == metrics_path ==> e == "metrics"@
            &&& path != metrics_path && path == "/healthz"@ ==> e == "healthz"@
            &&& !device && path != metrics_path && path != "/healthz"@ ==> e == "other"@
        }),
{
    reveal_strlit("/api/v2/http2/SaveThingInfo1");
    reveal_strlit("/api/v2/http2/SaveThing");
    reveal_strlit("/healthz");
    assert("/api/v2/http2/SaveThingInfo1"@.len() == 28);
    assert("/api/v2/http2/SaveThing"@.len() == 23);
    assert("/healthz"@.len() == 8);
}

// --- Bodies ---
/// A body is unreadable, or its serial is not accepted, or it is of an unknown
/// device past the cap, or it is taken; in this order.
pub proof fn law_bodies_are_sorted(m: MetricsModel, config: Config, body: Option<TelemetryBody>)
    ensures
        ({
            let a = admission(m, config, body);
            let sn = body->Some_0.sn@;
            let fits = is_known(m.coulombs, sn) || !is_full(m.coulombs, m.options.max_devices);
            &&& a is Unreadable <==> body is None
            &&& a is SerialRejected <==> body is Some && !config.accepts(sn)
            &&& a is DeviceLimit <==> body is Some && config.accepts(sn) && !fits
            &&& a is Accepted <==> body is Some && config.accepts(sn) && fits
        }),
{
    if body is Some {
        let sn = body->Some_0.sn@;
        assert(is_known(m.coulombs, sn) <==> tracks(m.coulombs.devices, sn));
    }
}

/// Whether a counter went up by `n`, around the end of its range, and no other
/// counter of its family changed.
pub open spec fn climbs(a: Table<u64>, b: Table<u64>, labels: Seq<Seq<char>>, n: int) -> bool {
    let slot = series_slot(labels);
    let start = if a.dom().contains(slot) {
        a[slot].1 as int
    } else {
        0
    };
    &&& b.dom().contains(slot)
    &&& b[slot].1 == (start + n) % 0x1_0000_0000_0000_0000
    &&& forall|s: u64|
        s != slot ==> #[trigger] b.dom().contains(s) == a.dom().contains(s) && b[s] == a[s]
}

proof fn lemma_climbs(table: Table<u64>, labels: Seq<Seq<char>>, n: nat)
    requires
        n > 0,
    ensures
        climbs(table, counted_times(table, labels, n), labels, n as int),
{
    law_counting_adds_up(table, labels, n);
    let b = counted_times(table, labels, n);
    assert(count_at(b, series_slot(labels)) == b[series_slot(labels)].1);
}

/// A body that is refused adds to the dropped frames one for each entry, or one if it
/// has none; one that cannot be read adds one. A body that is taken adds nothing.
pub proof fn law_refused_bodies_count_their_entries(
    m: MetricsModel,
    config: Config,
    body: Option<TelemetryBody>,
)
    ensures
        ({
            let a = m.frames_dropped;
            let b = body_judged(m, config, body).frames_dropped;
            let entries = body->Some_0.data@.len();
            let n = if entries > 1 {
                entries as int
            } else {
                1
            };
            match admission(m, config, body) {
                Admission::Unreadable => climbs(a, b, seq!["bad_json"@], 1),
                Admission::SerialRejected => climbs(a, b, seq!["serial_rejected"@], n),
                Admission::DeviceLimit => climbs(a, b, seq!["device_limit"@], n),
                Admission::Accepted => b == a,
            }
        }),
{
    let n = crate::server::drops(body->Some_0.data@.len());
    lemma_climbs(m.frames_dropped, seq!["serial_rejected"@], n);
    lemma_climbs(m.frames_dropped, seq!["device_limit"@], n);
    reveal_with_fuel(counted_times, 2);
    lemma_climbs(m.frames_dropped, seq!["bad_json"@], 1);
}

// --- Entries ---
/// The drop reasons of the errors.
pub proof fn law_drop_reasons(e: DecodeError)
    ensures
        e is BadHex ==> reason_of(e) == "bad_hex"@,
        e is TooShort ==> reason_of(e) == "too_short"@,
        e is BadAddress || e is BadFunction || e is BadByteCount ==> reason_of(e) == "bad_frame"@,
        e is CrcMismatch ==> reason_of(e) == "crc"@,
        e is UnknownBlock ==> reason_of(e) == "unknown_block"@,
{
}

/// An entry is read in this order: its request, the block that its request starts at,
/// its response. The first that fails says why it is dropped; what arrives is the
/// block and the registers of the response.
pub proof fn law_entries_are_read_in_order(command: Seq<u8>, data: Seq<u8>)
    ensures
        match entry_content(command, data) {
            Err((reason, e)) => {
                ||| request_start_text(command) == Err::<u16, DecodeError>(e) && reason
                    == "bad_command"@
                ||| request_start_text(command) is Ok && request_start_text(command)->Ok_0 != 0
                    && request_start_text(command)->Ok_0 != 128 && reason == "unknown_block"@ && e
                    == DecodeError::UnknownBlock(request_start_text(command)->Ok_0)
                ||| request_start_text(command) is Ok && (request_start_text(command)->Ok_0 == 0
                    || request_start_text(command)->Ok_0 == 128) && response_text(data) == Err::<
                    Seq<u16>,
                    DecodeError,
                >(e) && reason == reason_of(e)
            },
            Ok((block, regs)) => {
                &&& request_start_text(command) is Ok
                &&& request_start_text(command)->Ok_0 == (if block is Realtime {
                    0int
                } else {
                    128int
                })
                &&& response_text(data) == Ok::<Seq<u16>, DecodeError>(regs)
            },
        },
{
}

// --- Frames ---
/// What a realtime frame leads to: it is shown; its current and voltage are integrated
/// in thousandths, a hundred times their tenths; it is counted as decoded, and its
/// sample as rejected where it is.
pub proof fn law_realtime_frames_are_handled(
    m: MetricsModel,
    sn: Seq<char>,
    d: RealtimeData,
    now_us: u64,
    current_ma: Option<i32>,
    pack_mv: Option<u32>,
)
    requires
        encodable(d),
        current_ma is Some <==> d.current_da is Some,
        current_ma is Some ==> current_ma->Some_0 == 100 * d.current_da->Some_0,
        pack_mv is Some <==> d.pack_dv is Some,
        pack_mv is Some ==> pack_mv->Some_0 == 100 * d.pack_dv->Some_0,
    ensures
        ({
            let shown = realtime_applied(m, sn, d);
            let next = realtime_handled(m, sn, d, now_us);
            let what = outcome(shown.coulombs, m.options, sn, current_ma, pack_mv, now_us);
            &&& next.coulombs == accumulated(
                shown.coulombs,
                m.options,
                sn,
                current_ma,
                pack_mv,
                now_us,
            )
            &&& next.coulomb_samples_rejected == rejections(m.coulomb_samples_rejected, what)
            &&& ticks(m.frames_decoded, next.frames_decoded, seq!["realtime"@])
            &&& next.frames_dropped == m.frames_dropped
            &&& next.http_requests == m.http_requests
            &&& next.state_write_errors == m.state_write_errors
            &&& next.charge_cycles == shown.charge_cycles
            &&& next.charge_mos == shown.charge_mos
            &&& next.discharge_mos == shown.discharge_mos
            &&& next.balancer_active == shown.balancer_active
            &&& next.balancing_cell_count == shown.balancing_cell_count
            &&& next.alarm_bits == shown.alarm_bits
            &&& next.alarm == shown.alarm
            &&& next.balance_enable == shown.balance_enable
            &&& next.device_info == shown.device_info
            &&& next.options == m.options
        }),
{
    assert(current_milli(d) == current_ma);
    assert(pack_milli(d) == pack_mv);
    lemma_ticks(m.frames_decoded, seq!["realtime"@]);
}

/// A realtime frame asks for a flush exactly when it has a current, its readings are
/// plausible and its device is known or there is room for it.
pub proof fn law_integrated_frames_ask_for_a_flush(
    m: MetricsModel,
    sn: Seq<char>,
    d: RealtimeData,
    now_us: u64,
    pack_mv: Option<u32>,
)
    requires
        encodable(d),
        pack_mv is Some <==> d.pack_dv is Some,
        pack_mv is Some ==> pack_mv->Some_0 == 100 * d.pack_dv->Some_0,
    ensures
        realtime_flushes(m, sn, d, now_us) <==> {
            &&& d.current_da is Some
            &&& passes(m.options.plausibility, (100 * d.current_da->Some_0) as i32, pack_mv)
            &&& is_known(m.coulombs, sn) || !is_full(m.coulombs, m.options.max_devices)
        },
{
    let shown = realtime_applied(m, sn, d).coulombs;
    assert(pack_milli(d) == pack_mv);
    law_samples_are_sorted(shown, m.options, sn, current_milli(d), pack_mv, now_us);
    let devices = m.coulombs.devices;
    assert(is_known(m.coulombs, sn) <==> tracks(devices, sn));
    if is_known(m.coulombs, sn) || !is_full(m.coulombs, m.options.max_devices) {
        let now = crate::coulomb::with_device(devices, sn, m.options.max_devices)->Some_0;
        let at = crate::coulomb::place(now, sn);
        assert(tracks(now, sn)) by {
            if !tracks(devices, sn) {
                assert(now[devices.len() as int].sn == sn);
            }
        }
        assert(shown.devices[at].sn == sn);
    } else {
        assert(shown == m.coulombs);
    }
}

/// A realtime frame is at odds with its body exactly when it carries a serial that is
/// another one.
pub proof fn law_mismatches(d: RealtimeData, sn: Seq<char>)
    ensures
        mismatched(d, sn) <==> d.serial is Some && d.serial->Some_0@ != sn,
{
}

/// What a config frame leads to: it is shown and counted as decoded.
pub proof fn law_config_frames_are_handled(m: MetricsModel, sn: Seq<char>, c: ConfigData)
    ensures
        ({
            let shown = config_applied(m, sn, c);
            let next = config_handled(m, sn, c);
            &&& ticks(m.frames_decoded, next.frames_decoded, seq!["config"@])
            &&& next == (MetricsModel { frames_decoded: next.frames_decoded, ..shown })
        }),
{
    lemma_ticks(m.frames_decoded, seq!["config"@]);
}

/// Every frame that is handled is counted as decoded under its block, and none as
/// dropped. Only a realtime frame asks for a flush or is at odds with its body, and
/// what it asks of the gauges is what its registers decode to.
pub proof fn law_handled_frames_are_counted(
    before: MetricsModel,
    after: MetricsModel,
    sn: Seq<char>,
    block: Block,
    regs: Seq<u16>,
    now_us: u64,
    effect: EntryEffect,
)
    requires
        frame_handled(before, after, sn, block, regs, now_us, effect),
    ensures
        effect.block == block,
        block is Realtime ==> ticks(
            before.frames_decoded,
            after.frames_decoded,
            seq!["realtime"@],
        ),
        block is Config ==> ticks(before.frames_decoded, after.frames_decoded, seq!["config"@]),
        block is Config ==> !effect.flush_due && !effect.serial_mismatch,
        after.frames_dropped == before.frames_dropped,
        after.http_requests == before.http_requests,
        after.state_write_errors == before.state_write_errors,
        block is Realtime ==> exists|d: RealtimeData| #[trigger]
            d.decodes(regs) && effect.updates@ == realtime_asks(before, sn, d)
                && effect.serial_mismatch == (d.serial is Some && d.serial->Some_0@ != sn),
        block is Config ==> exists|c: ConfigData| #[trigger]
            c.decodes(regs) && effect.updates@ == config_asks(before, sn, c),
{
    lemma_ticks(before.frames_decoded, seq!["realtime"@]);
    lemma_ticks(before.frames_decoded, seq!["config"@]);
}

} // verus!
