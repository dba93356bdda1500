//! The decisions behind the HTTP surface: which endpoint a request is counted
//! under, whether a telemetry body is taken, and what each of its frames does.

use vstd::prelude::*;
use vstd::string::*;

use crate::config::Config;
use crate::coulomb::{admitted, has_room, outcome, tracks, SampleOutcome};
use crate::decode::{Block, ConfigData, RealtimeData};
use crate::error::DecodeError;
use crate::metrics::{
    config_applied, config_asks, realtime_applied, realtime_asks, sample_applied, GaugeUpdate,
    Metrics, MetricsModel,
};
use crate::modbus::{
    law_hex_of_either_case, law_request_round_trip, law_response_text_round_trip, parse_response,
    request_frame, request_start_register, request_start_text, response_frame, response_text,
    writes_hex,
};
use crate::payload::{DataEntry, TelemetryBody};
use crate::series::{counted, counted_times, grew_by, law_counting_adds_up};
use crate::text::same_text;

verus! {

// --- Endpoints ---
/// The endpoint label of a request path. It is one of a fixed set, so probing
/// random paths cannot explode label cardinality.
pub open spec fn endpoint_of(path: Seq<char>, metrics_path: Seq<char>) -> Seq<char> {
    if path == "/api/v2/http2/SaveThingInfo1"@ {
        "telemetry"@
    } else if path == "/api/v2/http2/SaveThing"@ {
        "registration"@
    } else if path == metrics_path {
        "metrics"@
    } else if path == "/healthz"@ {
        "healthz"@
    } else {
        "other"@
    }
}

/// The endpoint label under which a request is counted.
pub fn endpoint_label(path: &str, metrics_path: &str) -> (r: &'static str)
    ensures
        r@ == endpoint_of(path@, metrics_path@),
{
    if same_text(path, "/api/v2/http2/SaveThingInfo1") {
        "telemetry"
    } else if same_text(path, "/api/v2/http2/SaveThing") {
        "registration"
    } else if same_text(path, metrics_path) {
        "metrics"
    } else if same_text(path, "/healthz") {
        "healthz"
    } else {
        "other"
    }
}

/// Count a request under its endpoint and status.
pub fn record_metrics(metrics: &mut Metrics, config: &Config, path: &str, status: u16)
    requires
        old(metrics).valid(),
    ensures
        final(metrics).valid(),
        final(metrics)@ == (MetricsModel {
            http_requests: counted(
                old(metrics)@.http_requests,
                seq![
                    endpoint_of(path@, config.metrics_path@),
                    crate::text::decimal_digits(status as nat),
                ],
            ),
            ..old(metrics)@
        }),
{
    let endpoint = endpoint_label(path, config.metrics_path.as_str());
    metrics.record_request(endpoint, status);
}

// --- Telemetry bodies ---
/// Whether a telemetry body is taken.
#[derive(Debug, Clone, Copy, PartialEq, Eq, Structural)]
pub enum Admission {
    /// The body could not be read.
    Unreadable,
    /// The serial is implausible or not on the allowlist.
    SerialRejected,
    /// The device cap is reached and the serial is new.
    DeviceLimit,
    /// Its entries are to be handled.
    Accepted,
}

/// How many drops a refused body counts as: one for each entry, at least one.
pub open spec fn drops(entries: nat) -> nat {
    if entries == 0 {
        1
    } else {
        entries
    }
}

/// Whether a body is taken.
pub open spec fn admission(
    m: MetricsModel,
    config: Config,
    body: Option<TelemetryBody>,
) -> Admission {
    match body {
        None => Admission::Unreadable,
        Some(b) => if !config.accepts(b.sn@) {
            Admission::SerialRejected
        } else if !tracks(m.coulombs.devices, b.sn@) && !has_room(
            m.coulombs.devices,
            m.options.max_devices,
        ) {
            Admission::DeviceLimit
        } else {
            Admission::Accepted
        },
    }
}

/// The metrics once a body was taken or refused. A refused body leaves nothing
/// behind but the count of its dropped frames.
pub open spec fn body_judged(
    m: MetricsModel,
    config: Config,
    body: Option<TelemetryBody>,
) -> MetricsModel {
    match admission(m, config, body) {
        Admission::Unreadable => MetricsModel {
            frames_dropped: counted(m.frames_dropped, seq!["bad_json"@]),
            ..m
        },
        Admission::SerialRejected => MetricsModel {
            frames_dropped: counted_times(
                m.frames_dropped,
                seq!["serial_rejected"@],
                drops(body->Some_0.data@.len()),
            ),
            ..m
        },
        Admission::DeviceLimit => MetricsModel {
            frames_dropped: counted_times(
                m.frames_dropped,
                seq!["device_limit"@],
                drops(body->Some_0.data@.len()),
            ),
            ..m
        },
        Admission::Accepted => MetricsModel {
            coulombs: admitted(m.coulombs, body->Some_0.sn@, m.options.max_devices),
            ..m
        },
    }
}

fn record_drops(metrics: &mut Metrics, reason: &str, entries: usize)
    requires
        old(metrics).valid(),
    ensures
        final(metrics).valid(),
        final(metrics)@ == (MetricsModel {
            frames_dropped: counted_times(
                old(metrics)@.frames_dropped,
                seq![reason@],
                drops(entries as nat),
            ),
            ..old(metrics)@
        }),
{
    let n: usize = if entries == 0 {
        1
    } else {
        entries
    };
    let ghost start = metrics@;
    let mut i: usize = 0;
    while i < n
        invariant
            i <= n,
            metrics.valid(),
            metrics@ == (MetricsModel {
                frames_dropped: counted_times(start.frames_dropped, seq![reason@], i as nat),
                ..start
            }),
        decreases n - i,
    {
        metrics.record_dropped(reason);
        i += 1;
    }
}

/// Judge a telemetry body: `None` stands for one that could not be read. The
/// answer to the device is the same in every case, so that its firmware does
/// not spin on retries.
pub fn telemetry(metrics: &mut Metrics, config: &Config, body: &Option<TelemetryBody>) -> (r:
    Admission)
    requires
        old(metrics).valid(),
    ensures
        final(metrics).valid(),
        r == admission(old(metrics)@, *config, *body),
        final(metrics)@ == body_judged(old(metrics)@, *config, *body),
{
    let b = match body {
        Some(b) => b,
        None => {
            metrics.record_dropped("bad_json");
            return Admission::Unreadable;
        },
    };
    if !config.accept_serial(b.sn.as_str()) {
        record_drops(metrics, "serial_rejected", b.data.len());
        return Admission::SerialRejected;
    }
    // Bound metric cardinality: refuse new serials once the cap is reached.
    if !metrics.admit_device(b.sn.as_str()) {
        record_drops(metrics, "device_limit", b.data.len());
        return Admission::DeviceLimit;
    }
    Admission::Accepted
}

// --- Entries ---
/// The drop reason of a decode error.
pub open spec fn reason_of(e: DecodeError) -> Seq<char> {
    match e {
        DecodeError::BadHex(_) => "bad_hex"@,
        DecodeError::TooShort { .. } => "too_short"@,
        DecodeError::BadAddress(_) => "bad_frame"@,
        DecodeError::BadFunction(_) => "bad_frame"@,
        DecodeError::BadByteCount { .. } => "bad_frame"@,
        DecodeError::CrcMismatch { .. } => "crc"@,
        DecodeError::UnknownBlock(_) => "unknown_block"@,
    }
}

/// Map a decode error to a metric drop-reason label.
pub fn drop_reason(e: DecodeError) -> (r: &'static str)
    ensures
        r@ == reason_of(e),
{
    match e {
        DecodeError::BadHex(_) => "bad_hex",
        DecodeError::TooShort { .. } => "too_short",
        DecodeError::BadAddress(_) => "bad_frame",
        DecodeError::BadFunction(_) => "bad_frame",
        DecodeError::BadByteCount { .. } => "bad_frame",
        DecodeError::CrcMismatch { .. } => "crc",
        DecodeError::UnknownBlock(_) => "unknown_block",
    }
}

/// Why a frame was dropped: the label it is counted under, and what was wrong.
#[derive(Debug, Clone, Copy, PartialEq, Eq)]
pub struct Dropped {
    pub reason: &'static str,
    pub error: DecodeError,
}

/// What one request/response pair carries, or the drop reason and error. The
/// request is read first; its start register tells the block.
pub open spec fn entry_content(command: Seq<u8>, data: Seq<u8>) -> Result<
    (Block, Seq<u16>),
    (Seq<char>, DecodeError),
> {
    match request_start_text(command) {
        Err(e) => Err(("bad_command"@, e)),
        Ok(start) => match Block::starting_at(start) {
            Err(e) => Err(("unknown_block"@, e)),
            Ok(block) => match response_text(data) {
                Err(e) => Err((reason_of(e), e)),
                Ok(regs) => Ok((block, regs)),
            },
        },
    }
}

/// A reading in tenths as thousandths.
pub open spec fn current_milli(d: RealtimeData) -> Option<i32> {
    match d.current_da {
        Some(v) => Some((v * 100) as i32),
        None => None,
    }
}

/// A reading in tenths as thousandths.
pub open spec fn pack_milli(d: RealtimeData) -> Option<u32> {
    match d.pack_dv {
        Some(v) => Some((v * 100) as u32),
        None => None,
    }
}

/// Whether current and voltage lie in the range of the register encoding.
pub open spec fn encodable(d: RealtimeData) -> bool {
    &&& d.current_da matches Some(v) ==> -30000 <= v <= 35535
    &&& d.pack_dv matches Some(v) ==> 0 <= v <= 65535
}

/// What handling a frame leads to.
#[derive(Debug)]
pub struct EntryEffect {
    pub block: Block,
    /// Updates for the gauges, in order.
    pub updates: Vec<GaugeUpdate>,
    /// Whether the charge and energy accounting should be flushed now.
    pub flush_due: bool,
    /// Whether the frame carries a serial other than the body's.
    pub serial_mismatch: bool,
}

/// The metrics after a realtime frame: shown, integrated and counted as decoded.
pub open spec fn realtime_handled(
    m: MetricsModel,
    sn: Seq<char>,
    d: RealtimeData,
    now_us: u64,
) -> MetricsModel {
    let after = sample_applied(
        realtime_applied(m, sn, d),
        sn,
        current_milli(d),
        pack_milli(d),
        now_us,
    );
    MetricsModel { frames_decoded: counted(after.frames_decoded, seq!["realtime"@]), ..after }
}

/// Whether a realtime frame was integrated.
pub open spec fn realtime_flushes(
    m: MetricsModel,
    sn: Seq<char>,
    d: RealtimeData,
    now_us: u64,
) -> bool {
    outcome(
        realtime_applied(m, sn, d).coulombs,
        m.options,
        sn,
        current_milli(d),
        pack_milli(d),
        now_us,
    ) is Integrated
}

/// Whether the frame carries a serial other than the body's.
pub open spec fn mismatched(d: RealtimeData, sn: Seq<char>) -> bool {
    d.serial matches Some(serial) && serial@ != sn
}

/// Apply a decoded realtime frame: show it, then integrate it, then count it.
pub fn handle_realtime(metrics: &mut Metrics, sn: &str, d: &RealtimeData, now_us: u64) -> (r:
    EntryEffect)
    requires
        old(metrics).valid(),
        encodable(*d),
    ensures
        final(metrics).valid(),
        final(metrics)@ == realtime_handled(old(metrics)@, sn@, *d, now_us),
        r.block is Realtime,
        r.updates@ == realtime_asks(old(metrics)@, sn@, *d),
        r.flush_due == realtime_flushes(old(metrics)@, sn@, *d, now_us),
        r.serial_mismatch == mismatched(*d, sn@),
{
    let serial_mismatch = match &d.serial {
        Some(serial) => !same_text(serial.as_str(), sn),
        None => false,
    };
    let current_ma: Option<i32> = match d.current_da {
        Some(v) => Some(v * 100),
        None => None,
    };
    let pack_mv: Option<u32> = match d.pack_dv {
        Some(v) => Some((v * 100) as u32),
        None => None,
    };
    let updates = metrics.update_realtime(sn, d);
    let flush_due = match metrics.accumulate_coulombs(sn, current_ma, pack_mv, now_us) {
        SampleOutcome::Integrated { clamped: _ } => true,
        _ => false,
    };
    metrics.record_decoded("realtime");
    EntryEffect { block: Block::Realtime, updates, flush_due, serial_mismatch }
}

/// The metrics after a config frame: shown and counted as decoded.
pub open spec fn config_handled(m: MetricsModel, sn: Seq<char>, c: ConfigData) -> MetricsModel {
    let after = config_applied(m, sn, c);
    MetricsModel { frames_decoded: counted(after.frames_decoded, seq!["config"@]), ..after }
}

/// Apply a decoded config frame: show it, then count it.
pub fn handle_config(metrics: &mut Metrics, sn: &str, c: &ConfigData) -> (r: EntryEffect)
    requires
        old(metrics).valid(),
    ensures
        final(metrics).valid(),
        final(metrics)@ == config_handled(old(metrics)@, sn@, *c),
        r.block is Config,
        r.updates@ == config_asks(old(metrics)@, sn@, *c),
        !r.flush_due,
        !r.serial_mismatch,
{
    let updates = metrics.update_config(sn, c);
    metrics.record_decoded("config");
    EntryEffect { block: Block::Config, updates, flush_due: false, serial_mismatch: false }
}

/// Whether a frame with these registers was handled as its block asks.
pub open spec fn frame_handled(
    before: MetricsModel,
    after: MetricsModel,
    sn: Seq<char>,
    block: Block,
    regs: Seq<u16>,
    now_us: u64,
    effect: EntryEffect,
) -> bool {
    effect.block == block && match block {
        Block::Realtime => exists|d: RealtimeData| #[trigger]
            d.decodes(regs) && after == realtime_handled(before, sn, d, now_us)
                && effect.updates@ == realtime_asks(before, sn, d) && effect.flush_due
                == realtime_flushes(before, sn, d, now_us) && effect.serial_mismatch == mismatched(
                d,
                sn,
            ),
        Block::Config => exists|c: ConfigData| #[trigger]
            c.decodes(regs) && after == config_handled(before, sn, c) && effect.updates@
                == config_asks(before, sn, c) && !effect.flush_due && !effect.serial_mismatch,
    }
}

/// Decode one Modbus pair and update metrics. Returns a drop-reason, with the
/// error behind it, on failure, in which case nothing has changed.
pub fn handle_entry(
    metrics: &mut Metrics,
    sn: &str,
    command: &str,
    data: &str,
    now_us: u64,
) -> (r: Result<EntryEffect, Dropped>)
    requires
        old(metrics).valid(),
    ensures
        final(metrics).valid(),
        match (r, entry_content(command.spec_bytes(), data.spec_bytes())) {
            (Ok(effect), Ok((block, regs))) => frame_handled(
                old(metrics)@,
                final(metrics)@,
                sn@,
                block,
                regs,
                now_us,
                effect,
            ),
            (Err(dropped), Err((reason, error))) => dropped.reason@ == reason && dropped.error
                == error && final(metrics)@ == old(metrics)@,
            _ => false,
        },
{
    let start: u16 = match request_start_register(command) {
        Ok(start) => start,
        Err(error) => {
            return Err(Dropped { reason: "bad_command", error });
        },
    };
    let block = match Block::from_start_register(start) {
        Ok(block) => block,
        Err(error) => {
            return Err(Dropped { reason: "unknown_block", error });
        },
    };
    let regs = match parse_response(data) {
        Ok(regs) => regs,
        Err(error) => {
            return Err(Dropped { reason: drop_reason(error), error });
        },
    };
    let effect = match block {
        Block::Realtime => {
            let d = RealtimeData::from_registers(regs.as_slice());
            let effect = handle_realtime(metrics, sn, &d, now_us);
            proof {
                assert(d.decodes(regs@));
            }
            effect
        },
        Block::Config => {
            let c = ConfigData::from_registers(regs.as_slice());
            let effect = handle_config(metrics, sn, &c);
            proof {
                assert(c.decodes(regs@));
            }
            effect
        },
    };
    Ok(effect)
}

/// Handle one entry of an accepted body; a frame that is dropped is counted by
/// its reason and leaves nothing else behind.
pub fn telemetry_entry(metrics: &mut Metrics, sn: &str, entry: &DataEntry, now_us: u64) -> (r:
    Result<EntryEffect, Dropped>)
    requires
        old(metrics).valid(),
    ensures
        final(metrics).valid(),
        match (
            r,
            entry_content(
                vstd::utf8::encode_utf8(entry.command@),
                vstd::utf8::encode_utf8(entry.data@),
            ),
        ) {
            (Ok(effect), Ok((block, regs))) => frame_handled(
                old(metrics)@,
                final(metrics)@,
                sn@,
                block,
                regs,
                now_us,
                effect,
            ),
            (Err(dropped), Err((reason, error))) => dropped.reason@ == reason && dropped.error
                == error && final(metrics)@ == (MetricsModel {
                frames_dropped: counted(old(metrics)@.frames_dropped, seq![reason]),
                ..old(metrics)@
            }),
            _ => false,
        },
{
    match handle_entry(metrics, sn, entry.command.as_str(), entry.data.as_str(), now_us) {
        Ok(effect) => Ok(effect),
        Err(dropped) => {
            metrics.record_dropped(dropped.reason);
            Err(dropped)
        },
    }
}

// --- What the handlers guarantee ---
/// A well-formed pair is never dropped: whatever registers a device sends for a
/// known block arrive as they are, in whichever case the frames are written.
pub proof fn law_good_entries_arrive(
    block: Block,
    count: u16,
    registers: Seq<u16>,
    command: Seq<u8>,
    data: Seq<u8>,
)
    requires
        registers.len() <= 127,
        writes_hex(
            command,
            request_frame(
                if block is Realtime {
                    0x0000
                } else {
                    0x0080
                },
                count,
            ),
        ),
        writes_hex(data, response_frame(registers)),
    ensures
        entry_content(command, data) == Ok::<(Block, Seq<u16>), (Seq<char>, DecodeError)>(
            (block, registers),
        ),
{
    let start: u16 = if block is Realtime {
        0x0000
    } else {
        0x0080
    };
    law_hex_of_either_case(command, request_frame(start, count));
    law_request_round_trip(start, count);
    law_response_text_round_trip(data, registers);
}

/// Endpoint labels come from a fixed set.
pub proof fn law_endpoints_are_bounded(path: Seq<char>, metrics_path: Seq<char>)
    ensures
        ({
            let e = endpoint_of(path, metrics_path);
            e == "telemetry"@ || e == "registration"@ || e == "metrics"@ || e == "healthz"@ || e
                == "other"@
        }),
{
}

/// Drop reasons of entries come from a fixed set.
pub proof fn law_drop_reasons_are_bounded(command: Seq<u8>, data: Seq<u8>)
    ensures
        entry_content(command, data) matches Err((reason, _)) ==> (reason == "bad_command"@ || reason
            == "unknown_block"@ || reason == "bad_hex"@ || reason == "too_short"@ || reason
            == "bad_frame"@ || reason == "crc"@),
{
}

/// Every entry of a refused body is counted as dropped, and at least one drop is.
pub proof fn law_refused_bodies_are_counted(
    m: MetricsModel,
    config: Config,
    body: Option<TelemetryBody>,
)
    requires
        body is Some,
    ensures
        ({
            let before = m.frames_dropped;
            let after = body_judged(m, config, body).frames_dropped;
            let n = drops(body->Some_0.data@.len());
            match admission(m, config, body) {
                Admission::SerialRejected => grew_by(before, after, seq!["serial_rejected"@], n),
                Admission::DeviceLimit => grew_by(before, after, seq!["device_limit"@], n),
                _ => after == before,
            }
        }),
{
    let n = drops(body->Some_0.data@.len());
    law_counting_adds_up(m.frames_dropped, seq!["serial_rejected"@], n);
    law_counting_adds_up(m.frames_dropped, seq!["device_limit"@], n);
}

/// A refused body leaves nothing behind but the count of its dropped frames:
/// no device is tracked and no series is minted for its serial.
pub proof fn law_refused_bodies_leave_no_trace(
    m: MetricsModel,
    config: Config,
    body: Option<TelemetryBody>,
)
    requires
        !(admission(m, config, body) is Accepted),
    ensures
        body_judged(m, config, body) == (MetricsModel {
            frames_dropped: body_judged(m, config, body).frames_dropped,
            ..m
        }),
{
}

} // verus!
