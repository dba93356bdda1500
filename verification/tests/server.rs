//! What the HTTP surface decides: which bodies are taken, what each frame does,
//! and how requests are counted.

use daly_bms_exporter::config::Config;
use daly_bms_exporter::coulomb::FlushStep;
use daly_bms_exporter::decode::{Block, RealtimeData};
use daly_bms_exporter::error::{DecodeError, HexError};
use daly_bms_exporter::families::Family;
use daly_bms_exporter::metrics::{GaugeUpdate, Metrics, SeriesLabel};
use daly_bms_exporter::payload::{DataEntry, TelemetryBody};
use daly_bms_exporter::server::{
    drop_reason, endpoint_label, handle_entry, handle_realtime, record_metrics, telemetry,
    telemetry_entry, Admission,
};

const REALTIME: &str = "D2030000007ED649";
const CONFIG: &str = "D203008000705665";

/// Build a hex response ADU from registers.
fn build_frame(regs: &[u16]) -> String {
    let mut body = vec![0xD2, 0x03, (regs.len() * 2) as u8];
    for r in regs {
        body.extend_from_slice(&r.to_be_bytes());
    }
    body.extend_from_slice(&daly_bms_exporter::modbus::crc16(&body).to_le_bytes());
    hex::encode(body)
}

/// A 126-register realtime block with a couple of known values.
///
/// `current_raw` must be set explicitly: the encoding is `(raw - 30000) * 0.1`,
/// so leaving the register at zero would mean -3000 A.
fn realtime_frame_with_current(current_raw: u16) -> String {
    let mut regs = vec![0u16; 126];
    regs[0] = 2195; // cell 1 = 2.195 V
    regs[0x28] = 0x010D; // pack voltage -> 26.9 V
    regs[0x29] = current_raw;
    regs[0x2A] = 0x034A; // SOC -> 84.2 %
    regs[0x31] = 1; // cell count
    build_frame(&regs)
}

/// The same block at a steady 10 A charge (raw 30100).
fn realtime_frame() -> String {
    realtime_frame_with_current(30_100)
}

fn entry(command: &str, data: &str) -> DataEntry {
    DataEntry {
        command: command.to_string(),
        data: data.to_string(),
        timestamp: None,
    }
}

fn body(sn: &str, data: Vec<DataEntry>) -> TelemetryBody {
    TelemetryBody {
        device_name: "dev".to_string(),
        sn: sn.to_string(),
        data,
    }
}

struct App {
    metrics: Metrics,
    config: Config,
    now_us: u64,
}

impl App {
    fn new(config: Config) -> Self {
        App {
            metrics: Metrics::new((&config).into()),
            config,
            now_us: 1_000_000_000,
        }
    }

    /// Take a body as a whole; gives the gauge updates of its frames.
    fn post(&mut self, body: Option<TelemetryBody>) -> (Admission, Vec<GaugeUpdate>) {
        let verdict = telemetry(&mut self.metrics, &self.config, &body);
        let mut updates = Vec::new();
        if let (Admission::Accepted, Some(b)) = (verdict, &body) {
            for e in &b.data {
                if let Ok(effect) = telemetry_entry(&mut self.metrics, &b.sn, e, self.now_us) {
                    updates.extend(effect.updates);
                    if effect.flush_due {
                        self.metrics.flush_coulomb_state(false, self.now_us);
                    }
                }
            }
        }
        (verdict, updates)
    }

    fn scrape(&self) -> String {
        self.metrics.render().1
    }
}

fn value(updates: &[GaugeUpdate], family: Family, label: SeriesLabel) -> Option<i32> {
    updates
        .iter()
        .find(|u| u.family == family && u.label == label)
        .and_then(|u| u.change)
}

#[test]
fn telemetry_updates_metrics() {
    let mut app = App::new(Config::default());
    let (verdict, updates) = app.post(Some(body("SN1", vec![entry(REALTIME, &realtime_frame())])));
    assert_eq!(verdict, Admission::Accepted);
    let device = SeriesLabel::Device;
    assert_eq!(value(&updates, Family::PackVoltage, device), Some(269));
    assert_eq!(value(&updates, Family::Soc, device), Some(842));
    assert_eq!(
        value(&updates, Family::CellVoltage, SeriesLabel::Index(1)),
        Some(2195)
    );
    assert_eq!(SeriesLabel::Index(1).value().as_deref(), Some("01"));
    assert!(app
        .scrape()
        .contains("daly_bms_frames_decoded_total{block=\"realtime\"} 1"));
}

#[test]
fn corrupt_frame_still_returns_200_and_keeps_good_frame() {
    let mut app = App::new(Config::default());
    let (verdict, updates) = app.post(Some(body(
        "SN2",
        vec![
            entry(REALTIME, "D203FCDEADBEEF"),
            entry(REALTIME, &realtime_frame()),
        ],
    )));
    assert_eq!(verdict, Admission::Accepted);
    assert_eq!(
        value(&updates, Family::PackVoltage, SeriesLabel::Device),
        Some(269)
    );
    assert!(app.scrape().contains("daly_bms_frames_dropped_total"));
}

#[test]
fn rejected_serial_creates_no_series() {
    let config = Config {
        allowed_serials: Some(vec!["ONLY_THIS".to_string()]),
        ..Config::default()
    };
    let mut app = App::new(config);
    let (verdict, updates) = app.post(Some(body(
        "INTRUDER",
        vec![entry(REALTIME, &realtime_frame())],
    )));
    assert_eq!(verdict, Admission::SerialRejected);
    assert!(updates.is_empty());
    let metrics = app.scrape();
    assert!(!metrics.contains("sn=\"INTRUDER\""));
    assert!(metrics.contains("daly_bms_frames_dropped_total{reason=\"serial_rejected\"}"));
}

#[test]
fn implausible_current_frame_does_not_reach_the_energy_counters() {
    let mut app = App::new(Config::default());
    // Good, garbage, good. A single garbage frame would prove nothing on its
    // own: the first frame of a device only sets the integration baseline.
    for raw in [30_100, 0xFFFF, 30_100] {
        let (verdict, _) = app.post(Some(body(
            "SN1",
            vec![entry(REALTIME, &realtime_frame_with_current(raw))],
        )));
        assert_eq!(verdict, Admission::Accepted);
        app.now_us += 1_000;
    }
    let metrics = app.scrape();
    assert!(
        metrics
            .contains("daly_bms_coulomb_samples_rejected_total{reason=\"implausible_current\"} 1"),
        "the garbage frame was not reported: {metrics}"
    );
    // The garbage frame is decoded and exported as gauges, so it must not be
    // counted as a dropped frame as well.
    assert!(
        !metrics.contains("daly_bms_frames_dropped_total"),
        "must not inflate frames_dropped: {metrics}"
    );
    assert!(metrics.contains("daly_bms_frames_decoded_total{block=\"realtime\"} 3"));
    // Two milliseconds at 10 A, and 3553 A never entered the integral.
    match app.metrics.flush_coulomb_state(true, app.now_us) {
        FlushStep::Applied(rows) => {
            assert_eq!(rows[0].totals.ah.charge, 2 * 10_000 * 2_000);
            let charged = rows[0].totals.ah.charge as f64 / 7.2e12;
            assert!(
                charged < 0.01,
                "garbage current was integrated: {charged} Ah"
            );
        }
        other => panic!("nothing applied: {other:?}"),
    }
}

#[test]
fn http_requests_recorded_by_endpoint_and_status() {
    let mut app = App::new(Config::default());
    record_metrics(
        &mut app.metrics,
        &app.config,
        "/api/v2/http2/SaveThingInfo1",
        200,
    );
    // An unmatched path (404) maps to endpoint="other" — bounded label.
    record_metrics(&mut app.metrics, &app.config, "/nope", 404);

    let metrics = app.scrape();
    assert!(metrics
        .lines()
        .any(|l| l.starts_with("daly_bms_http_requests_total{")
            && l.contains("endpoint=\"telemetry\"")
            && l.contains("status=\"200\"")));
    assert!(
        metrics
            .lines()
            .any(|l| l.contains("endpoint=\"other\"") && l.contains("status=\"404\"")),
        "unmatched path should record endpoint=other status=404"
    );
}

#[test]
fn endpoints_map_to_a_fixed_set() {
    for (path, label) in [
        ("/api/v2/http2/SaveThingInfo1", "telemetry"),
        ("/api/v2/http2/SaveThing", "registration"),
        ("/stats", "metrics"),
        ("/healthz", "healthz"),
        ("/metrics", "other"),
        ("/healthz/", "other"),
    ] {
        assert_eq!(endpoint_label(path, "/stats"), label, "{path}");
    }
}

#[test]
fn unreadable_bodies_are_counted() {
    let mut app = App::new(Config::default());
    assert_eq!(app.post(None).0, Admission::Unreadable);
    assert!(app
        .scrape()
        .contains("daly_bms_frames_dropped_total{reason=\"bad_json\"} 1"));
}

#[test]
fn refused_bodies_count_every_entry() {
    let config = Config {
        max_devices: 1,
        ..Config::default()
    };
    let mut app = App::new(config);
    assert_eq!(app.post(Some(body("A", vec![]))).0, Admission::Accepted);
    let two = vec![entry(REALTIME, "00"), entry(REALTIME, "00")];
    assert_eq!(app.post(Some(body("B", two))).0, Admission::DeviceLimit);
    assert_eq!(
        app.post(Some(body("bad serial!", vec![]))).0,
        Admission::SerialRejected
    );
    let metrics = app.scrape();
    assert!(metrics.contains("daly_bms_frames_dropped_total{reason=\"device_limit\"} 2"));
    assert!(metrics.contains("daly_bms_frames_dropped_total{reason=\"serial_rejected\"} 1"));
}

#[test]
fn every_drop_reason_is_reached() {
    let mut app = App::new(Config::default());
    let good = realtime_frame();
    let mut crc = build_frame(&[1, 2, 3]);
    let last = crc.pop().unwrap();
    crc.push(if last == '0' { '1' } else { '0' });
    for (command, data, reason) in [
        ("zz", good.as_str(), "bad_command"),
        ("D203", good.as_str(), "bad_command"),
        ("D203123400705665", good.as_str(), "unknown_block"),
        (REALTIME, "D20", "bad_hex"),
        (REALTIME, "D203", "too_short"),
        (REALTIME, "D103000000", "bad_frame"),
        (REALTIME, "D204000000", "bad_frame"),
        (REALTIME, "D203E00001AABB", "bad_frame"),
        (REALTIME, crc.as_str(), "crc"),
    ] {
        let r = handle_entry(&mut app.metrics, "SN1", command, data, 0);
        assert_eq!(r.err().map(|d| d.reason), Some(reason), "{command} {data}");
        let r = telemetry_entry(&mut app.metrics, "SN1", &entry(command, data), 0);
        assert_eq!(r.err().map(|d| d.reason), Some(reason));
        assert!(app.scrape().contains(&format!("reason=\"{reason}\"")));
    }
    let short = handle_entry(&mut app.metrics, "SN1", "D203", &good, 0);
    assert_eq!(short.unwrap_err().error, DecodeError::TooShort { len: 2 });
    let block = handle_entry(&mut app.metrics, "SN1", "D203123400705665", &good, 0);
    assert_eq!(block.unwrap_err().error, DecodeError::UnknownBlock(0x1234));
    assert_eq!(
        drop_reason(DecodeError::BadHex(HexError::OddLength)),
        "bad_hex"
    );
    assert_eq!(drop_reason(DecodeError::UnknownBlock(7)), "unknown_block");
}

#[test]
fn config_entries_are_applied() {
    let mut app = App::new(Config::default());
    let mut regs = vec![0u16; 112];
    regs[0] = 0x0190;
    let effect = handle_entry(&mut app.metrics, "SN1", CONFIG, &build_frame(&regs), 0)
        .expect("a good frame");
    assert_eq!(effect.block, Block::Config);
    assert!(!effect.flush_due);
    assert_eq!(
        value(&effect.updates, Family::RatedCapacity, SeriesLabel::Device),
        Some(400)
    );
    let metrics = app.scrape();
    assert!(metrics.contains("daly_bms_frames_decoded_total{block=\"config\"} 1"));
    assert!(metrics.contains("daly_bms_device_info{"));
}

#[test]
fn a_foreign_serial_is_noticed() {
    let mut app = App::new(Config::default());
    let d = RealtimeData {
        serial: Some("SN9".to_string()),
        current_da: Some(100),
        pack_dv: Some(260),
        ..Default::default()
    };
    let effect = handle_realtime(&mut app.metrics, "SN1", &d, 1);
    assert!(effect.serial_mismatch);
    assert!(effect.flush_due);
    let effect = handle_realtime(&mut app.metrics, "SN9", &d, 1);
    assert!(!effect.serial_mismatch);
    let idle = RealtimeData::default();
    assert!(!handle_realtime(&mut app.metrics, "SN1", &idle, 1).flush_due);
}
