//! Metric updates and charge/energy accounting.

use daly_bms_exporter::coulomb::{trapezoid_hours, FlushStep, Row, SampleOutcome, Split, Totals};
use daly_bms_exporter::decode::{ConfigData, PlausibilityLimits, Reading, RealtimeData};
use daly_bms_exporter::families::{Family, Kind, Scale};
use daly_bms_exporter::metrics::{GaugeUpdate, Metrics, MetricsOptions, WriteStage};
use prometheus::{CounterVec, GaugeVec};

const UNITS_PER_AH: f64 = 7.2e12;
const UNITS_PER_WH: f64 = 7.2e15;

/// The metrics with a state file that is nothing but a list of rows.
struct Exporter {
    m: Metrics,
    disk: Option<Vec<(String, Totals)>>,
    broken: bool,
    clock_us: u64,
}

impl Exporter {
    fn new(opts: MetricsOptions) -> Self {
        Exporter {
            m: Metrics::new(opts),
            disk: None,
            broken: false,
            clock_us: 0,
        }
    }

    fn gauge(&mut self, f: Family) -> GaugeVec {
        self.m.gauges(f).expect("a fractional gauge").vec
    }

    fn counter(&mut self, f: Family) -> CounterVec {
        self.m.counters(f).expect("a fractional counter").vec
    }

    fn apply(&mut self, sn: &str, updates: &[GaugeUpdate]) {
        for u in updates {
            let g = self.gauge(u.family);
            let second = u.label.value();
            let mut labels = vec![sn];
            labels.extend(second.as_deref());
            match u.change {
                Some(raw) => g.with_label_values(&labels).set(match u.family.scale() {
                    Scale::Tenths => f64::from(raw) * 0.1,
                    Scale::Thousandths => f64::from(raw) / 1000.0,
                    Scale::Units => f64::from(raw),
                }),
                None => {
                    let _ = g.remove_label_values(&labels);
                }
            }
        }
    }

    fn update_realtime(&mut self, sn: &str, d: &RealtimeData) {
        let updates = self.m.update_realtime(sn, d);
        self.apply(sn, &updates);
    }

    fn update_config(&mut self, sn: &str, c: &ConfigData) {
        let updates = self.m.update_config(sn, c);
        self.apply(sn, &updates);
    }

    fn show(&mut self, rows: &[Row]) {
        for row in rows {
            for (family, amount) in [
                (Family::ChargeAmpHours, row.totals.ah.charge as f64 / UNITS_PER_AH),
                (
                    Family::DischargeAmpHours,
                    row.totals.ah.discharge as f64 / UNITS_PER_AH,
                ),
                (Family::ChargeWattHours, row.totals.wh.charge as f64 / UNITS_PER_WH),
                (
                    Family::DischargeWattHours,
                    row.totals.wh.discharge as f64 / UNITS_PER_WH,
                ),
            ] {
                if amount > 0.0 {
                    let c = self.counter(family).with_label_values(&[&row.sn]);
                    c.inc_by((amount - c.get()).max(0.0));
                }
            }
        }
    }

    fn run(&mut self, step: FlushStep) {
        match step {
            FlushStep::Idle => {}
            FlushStep::Applied(rows) => self.show(&rows),
            FlushStep::Write(rows) => {
                assert!(self.m.is_writing());
                let rows = if self.broken {
                    self.m.record_write_error(WriteStage::CreateDir);
                    self.m.finish_flush(false, self.clock_us)
                } else {
                    self.disk = Some(rows.into_iter().map(|r| (r.sn, r.totals)).collect());
                    self.m.finish_flush(true, self.clock_us)
                };
                self.show(&rows);
            }
        }
    }

    fn accumulate_coulombs(&mut self, sn: &str, amps: Option<f64>, volts: Option<f64>, secs: f64) {
        let what = self.m.accumulate_coulombs(
            sn,
            amps.map(|a| (a * 1000.0).round() as i32),
            volts.map(|v| (v * 1000.0).round() as u32),
            (secs * 1e6).round() as u64,
        );
        if let SampleOutcome::Integrated { .. } = what {
            let step = self.m.flush_coulomb_state(false, self.clock_us);
            self.run(step);
        }
    }

    fn persist_coulombs(&mut self) {
        let step = self.m.persist_coulombs(self.clock_us);
        self.run(step);
    }

    fn restore_coulombs(&mut self, disk: &[(String, Totals)]) -> usize {
        let rows: Vec<Row> = disk
            .iter()
            .map(|(sn, totals)| Row {
                sn: sn.clone(),
                totals: *totals,
            })
            .collect();
        let n = self.m.restore_coulombs(&rows);
        self.show(&rows[..n]);
        n
    }

    /// The four totals of one device: charge and discharge in Ah, then in Wh.
    fn counters(&mut self, sn: &str) -> [f64; 4] {
        [
            Family::ChargeAmpHours,
            Family::DischargeAmpHours,
            Family::ChargeWattHours,
            Family::DischargeWattHours,
        ]
        .map(|f| self.counter(f).with_label_values(&[sn]).get())
    }

    fn persisted(&self, sn: &str) -> [f64; 4] {
        let disk = self.disk.as_ref().expect("state was written");
        let totals = disk.iter().find(|r| r.0 == sn).expect("device has a row").1;
        [
            totals.ah.charge as f64 / UNITS_PER_AH,
            totals.ah.discharge as f64 / UNITS_PER_AH,
            totals.wh.charge as f64 / UNITS_PER_WH,
            totals.wh.discharge as f64 / UNITS_PER_WH,
        ]
    }

    fn body(&self) -> String {
        self.m.render().1
    }
}

fn persisting() -> MetricsOptions {
    MetricsOptions {
        persist_state: true,
        ..Default::default()
    }
}

#[test]
fn render_contains_updated_series() {
    let mut m = Exporter::new(MetricsOptions::default());
    let data = RealtimeData {
        pack_dv: Some(269),
        ..Default::default()
    };
    m.update_realtime("SN1", &data);
    m.gauge(Family::LastFrameTimestamp)
        .with_label_values(&["SN1"])
        .set(1.0);
    let (ctype, body) = m.m.render();
    assert!(ctype.starts_with("text/plain"));
    assert_eq!(ctype, "text/plain; version=0.0.4");
    assert!(body.contains("daly_bms_pack_voltage_volts{sn=\"SN1\"} 26.9"));
    assert!(body.contains("daly_bms_last_frame_timestamp_seconds{sn=\"SN1\"}"));
}

fn cells(n: u32) -> RealtimeData {
    RealtimeData {
        cells_mv: (1..=n).map(|index| Reading { index, value: 2000 }).collect(),
        ..Default::default()
    }
}

#[test]
fn stale_cell_series_are_pruned() {
    let mut m = Exporter::new(MetricsOptions::default());
    m.update_realtime("SN1", &cells(3));
    assert!(m.body().contains("cell=\"03\""));

    m.update_realtime("SN1", &cells(2));
    assert!(!m.body().contains("cell=\"03\""));
    assert!(m.body().contains("cell=\"02\""));
}

#[test]
fn alarm_bits_decode_to_labelled_flags() {
    let mut m = Exporter::new(MetricsOptions::default());
    let data = RealtimeData {
        alarm_bits: Some(0x0300),
        ..Default::default()
    };
    m.update_realtime("SN1", &data);
    let body = m.body();
    assert!(body.contains("daly_bms_alarm{sn=\"SN1\",type=\"diff_volt_l1\"} 1"));
    assert!(body.contains("daly_bms_alarm{sn=\"SN1\",type=\"diff_volt_l2\"} 1"));
    assert!(body.contains("daly_bms_alarm_bits{sn=\"SN1\"} 768"));
    let data = RealtimeData {
        alarm_bits: Some(0x0100),
        ..Default::default()
    };
    m.update_realtime("SN1", &data);
    let body = m.body();
    assert!(body.contains("daly_bms_alarm{sn=\"SN1\",type=\"diff_volt_l1\"} 1"));
    assert!(body.contains("daly_bms_alarm{sn=\"SN1\",type=\"diff_volt_l2\"} 0"));
}

#[test]
fn realtime_frames_reach_every_family() {
    let mut m = Exporter::new(MetricsOptions::default());
    let d = RealtimeData {
        cells_mv: vec![Reading {
            index: 1,
            value: 2195,
        }],
        temps_c: vec![Reading {
            index: 2,
            value: -5,
        }],
        pack_dv: Some(260),
        current_da: Some(-320),
        soc_permille: Some(840),
        cell_max_mv: Some(2210),
        cell_min_mv: Some(2190),
        temp_max_c: Some(30),
        temp_min_c: Some(-5),
        remaining_dah: Some(330),
        cycles: Some(12),
        charge_mos: Some(true),
        discharge_mos: Some(false),
        cell_avg_mv: Some(2200),
        cell_delta_mv: Some(20),
        balancer_active: Some(true),
        balance_current_da: Some(10),
        balancing_cells: Some(2),
        mos_temp_c: Some(25),
        alarm_bits: Some(0),
        serial: None,
    };
    m.update_realtime("SN1", &d);
    let body = m.body();
    for line in [
        "daly_bms_cell_voltage_volts{cell=\"01\",sn=\"SN1\"} 2.195",
        "daly_bms_temperature_celsius{sensor=\"02\",sn=\"SN1\"} -5",
        "daly_bms_pack_voltage_volts{sn=\"SN1\"} 26",
        "daly_bms_current_amperes{sn=\"SN1\"} -32",
        "daly_bms_soc_percent{sn=\"SN1\"} 84",
        "daly_bms_cell_voltage_max_volts{sn=\"SN1\"} 2.21",
        "daly_bms_cell_voltage_min_volts{sn=\"SN1\"} 2.19",
        "daly_bms_cell_voltage_avg_volts{sn=\"SN1\"} 2.2",
        "daly_bms_cell_voltage_delta_volts{sn=\"SN1\"} 0.02",
        "daly_bms_temperature_max_celsius{sn=\"SN1\"} 30",
        "daly_bms_temperature_min_celsius{sn=\"SN1\"} -5",
        "daly_bms_remaining_capacity_amp_hours{sn=\"SN1\"} 33",
        "daly_bms_charge_cycles{sn=\"SN1\"} 12",
        "daly_bms_charge_mos{sn=\"SN1\"} 1",
        "daly_bms_discharge_mos{sn=\"SN1\"} 0",
        "daly_bms_balancer_active{sn=\"SN1\"} 1",
        "daly_bms_balance_current_amperes{sn=\"SN1\"} 1",
        "daly_bms_balancing_cell_count{sn=\"SN1\"} 2",
        "daly_bms_mos_temperature_celsius{sn=\"SN1\"} 25",
    ] {
        assert!(body.lines().any(|l| l.starts_with(line)), "{line} in {body}");
    }
}

#[test]
fn config_frames_reach_every_family() {
    let mut m = Exporter::new(MetricsOptions::default());
    let regs: Vec<u16> = (0..112).map(|_| 30_000).collect();
    let mut c = ConfigData::from_registers(&regs);
    c.machine_code = Some("MC".to_string());
    c.sw_version = None;
    c.hw_version = Some("H1".to_string());
    m.update_config("SN1", &c);
    let body = m.body();
    for line in [
        "daly_bms_rated_capacity_amp_hours{sn=\"SN1\"} 3000",
        "daly_bms_cell_reference_voltage_volts{sn=\"SN1\"} 30",
        "daly_bms_cell_voltage_high_limit_volts{level=\"warning\",sn=\"SN1\"} 30",
        "daly_bms_cell_voltage_low_limit_volts{level=\"protection\",sn=\"SN1\"} 30",
        "daly_bms_pack_voltage_high_limit_volts{level=\"warning\",sn=\"SN1\"} 3000",
        "daly_bms_pack_voltage_low_limit_volts{level=\"protection\",sn=\"SN1\"} 3000",
        "daly_bms_charge_overcurrent_limit_amperes{level=\"warning\",sn=\"SN1\"} 0",
        "daly_bms_discharge_overcurrent_limit_amperes{level=\"warning\",sn=\"SN1\"} 0",
        "daly_bms_charge_temp_high_limit_celsius{level=\"warning\",sn=\"SN1\"} 29960",
        "daly_bms_charge_temp_low_limit_celsius{level=\"warning\",sn=\"SN1\"} 29960",
        "daly_bms_discharge_temp_high_limit_celsius{level=\"warning\",sn=\"SN1\"} 29960",
        "daly_bms_diff_temp_limit_celsius{sn=\"SN1\"} 30000",
        "daly_bms_fan_on_temperature_celsius{sn=\"SN1\"} 29960",
        "daly_bms_balance_enable{sn=\"SN1\"} 1",
        "daly_bms_config_balance_current_amperes{sn=\"SN1\"} 3000",
    ] {
        assert!(body.lines().any(|l| l.starts_with(line)), "{line} in {body}");
    }
    let info = "daly_bms_device_info{hw_version=\"H1\",machine_code=\"MC\",serial=\"SN1\",sn=\"SN1\",sw_version=\"\"} 1";
    assert!(body.contains(info), "{body}");
}

fn info_lines(body: &str) -> Vec<&str> {
    body.lines()
        .filter(|l| l.starts_with("daly_bms_device_info{"))
        .collect()
}

#[test]
fn identity_is_replaced_not_added() {
    let mut m = Exporter::new(MetricsOptions::default());
    for i in 0..20 {
        let c = ConfigData {
            machine_code: Some(format!("MC{i}")),
            ..Default::default()
        };
        m.update_config("SN1", &c);
    }
    let body = m.body();
    assert_eq!(info_lines(&body).len(), 1, "{body}");
    assert!(body.contains("machine_code=\"MC19\""));
    // The serial of the pack is shown once a realtime frame has carried it.
    m.update_realtime(
        "SN1",
        &RealtimeData {
            serial: Some("REAL".to_string()),
            ..Default::default()
        },
    );
    m.update_config("SN1", &ConfigData::default());
    let body = m.body();
    assert_eq!(info_lines(&body).len(), 1, "{body}");
    assert!(body.contains("serial=\"REAL\""));
    // A frame without a serial does not take it back; one with another replaces it.
    m.update_realtime("SN1", &RealtimeData::default());
    m.update_config("SN1", &ConfigData::default());
    assert!(m.body().contains("serial=\"REAL\""), "{}", m.body());
    m.update_realtime(
        "SN1",
        &RealtimeData {
            serial: Some("OTHER".to_string()),
            ..Default::default()
        },
    );
    m.update_config("SN1", &ConfigData::default());
    let body = m.body();
    assert_eq!(info_lines(&body).len(), 1, "{body}");
    assert!(body.contains("serial=\"OTHER\""), "{body}");
}

#[test]
fn frames_past_the_cap_mint_nothing() {
    let mut m = Exporter::new(MetricsOptions {
        max_devices: 1,
        ..Default::default()
    });
    assert!(m.m.admit_device("A"));
    m.update_realtime("B", &cells(2));
    m.accumulate_coulombs("B", Some(1.0), None, 1.0);
    m.accumulate_coulombs("B", Some(1.0), None, 100.0);
    m.update_config("B", &ConfigData::default());
    m.update_config(
        "B",
        &ConfigData {
            rated_capacity_dah: Some(400),
            balance_enable: Some(true),
            ..Default::default()
        },
    );
    assert!(!m.body().contains("sn=\"B\""), "{}", m.body());
    // The device within the cap is shown.
    m.update_config(
        "A",
        &ConfigData {
            rated_capacity_dah: Some(400),
            balance_enable: Some(true),
            ..Default::default()
        },
    );
    let body = m.body();
    assert!(body.contains("daly_bms_rated_capacity_amp_hours{sn=\"A\"} 40\n"), "{body}");
    assert!(body.contains("daly_bms_balance_enable{sn=\"A\"} 1\n"), "{body}");
}

/// The lines of an exposition that are no comments.
fn samples(body: &str) -> Vec<&str> {
    body.lines().filter(|l| !l.starts_with('#')).collect()
}

#[test]
fn new_metrics_show_one_sample() {
    let mut a = Exporter::new(MetricsOptions::default());
    a.m.record_dropped("crc");
    let b = Exporter::new(MetricsOptions::default());
    assert_eq!(
        samples(&b.body()),
        ["daly_bms_state_last_write_timestamp_seconds 0"]
    );
    assert_eq!(
        samples(&a.body()),
        [
            "daly_bms_frames_dropped_total{reason=\"crc\"} 1",
            "daly_bms_state_last_write_timestamp_seconds 0"
        ]
    );
    assert!(a.body().contains("# TYPE daly_bms_frames_dropped_total counter\n"));
    assert!(a.body().ends_with('\n'));
}

#[test]
fn label_values_are_escaped() {
    let mut m = Exporter::new(MetricsOptions::default());
    m.m.record_dropped("a\"b\\c\nd");
    assert_eq!(
        samples(&m.body())[0],
        "daly_bms_frames_dropped_total{reason=\"a\\\"b\\\\c\\nd\"} 1"
    );
}

#[test]
fn labels_are_shown_in_the_order_of_their_names() {
    let mut m = Exporter::new(MetricsOptions::default());
    m.update_config(
        "SN1",
        &ConfigData {
            machine_code: Some("M".to_string()),
            sw_version: Some("S".to_string()),
            hw_version: Some("H".to_string()),
            ..Default::default()
        },
    );
    assert_eq!(
        info_lines(&m.body()),
        ["daly_bms_device_info{hw_version=\"H\",machine_code=\"M\",serial=\"SN1\",sn=\"SN1\",sw_version=\"S\"} 1"]
    );
}

#[test]
fn boundaries_do_not_tell_series_apart() {
    let mut m = Exporter::new(MetricsOptions::default());
    m.m.record_request("e1", 200);
    m.m.record_request("e12", 0);
    m.m.record_request("e120", 0);
    let body = m.body();
    // "e1" + "200" and "e120" + "0" are one byte string.
    assert!(
        body.contains("daly_bms_http_requests_total{endpoint=\"e1\",status=\"200\"} 2\n"),
        "{body}"
    );
    assert!(!body.contains("endpoint=\"e120\""), "{body}");
    assert!(body.contains("{endpoint=\"e12\",status=\"0\"} 1\n"), "{body}");
}

#[test]
fn trapezoid_hours_directions_and_gap_cap() {
    let charge = |ah: u128| Split {
        charge: ah,
        discharge: 0,
    };
    let none = Split {
        charge: 0,
        discharge: 0,
    };
    const AH: u128 = 7_200_000_000_000;
    const WH: u128 = 7_200_000_000_000_000;
    const SEC: u64 = 1_000_000;
    // 10 A charge for 1 h, but dt capped to 900 s -> 10*900/3600 = 2.5 Ah.
    assert_eq!(
        trapezoid_hours(10_000, 10_000, 3600 * SEC, 900),
        charge(AH * 25 / 10)
    );
    // -20 A discharge for 900 s -> 5.0 Ah discharge.
    let s = trapezoid_hours(-20_000, -20_000, 900 * SEC, 900);
    assert!(s.charge == 0 && s.discharge == 5 * AH);
    // Non-positive dt -> nothing.
    assert_eq!(trapezoid_hours(10_000, 10_000, 0, 900), none);
    // Trapezoidal average across a sign change (avg = 0) -> nothing.
    assert_eq!(trapezoid_hours(10_000, -10_000, 100 * SEC, 900), none);
    // Fed power (260 W = 10 A * 26 V) for 900 s -> 65 Wh.
    assert_eq!(
        trapezoid_hours(260_000_000, 260_000_000, 900 * SEC, 900),
        charge(65 * WH)
    );
}

#[test]
fn accumulate_coulombs_integrates_charge_and_energy() {
    let mut m = Exporter::new(MetricsOptions::default());
    // First frame just sets the baseline (no increment).
    m.accumulate_coulombs("SN1", Some(10.0), Some(26.0), 1_000.0);
    // Second frame 3600 s later at 10 A / 26 V -> dt capped to 900 s ->
    // 2.5 Ah charge and (10*26)*900/3600 = 65 Wh charge.
    m.accumulate_coulombs("SN1", Some(10.0), Some(26.0), 1_000.0 + 3600.0);
    let body = m.body();
    assert!(
        body.contains("daly_bms_charge_amp_hours_total{sn=\"SN1\"} 2.5"),
        "unexpected body: {body}"
    );
    assert!(
        body.contains("daly_bms_charge_watt_hours_total{sn=\"SN1\"} 65"),
        "unexpected body: {body}"
    );
}

#[test]
fn accumulate_coulombs_discharge_and_skips_energy_without_voltage() {
    let mut m = Exporter::new(MetricsOptions::default());
    // Discharge with voltage: -10 A / 26 V over 900 s -> 2.5 Ah and 65 Wh discharge.
    m.accumulate_coulombs("SN1", Some(-10.0), Some(26.0), 1_000.0);
    m.accumulate_coulombs("SN1", Some(-10.0), Some(26.0), 1_000.0 + 900.0);
    // Current present but no voltage: amp-hours accumulate, energy is skipped.
    m.accumulate_coulombs("SN2", Some(-10.0), None, 2_000.0);
    m.accumulate_coulombs("SN2", Some(-10.0), None, 2_000.0 + 900.0);
    let body = m.body();
    assert!(
        body.contains("daly_bms_discharge_amp_hours_total{sn=\"SN1\"} 2.5"),
        "unexpected body: {body}"
    );
    assert!(
        body.contains("daly_bms_discharge_watt_hours_total{sn=\"SN1\"} 65"),
        "unexpected body: {body}"
    );
    assert!(
        body.contains("daly_bms_discharge_amp_hours_total{sn=\"SN2\"} 2.5"),
        "unexpected body: {body}"
    );
    // No pack voltage for SN2 -> no watt-hour series must be minted for it.
    assert!(
        !body.contains("daly_bms_discharge_watt_hours_total{sn=\"SN2\"}"),
        "energy minted without voltage: {body}"
    );
}

#[test]
fn coulomb_and_energy_state_persist_across_restart() {
    let mut m = Exporter::new(persisting());
    m.accumulate_coulombs("SN1", Some(10.0), Some(26.0), 1_000.0); // baseline
    m.accumulate_coulombs("SN1", Some(10.0), Some(26.0), 1_000.0 + 3600.0); // +2.5 Ah / 65 Wh
    let disk = m.disk.take().expect("state was written");
    // A fresh instance (simulating a restart) restores both totals.
    let mut m2 = Exporter::new(persisting());
    assert_eq!(m2.restore_coulombs(&disk), 1);
    let [ah, _, wh, _] = m2.counters("SN1");
    assert!((ah - 2.5).abs() < 1e-9, "restored {ah} Ah");
    assert!((wh - 65.0).abs() < 1e-9, "restored {wh} Wh");
}

#[test]
fn persisted_state_never_below_exported_counters() {
    let mut m = Exporter::new(MetricsOptions {
        state_min_interval_secs: 0,
        ..persisting()
    });
    // A current near zero is what made the production delta ~4e-12.
    let mut checked = 0usize;
    for i in 0..50 {
        m.accumulate_coulombs(
            "SN1",
            Some(0.01),
            Some(26.0),
            1_000.0 + f64::from(i) * 200.0,
        );
        if m.disk.is_none() {
            // The first frame only sets the baseline, producing no delta and
            // therefore no write: idle frames must not cost an fsync.
            continue;
        }
        let file = m.persisted("SN1");
        let exported = m.counters("SN1");
        for (f, e) in file.iter().zip(exported.iter()) {
            assert!(f >= e, "file {f} < exported {e} after frame {i}");
            checked += 1;
        }
    }
    // Without this the test passes vacuously if writes stop happening at all.
    assert!(
        checked > 100,
        "state file was barely written: {checked} checks"
    );
}

#[test]
fn restart_never_decreases_counters() {
    let mut m = Exporter::new(MetricsOptions {
        state_min_interval_secs: 0,
        ..persisting()
    });
    for i in 0..10 {
        m.accumulate_coulombs("SN1", Some(-3.0), Some(26.5), 1_000.0 + f64::from(i) * 60.0);
    }
    m.persist_coulombs();
    let before = m.counters("SN1");
    let disk = m.disk.take().expect("state was written");

    let mut m2 = Exporter::new(persisting());
    m2.restore_coulombs(&disk);
    let after = m2.counters("SN1");
    for (a, b) in after.iter().zip(before.iter()) {
        assert!(a >= b, "counter decreased across restart: {a} < {b}");
    }
}

#[test]
fn a_mixed_history_never_lowers_a_counter() {
    let opts = MetricsOptions {
        state_min_interval_secs: 0,
        ..persisting()
    };
    let mut m = Exporter::new(opts);
    let mut seen = [0.0; 4];
    let mut restarts = 0;
    for i in 0..30 {
        // Every third stretch of frames meets a disk that refuses writes.
        m.broken = (i / 5) % 3 == 1;
        m.accumulate_coulombs("SN1", Some(4.0), Some(26.0), 1_000.0 + f64::from(i) * 60.0);
        if i % 7 == 6 {
            // Stops without a last flush, and starts again from the file.
            let disk = m.disk.take().expect("state was written");
            m = Exporter::new(opts);
            assert_eq!(m.restore_coulombs(&disk), 1);
            m.disk = Some(disk);
            restarts += 1;
        }
        let now = m.counters("SN1");
        for (a, b) in now.iter().zip(seen.iter()) {
            assert!(a >= b, "counter fell from {b} to {a} after frame {i}");
        }
        if m.disk.is_some() {
            for (file, shown) in m.persisted("SN1").iter().zip(now.iter()) {
                assert!(file >= shown, "file {file} < shown {shown} after frame {i}");
            }
        }
        seen = now;
    }
    assert_eq!(restarts, 4);
    assert!(seen[0] > 0.5 && seen[2] > 13.0, "hardly anything counted: {seen:?}");
    assert_eq!((seen[1], seen[3]), (0.0, 0.0));
}

#[test]
fn write_failure_freezes_counters_and_recovers() {
    let opts = MetricsOptions {
        state_min_interval_secs: 0,
        ..persisting()
    };
    let mut m = Exporter::new(opts);
    m.broken = true;
    m.accumulate_coulombs("SN1", Some(10.0), Some(26.0), 1_000.0);
    m.accumulate_coulombs("SN1", Some(10.0), Some(26.0), 1_000.0 + 900.0);
    assert_eq!(
        m.counters("SN1"),
        [0.0; 4],
        "counters advanced despite a failed write"
    );
    let body = m.body();
    assert!(
        body.contains("daly_bms_state_write_errors_total{stage=\"create_dir\"}"),
        "no write error reported: {body}"
    );

    // The deltas are queued, not lost: once writes succeed they all land.
    let mut recovered = Exporter::new(opts);
    recovered.accumulate_coulombs("SN1", Some(10.0), Some(26.0), 1_000.0);
    recovered.accumulate_coulombs("SN1", Some(10.0), Some(26.0), 1_000.0 + 900.0);
    assert!(
        (recovered.counters("SN1")[0] - 2.5).abs() < 1e-9,
        "expected the same 2.5 Ah the failing instance withheld"
    );
    m.broken = false;
    m.persist_coulombs();
    assert!((m.counters("SN1")[0] - 2.5).abs() < 1e-9);
    assert!((m.counters("SN1")[2] - 65.0).abs() < 1e-9);
}

#[test]
fn failing_writes_are_throttled_too() {
    let mut m = Exporter::new(MetricsOptions {
        state_min_interval_secs: 3600,
        ..persisting()
    });
    m.broken = true;
    m.accumulate_coulombs("SN1", Some(10.0), Some(26.0), 1_000.0);
    for i in 1..=20 {
        m.accumulate_coulombs("SN1", Some(10.0), Some(26.0), 1_000.0 + f64::from(i) * 60.0);
    }
    assert!(
        m.body()
            .contains("daly_bms_state_write_errors_total{stage=\"create_dir\"} 1\n"),
        "each frame retried the failing write: {}",
        m.body()
    );
    // Once the window has passed, the next frame tries again.
    m.clock_us = 3_600_000_000;
    m.accumulate_coulombs("SN1", Some(10.0), Some(26.0), 1_000.0 + 21.0 * 60.0);
    assert!(m
        .body()
        .contains("daly_bms_state_write_errors_total{stage=\"create_dir\"} 2\n"));
}

#[test]
fn increments_apply_immediately_without_persistence() {
    // Without persistence there is nothing to wait for, so increments must
    // still reach the counters immediately.
    let mut m = Exporter::new(MetricsOptions::default());
    m.accumulate_coulombs("SN1", Some(10.0), Some(26.0), 1_000.0);
    m.accumulate_coulombs("SN1", Some(10.0), Some(26.0), 1_000.0 + 900.0);
    assert!((m.counters("SN1")[0] - 2.5).abs() < 1e-9);
}

#[test]
fn throttled_increments_are_deferred_not_lost() {
    let mut m = Exporter::new(MetricsOptions {
        state_min_interval_secs: 3600,
        ..persisting()
    });
    // First pending delta writes (no previous write to throttle against).
    m.accumulate_coulombs("SN1", Some(10.0), Some(26.0), 1_000.0);
    m.accumulate_coulombs("SN1", Some(10.0), Some(26.0), 1_000.0 + 900.0);
    let after_first = m.counters("SN1")[0];
    assert!((after_first - 2.5).abs() < 1e-9);

    // Everything after that is inside the window and stays pending.
    m.accumulate_coulombs("SN1", Some(10.0), Some(26.0), 1_000.0 + 1_800.0);
    assert_eq!(
        m.counters("SN1")[0],
        after_first,
        "throttled delta was exported before it was written"
    );

    // A forced flush (shutdown) applies it.
    m.persist_coulombs();
    assert!(
        (m.counters("SN1")[0] - 5.0).abs() < 1e-9,
        "throttled delta was lost instead of deferred"
    );
}

#[test]
fn persist_coulombs_is_idempotent() {
    let mut m = Exporter::new(MetricsOptions {
        state_min_interval_secs: 3600,
        ..persisting()
    });
    m.accumulate_coulombs("SN1", Some(10.0), Some(26.0), 1_000.0);
    m.accumulate_coulombs("SN1", Some(10.0), Some(26.0), 1_000.0 + 900.0);
    m.persist_coulombs();
    let once = m.counters("SN1");
    m.persist_coulombs();
    assert_eq!(m.counters("SN1"), once, "second persist double-counted");
}

#[test]
fn frames_during_a_write_wait_for_the_next_one() {
    let mut m = Metrics::new(MetricsOptions {
        state_min_interval_secs: 0,
        ..persisting()
    });
    m.accumulate_coulombs("SN1", Some(10_000), None, 1_000_000);
    m.accumulate_coulombs("SN1", Some(10_000), None, 11_000_000);
    let first = match m.flush_coulomb_state(false, 0) {
        FlushStep::Write(rows) => rows,
        other => panic!("nothing to write: {other:?}"),
    };
    assert_eq!(first[0].totals.ah.charge, 2 * 10_000 * 10_000_000);
    // A frame arrives while the file is being written: no second writer starts.
    m.accumulate_coulombs("SN1", Some(10_000), None, 21_000_000);
    assert!(matches!(m.flush_coulomb_state(true, 0), FlushStep::Idle));
    let shown = m.finish_flush(true, 0);
    assert_eq!(shown[0].totals, first[0].totals);
    // The frame is picked up by the next flush.
    match m.flush_coulomb_state(false, 0) {
        FlushStep::Write(rows) => {
            assert_eq!(rows[0].totals.ah.charge, 2 * 10_000 * 20_000_000);
        }
        other => panic!("the frame was lost: {other:?}"),
    }
    // Given up before anything was written, it is still there afterwards.
    m.abort_flush();
    match m.flush_coulomb_state(false, 0) {
        FlushStep::Write(rows) => {
            assert_eq!(rows[0].totals.ah.charge, 2 * 10_000 * 20_000_000);
        }
        other => panic!("the frame was lost: {other:?}"),
    }
}

#[test]
fn implausible_current_frame_is_rejected() {
    let mut m = Exporter::new(MetricsOptions::default());
    m.accumulate_coulombs("SN1", Some(10.0), Some(26.0), 1_000.0);
    // 3553 A is the top of the wire encoding ((0xFFFF - 30000) * 0.1).
    m.accumulate_coulombs("SN1", Some(3553.5), Some(26.0), 1_000.0 + 900.0);
    assert_eq!(
        m.counters("SN1"),
        [0.0; 4],
        "garbage frame was integrated"
    );
    let body = m.body();
    assert!(
        body.contains("daly_bms_coulomb_samples_rejected_total{reason=\"implausible_current\"} 1"),
        "not reported: {body}"
    );
    // The frame is decoded and exported as gauges, so it must not also be
    // counted as a dropped frame.
    assert!(
        !body.contains("daly_bms_frames_dropped_total"),
        "must not inflate frames_dropped: {body}"
    );
}

#[test]
fn implausible_voltage_frame_is_rejected() {
    let mut m = Exporter::new(MetricsOptions::default());
    m.accumulate_coulombs("SN1", Some(10.0), Some(26.0), 1_000.0);
    // Valid current, garbage voltage register (0xFFFF * 0.1) -> whole frame.
    m.accumulate_coulombs("SN1", Some(10.0), Some(6553.5), 1_000.0 + 900.0);
    assert_eq!(m.counters("SN1"), [0.0; 4]);
    assert!(m
        .body()
        .contains("daly_bms_coulomb_samples_rejected_total{reason=\"implausible_voltage\"}"));
}

#[test]
fn absent_limits_reject_nothing() {
    let none = PlausibilityLimits {
        max_current_ma: None,
        pack_mv: (None, None),
    };
    assert_eq!(none.check(i32::MIN, Some(u32::MAX)), None);
    let low = PlausibilityLimits {
        max_current_ma: Some(100),
        pack_mv: (Some(10), Some(20)),
    };
    assert_eq!(low.check(100, Some(10)), None);
    assert_eq!(low.check(-100, Some(20)), None);
    assert_eq!(low.check(-101, None).map(|f| f.as_str()), Some("implausible_current"));
    assert_eq!(low.check(0, Some(9)).map(|f| f.as_str()), Some("implausible_voltage"));
    assert_eq!(low.check(0, Some(21)).map(|f| f.as_str()), Some("implausible_voltage"));
}

#[test]
fn long_gap_at_the_plausible_maximum_is_not_clamped() {
    // 99 A at 33 V over the full 900 s gap cap is 24.75 Ah — large, but it is a
    // recoverable reading after a comms drop, not an anomaly.
    let mut m = Exporter::new(MetricsOptions::default());
    m.accumulate_coulombs("SN1", Some(99.0), Some(33.0), 1_000.0);
    m.accumulate_coulombs("SN1", Some(99.0), Some(33.0), 1_000.0 + 900.0);
    let [ah, _, wh, _] = m.counters("SN1");
    assert!(
        (ah - 99.0 * 0.25).abs() < 1e-9,
        "delta was clamped: {ah} Ah"
    );
    assert!((wh - 99.0 * 33.0 * 0.25).abs() < 1e-9, "clamped: {wh} Wh");
    assert!(
        !m.body().contains("reason=\"clamped_delta\""),
        "a legitimate long gap must not be reported as clamped"
    );
}

#[test]
fn operator_lowered_frame_ceiling_is_enforced() {
    let mut m = Exporter::new(MetricsOptions {
        plausibility: PlausibilityLimits {
            max_current_ma: Some(20_000),
            pack_mv: (Some(18_000), Some(34_000)),
        },
        max_frame_mah: Some(1_000),
        max_frame_mwh: Some(30_000),
        ..Default::default()
    });
    m.accumulate_coulombs("SN1", Some(20.0), Some(26.0), 1_000.0);
    m.accumulate_coulombs("SN1", Some(20.0), Some(26.0), 1_000.0 + 900.0);
    let [ah, _, wh, _] = m.counters("SN1");
    // Uncapped this would be 5 Ah / 130 Wh.
    assert!((ah - 1.0).abs() < 1e-9, "amp-hours not clamped: {ah}");
    assert!((wh - 30.0).abs() < 1e-9, "watt-hours not clamped: {wh}");
    assert!(m
        .body()
        .contains("daly_bms_coulomb_samples_rejected_total{reason=\"clamped_delta\"}"));
}

#[test]
fn implausible_frame_keeps_baseline() {
    // A rejected frame must not move the baseline: the next good frame then
    // integrates cleanly across the whole interval instead of losing it.
    let mut m = Exporter::new(MetricsOptions::default());
    m.accumulate_coulombs("SN1", Some(10.0), Some(26.0), 1_000.0);
    m.accumulate_coulombs("SN1", Some(3553.5), Some(26.0), 1_000.0 + 200.0);
    m.accumulate_coulombs("SN1", Some(10.0), Some(26.0), 1_000.0 + 400.0);
    let [ah, _, wh, _] = m.counters("SN1");
    // 10 A over the full 400 s, and 10*26 W over the same.
    assert!((ah - 10.0 * 400.0 / 3600.0).abs() < 1e-9, "got {ah} Ah");
    assert!((wh - 260.0 * 400.0 / 3600.0).abs() < 1e-9, "got {wh} Wh");
}

#[test]
fn a_clock_that_steps_back_integrates_nothing() {
    let mut m = Exporter::new(MetricsOptions::default());
    m.accumulate_coulombs("SN1", Some(10.0), Some(26.0), 1_000.0);
    m.accumulate_coulombs("SN1", Some(10.0), Some(26.0), 900.0);
    assert_eq!(m.counters("SN1"), [0.0; 4]);
    m.accumulate_coulombs("SN1", Some(10.0), Some(26.0), 1_260.0);
    assert!((m.counters("SN1")[0] - 1.0).abs() < 1e-9);
}

#[test]
fn admit_caps_distinct_devices() {
    let mut m = Exporter::new(MetricsOptions {
        max_devices: 2,
        ..Default::default()
    });
    // Admission reserves the slot, so devices that never decode still count.
    assert!(m.m.admit_device("A"), "1st device reserved");
    assert!(m.m.admit_device("B"), "2nd device reserved");
    assert!(m.m.admit_device("A"), "known device stays admitted");
    assert!(!m.m.admit_device("C"), "3rd distinct device rejected at cap");

    let mut unlimited = Exporter::new(MetricsOptions {
        max_devices: 0,
        ..Default::default()
    });
    assert!(unlimited.m.admit_device("anything"), "0 = unlimited");
    assert!(unlimited.m.admit_device("another"));
}

#[test]
fn restore_honours_the_device_cap() {
    let totals = Totals {
        ah: Split {
            charge: 7_200_000_000_000,
            discharge: 0,
        },
        wh: Split {
            charge: 0,
            discharge: 0,
        },
    };
    let disk: Vec<(String, Totals)> = ["A", "B", "C"]
        .iter()
        .map(|sn| (sn.to_string(), totals))
        .collect();
    let mut m = Exporter::new(MetricsOptions {
        max_devices: 2,
        ..persisting()
    });
    assert_eq!(m.restore_coulombs(&disk), 2);
    assert_eq!(m.counters("A")[0], 1.0);
    assert_eq!(m.counters("B")[0], 1.0);
    assert!(!m.m.admit_device("C"));
}

#[test]
fn write_stages_have_labels() {
    let labels: Vec<&str> = [
        WriteStage::Serialize,
        WriteStage::CreateDir,
        WriteStage::Create,
        WriteStage::Write,
        WriteStage::Sync,
        WriteStage::Rename,
        WriteStage::DirSync,
    ]
    .iter()
    .map(|s| s.as_str())
    .collect();
    assert_eq!(
        labels,
        vec!["serialize", "create_dir", "create", "write", "sync", "rename", "dirsync"]
    );
}

#[test]
fn families_have_distinct_names() {
    let all = Family::all();
    assert_eq!(all.len(), 48);
    let mut names: Vec<&str> = all.iter().map(|f| f.name()).collect();
    names.sort();
    names.dedup();
    assert_eq!(names.len(), 48);
}

#[test]
fn registry_ids_are_hashes_of_the_names() {
    let fnv1a = |bytes: &[u8]| {
        bytes.iter().fold(0xcbf2_9ce4_8422_2325u64, |h, b| {
            (h ^ u64::from(*b)).wrapping_mul(0x100_0000_01b3)
        })
    };
    let mut ids = std::collections::HashSet::new();
    for f in Family::all() {
        let labels = f.labels().iter().map(|l| l.to_string()).collect();
        let desc = prometheus::core::Desc::new(
            f.name().to_string(),
            f.help().to_string(),
            labels,
            std::collections::HashMap::new(),
        )
        .expect("a well-formed family");
        let mut bytes = f.name().as_bytes().to_vec();
        bytes.push(0xff);
        assert_eq!(desc.id, fnv1a(&bytes), "{}", f.name());
        assert!(ids.insert(desc.id), "{}", f.name());
    }
    assert!(ids.contains(&0xbc73_9595_0379_9c9b));
    assert!(ids.contains(&0x8ebf_ded3_2ad9_070e));
}

#[test]
fn every_family_is_registered_under_its_name() {
    let mut m = Exporter::new(MetricsOptions::default());
    for f in Family::all() {
        match f.kind() {
            Kind::Gauge => {
                let labels = vec!["x"; f.labels().len()];
                m.gauge(f).with_label_values(&labels).set(1.5);
                let body = m.body();
                let start = format!("{}{{", f.name());
                assert!(
                    body.lines().any(|l| l.starts_with(&start) && l.ends_with(" 1.5")),
                    "{start}"
                );
                assert!(body.contains(&format!("# HELP {} {}", f.name(), f.help())));
                for label in f.labels() {
                    assert!(body.contains(&format!("{label}=\"x\"")));
                }
            }
            Kind::Counter => {
                m.counter(f).with_label_values(&["x"]).inc_by(2.5);
                assert!(m.body().contains(&format!("{}{{sn=\"x\"}} 2.5", f.name())));
            }
            Kind::Scalar => {
                m.m.state_last_write_timestamp().gauge.set(7.0);
                assert!(m.body().contains(&format!("{} 7", f.name())));
            }
            Kind::IntGauge | Kind::IntCounter => {
                assert!(m.m.gauges(f).is_none());
                assert!(m.m.counters(f).is_none());
            }
        }
    }
}
