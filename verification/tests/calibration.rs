//! The calibrator together with a forgetting line fit.

use std::collections::HashMap;

use daly_bms_exporter::calibration::{
    anchor_error, pair_admitted, pair_key, peer_report, Calibrator, Fit, Hold, Options, PairFit, PeerFit,
    Report, Sample,
};

const US_PER_HOUR: f64 = 3.6e9;
const UNITS_PER_AH: f64 = 7.2e12;

/// Exponentially weighted sums of a line fit.
#[derive(Clone, Copy, Default)]
struct Line {
    n: f64,
    sx: f64,
    sy: f64,
    sxx: f64,
    sxy: f64,
    syy: f64,
}

impl Line {
    fn decay(&mut self, factor: f64) {
        self.n *= factor;
        self.sx *= factor;
        self.sy *= factor;
        self.sxx *= factor;
        self.sxy *= factor;
        self.syy *= factor;
    }

    fn push(&mut self, x: f64, y: f64) {
        self.n += 1.0;
        self.sx += x;
        self.sy += y;
        self.sxx += x * x;
        self.sxy += x * y;
        self.syy += y * y;
    }

    fn shift_x(&mut self, d: f64) {
        self.sxx = self.sxx - 2.0 * d * self.sx + d * d * self.n;
        self.sxy -= d * self.sy;
        self.sx -= d * self.n;
    }

    /// The line in billionths, if there is one.
    fn fit(&self) -> Option<Fit> {
        if self.n < 3.0 {
            return None;
        }
        let sxx = self.sxx - self.sx * self.sx / self.n;
        let sxy = self.sxy - self.sx * self.sy / self.n;
        let syy = self.syy - self.sy * self.sy / self.n;
        if sxx <= 0.0 || !sxx.is_finite() {
            return None;
        }
        let slope = sxy / sxx;
        let intercept = (self.sy - slope * self.sx) / self.n;
        let sse = (syy - slope * sxy).max(0.0);
        let stderr = (sse / (self.n - 2.0) / sxx).sqrt();
        let r2 = if syy > 0.0 {
            (sxy * sxy / (sxx * syy)).clamp(0.0, 1.0)
        } else {
            1.0
        };
        Some(Fit {
            slope: (slope * 1e9).round() as i64,
            intercept: (intercept * 1e9).round() as i64,
            r2: (r2 * 1e9).round() as u64,
            stderr: (stderr * 1e9).round() as u64,
        })
    }

    fn weight(&self) -> u64 {
        (self.n * 1000.0) as u64
    }
}

/// The calibrator with its fits.
struct Bench {
    opts: Options,
    cal: Calibrator,
    fits: HashMap<String, Line>,
    pairs: HashMap<String, Line>,
}

impl Bench {
    fn new(opts: Options) -> Self {
        Bench {
            opts,
            cal: Calibrator::new(opts),
            fits: HashMap::new(),
            pairs: HashMap::new(),
        }
    }

    fn own(&self, sn: &str) -> Option<Fit> {
        self.fits.get(sn).and_then(Line::fit)
    }

    /// One frame; gives the applied offset in amperes.
    fn observe(
        &mut self,
        sn: &str,
        current_a: f64,
        balance_a: Option<f64>,
        remaining_ah: Option<f64>,
        now_secs: f64,
    ) -> f64 {
        let (point, pairs) = self.cal.observe(
            sn,
            Sample {
                current_ma: (current_a * 1000.0).round() as i32,
                balance_ma: balance_a.map(|b| (b * 1000.0).round() as i32),
                remaining_uah: remaining_ah.map(|q| (q * 1e6).round() as i64),
                capacity_uah: Some(40_000_000),
                now_us: (now_secs * 1e6).round() as u64,
            },
        );
        if let Some(p) = point {
            let tau = self.opts.tau_secs as f64 / 3600.0;
            let fit = self.fits.entry(sn.to_string()).or_default();
            fit.decay((-(p.aged_us as f64 / US_PER_HOUR) / tau).exp());
            fit.push(p.x_us as f64 / US_PER_HOUR, p.y as f64 / UNITS_PER_AH);
            if let Some(d) = p.shift_us {
                fit.shift_x(d as f64 / US_PER_HOUR);
            }
        }
        for p in pairs {
            let tau = self.opts.peer_tau_secs as f64 / 3600.0;
            let fit = self.pairs.entry(p.key).or_default();
            if let Some(aged) = p.aged_us {
                fit.decay((-(aged as f64 / US_PER_HOUR) / tau).exp());
            }
            fit.push(f64::from(p.x_ma) / 1000.0, f64::from(p.y_ma) / 1000.0);
        }
        let peers: Vec<PeerFit> = self
            .cal
            .devices()
            .into_iter()
            .map(|other| PeerFit {
                pair: self.pairs.get(&pair_key(sn, &other).0).map(|l| PairFit {
                    weight: l.weight(),
                    fit: l.fit(),
                }),
                estimate_na: self.own(&other).map(|f| f.slope),
                sn: other,
            })
            .collect();
        self.cal.recompute(sn, self.own(sn), &peers) as f64 / 1e9
    }

    fn report(&self, sn: &str) -> Option<Report> {
        let weight = self.fits.get(sn).map_or(0, Line::weight);
        self.cal.report(sn, self.own(sn), weight)
    }
}

/// Drive a synthetic pack: constant load profile, a true offset injected into
/// the reported current, and a `Q` that tracks the true charge.
struct Sim {
    bench: Bench,
    t: f64,
    q: f64,
}

impl Sim {
    fn new(opts: Options) -> Self {
        Sim {
            bench: Bench::new(opts),
            t: 1_000_000.0,
            q: 20.0,
        }
    }

    /// One frame `dt` seconds later carrying `true_a` of real current, with
    /// `offset` added by the sensor and `balance_a` of bleed.
    fn step(&mut self, sn: &str, true_a: f64, offset: f64, balance_a: f64, dt: f64) -> f64 {
        self.t += dt;
        self.q += (true_a - balance_a) * dt / 3600.0;
        self.bench
            .observe(sn, true_a + offset, Some(balance_a), Some(self.q), self.t)
    }
}

fn fast_opts() -> Options {
    Options {
        min_span_secs: 24 * 3600,
        // The production value needs ~800 integrated hours on a 40 Ah pack;
        // these tests run five simulated days, so they assert the estimator
        // rather than the warmup schedule (which has its own test).
        max_anchor_error_na: 10_000_000_000,
        peer_min_weight: 100_000,
        ..Options::default()
    }
}

fn swing(i: i32) -> f64 {
    if (i / 60) % 2 == 0 {
        8.0
    } else {
        -8.0
    }
}

#[test]
fn recovers_the_injected_offset() {
    let mut sim = Sim::new(fast_opts());
    // Five days of 60 s frames, alternating charge and discharge so the true
    // net stays near zero, with a +0.2 A sensor error.
    let mut applied = 0.0;
    for i in 0..(5 * 24 * 60) {
        applied = sim.step("SN1", swing(i), 0.2, 0.0, 60.0);
    }
    assert!(
        (applied - 0.2).abs() < 0.02,
        "expected ~+0.2 A, got {applied}"
    );
}

#[test]
fn balancer_bleed_is_not_mistaken_for_sensor_offset() {
    let mut sim = Sim::new(fast_opts());
    // No sensor error at all, but a 0.5 A balancer running constantly. The
    // bleed is reported, so the closure must attribute nothing to the sensor.
    let mut applied = 0.0;
    for i in 0..(5 * 24 * 60) {
        applied = sim.step("SN1", swing(i), 0.0, 0.5, 60.0);
    }
    assert!(
        applied.abs() < 0.02,
        "reported bleed must not land in the offset, got {applied}"
    );
}

#[test]
fn unreported_loss_lands_in_the_offset() {
    // Same bleed, but the frame does not report it: the closure has no other
    // place to put it, and says so.
    let mut bench = Bench::new(fast_opts());
    let (mut t, mut q) = (1_000_000.0, 20.0);
    let mut applied = 0.0;
    for i in 0..(5 * 24 * 60) {
        let true_a = swing(i);
        t += 60.0;
        q += (true_a - 0.5) * 60.0 / 3600.0;
        applied = bench.observe("SN1", true_a, None, Some(q), t);
    }
    assert!(
        (applied - 0.5).abs() < 0.05,
        "unreported loss must surface as offset, got {applied}"
    );
}

#[test]
fn warmup_applies_nothing() {
    let mut sim = Sim::new(Options::default());
    let mut applied = 0.0;
    for i in 0..(24 * 60) {
        applied = sim.step("SN1", swing(i), 0.3, 0.0, 60.0);
    }
    assert_eq!(applied, 0.0, "must not correct before the window is long enough");
    let r = sim.bench.report("SN1").expect("report");
    assert_eq!(r.hold, Hold::Warmup);
    assert!(
        r.estimate_na.is_some(),
        "the estimate is published while held"
    );
}

#[test]
fn offset_is_clamped() {
    let opts = Options {
        max_offset_na: 100_000_000,
        ..fast_opts()
    };
    let mut sim = Sim::new(opts);
    let mut applied = 0.0;
    for i in 0..(5 * 24 * 60) {
        applied = sim.step("SN1", swing(i), 0.4, 0.0, 60.0);
    }
    assert!(
        (applied - 0.1).abs() < 1e-9,
        "must clamp to the configured ceiling, got {applied}"
    );
}

#[test]
fn a_gap_longer_than_max_gap_is_not_integrated_as_time() {
    // A pack that goes offline for a day must not have that day counted as
    // integrated time: otherwise the slope is diluted toward zero.
    let mut sim = Sim::new(fast_opts());
    for i in 0..(3 * 24 * 60) {
        sim.step("SN1", swing(i), 0.2, 0.0, 60.0);
    }
    let before = sim.bench.report("SN1").expect("report").span_us;
    // 24 h outage, then one frame.
    sim.step("SN1", 0.0, 0.2, 0.0, 86_400.0);
    let after = sim.bench.report("SN1").expect("report").span_us;
    assert!(
        after - before <= 900_000_000,
        "outage added {} us of span",
        after - before
    );
    assert_eq!(after - before, 900_000_000);
}

#[test]
fn peer_regression_measures_the_relative_offset() {
    let mut bench = Bench::new(fast_opts());
    let (mut t, mut q1, mut q2) = (1_000_000.0, 20.0, 20.0);
    for i in 0..(5 * 24 * 60) {
        // A smooth 6 h swing rather than a square wave: pairing samples across a
        // current step is errors-in-variables noise that attenuates the slope.
        let true_a = 8.0 * (f64::from(i) * std::f64::consts::TAU / 360.0).sin();
        t += 60.0;
        q1 += true_a * 60.0 / 3600.0;
        q2 += true_a * 60.0 / 3600.0;
        // SN1 reads 0.1 A high, SN2 reads 0.1 A low: a 0.2 A difference.
        bench.observe("SN1", true_a + 0.1, Some(0.0), Some(q1), t);
        bench.observe("SN2", true_a - 0.1, Some(0.0), Some(q2), t + 1.0);
    }
    let r1 = bench.report("SN1").expect("SN1");
    let peer = r1.peer.expect("SN1 must have found SN2");
    assert_eq!(peer.peer_sn, "SN2");
    let slope = peer.slope as f64 / 1e9;
    assert!((slope - 1.0).abs() < 0.05, "slope {slope}");
    let relative = peer.relative_na as f64 / 1e9;
    assert!((relative - 0.2).abs() < 0.02, "relative offset {relative}");
    // Both estimators agree here, so nothing is frozen.
    let disagreement = peer.disagreement_na as f64 / 1e9;
    assert!(disagreement < 0.05, "disagreement {disagreement}");
    assert_eq!(r1.hold, Hold::Clear);
}

#[test]
fn peer_disagreement_freezes_the_correction() {
    let opts = Options {
        peer_max_disagreement_na: 50_000_000,
        ..fast_opts()
    };
    let mut bench = Bench::new(opts);
    let (mut t, mut q1, mut q2) = (1_000_000.0, 20.0, 20.0);
    let mut applied = 0.0;
    for i in 0..(6 * 24 * 60) {
        let true_a = swing(i);
        t += 60.0;
        // SN1 additionally leaks 0.4 A that nothing reports: the closure blames
        // its sensor, the peer regression sees identical sensors.
        q1 += (true_a - 0.4) * 60.0 / 3600.0;
        q2 += true_a * 60.0 / 3600.0;
        applied = bench.observe("SN1", true_a, Some(0.0), Some(q1), t);
        bench.observe("SN2", true_a, Some(0.0), Some(q2), t + 1.0);
    }
    let r1 = bench.report("SN1").expect("SN1");
    assert_eq!(
        r1.hold,
        Hold::PeerDisagreement,
        "a loss the peers do not see must freeze, not calibrate away"
    );
    assert!(
        applied.abs() < 0.2,
        "the frozen value must be the pre-disagreement one, got {applied}"
    );
    assert!(
        r1.estimate_na.expect("estimate") > 300_000_000,
        "the estimate itself is still published"
    );
}

#[test]
fn a_disagreeing_peer_does_not_mask_the_warmup_hold() {
    let opts = Options {
        peer_max_disagreement_na: 50_000_000,
        peer_min_weight: 100_000,
        // Everything else at production defaults, so warmup is not over.
        ..Options::default()
    };
    let mut bench = Bench::new(opts);
    let (mut t, mut q1, mut q2) = (1_000_000.0, 20.0, 20.0);
    for i in 0..(6 * 24 * 60) {
        let true_a = 8.0 * (f64::from(i) * std::f64::consts::TAU / 360.0).sin();
        t += 60.0;
        q1 += (true_a - 0.4) * 60.0 / 3600.0;
        q2 += true_a * 60.0 / 3600.0;
        for (sn, q, skew) in [("SN1", q1, 0.0), ("SN2", q2, 1.0)] {
            bench.observe(sn, true_a, Some(0.0), Some(q), t + skew);
        }
    }
    let r = bench.report("SN1").expect("SN1");
    assert_eq!(
        r.hold,
        Hold::Warmup,
        "warmup is what binds and must be what is reported"
    );
    let peer = r.peer.expect("the peer report is still published");
    assert!(
        peer.disagreement_na > 50_000_000,
        "the test is pointless unless the veto would otherwise have fired, got {}",
        peer.disagreement_na
    );
}

#[test]
fn state_round_trips() {
    let mut sim = Sim::new(fast_opts());
    for i in 0..(5 * 24 * 60) {
        sim.step("SN1", swing(i), 0.2, 0.0, 60.0);
    }
    let before = sim.bench.report("SN1").expect("before");
    let state = sim.bench.cal.state();

    let mut restored = Bench::new(fast_opts());
    restored.cal.restore(&state, &vec!["SN1".to_string()]);
    // The line fits are kept beside the state, and are carried over with it.
    restored.fits = sim.bench.fits.clone();
    let after = restored.report("SN1").expect("after");
    assert_eq!(before.applied_na, after.applied_na);
    assert_eq!(before.estimate_na.expect("b"), after.estimate_na.expect("a"));
    assert_eq!(before.span_us, after.span_us);
    assert_eq!(before.anchor_error_na, after.anchor_error_na);
}

#[test]
fn restore_honours_the_admission_filter() {
    let mut sim = Sim::new(fast_opts());
    for i in 0..200 {
        let true_a = if i % 2 == 0 { 8.0 } else { -8.0 };
        sim.step("SN1", true_a, 0.2, 0.0, 60.0);
        sim.step("SN2", true_a, 0.2, 0.0, 60.0);
    }
    let state = sim.bench.cal.state();
    assert!(!sim.bench.pairs.is_empty());
    let allowed = vec!["SN1".to_string()];
    let mut restored = Bench::new(fast_opts());
    restored.cal.restore(&state, &allowed);
    assert!(restored.report("SN1").is_some());
    assert!(
        restored.report("SN2").is_none(),
        "a rejected serial must not be restored"
    );
    assert!(
        !sim.bench.pairs.keys().any(|k| pair_admitted(k, &allowed)),
        "a pair naming a rejected serial must not be restored"
    );
    let both = vec!["SN2".to_string(), "SN1".to_string()];
    assert!(sim.bench.pairs.keys().all(|k| pair_admitted(k, &both)));
}

#[test]
fn frames_without_remaining_capacity_still_integrate() {
    // `Q` is what anchors the fit; without it there is nothing to fit, but the
    // running integrals must keep up so the next anchored frame is consistent.
    let mut bench = Bench::new(fast_opts());
    let mut t = 1_000_000.0;
    for _ in 0..100 {
        t += 60.0;
        bench.observe("SN1", 5.0, None, None, t);
    }
    let r = bench.report("SN1").expect("report");
    assert_eq!(r.hold, Hold::NoFit);
    assert_eq!(r.applied_na, 0);
    assert!(
        r.span_us > 3_600_000_000,
        "integration must still advance"
    );
}

#[test]
fn hold_codes_are_stable() {
    let codes: Vec<u8> = [
        Hold::Clear,
        Hold::Warmup,
        Hold::NoFit,
        Hold::Noisy,
        Hold::PeerDisagreement,
    ]
    .iter()
    .map(|h| h.code())
    .collect();
    assert_eq!(codes, vec![0, 1, 2, 3, 4]);
    assert_eq!(Hold::default(), Hold::Warmup);
}

#[test]
fn pair_keys_are_ordered() {
    assert_eq!(pair_key("A", "B"), ("A|B".to_string(), false));
    assert_eq!(pair_key("B", "A"), ("A|B".to_string(), true));
}

#[test]
fn anchor_error_is_capacity_over_window() {
    // 40 Ah over 800 h is 50 mA.
    let hours = |h: u64| h * 3_600_000_000;
    assert_eq!(
        anchor_error(40_000_000, hours(800), 5_184_000),
        Some(50_000_000)
    );
    // Beyond the forgetting constant the window stops growing.
    assert_eq!(
        anchor_error(40_000_000, hours(2000), 3600 * 1000),
        Some(40_000_000)
    );
    assert_eq!(anchor_error(0, hours(800), 5_184_000), None);
    assert_eq!(anchor_error(40_000_000, 0, 5_184_000), None);
}

#[test]
fn every_frame_counts_for_the_capacity() {
    let mut cal = Calibrator::new(fast_opts());
    let mut at = 0;
    let mut frame = |remaining_uah: Option<i64>, capacity_uah: Option<u64>, dt_us: u64| {
        at += dt_us;
        cal.observe(
            "SN1",
            Sample {
                current_ma: 1000,
                balance_ma: None,
                remaining_uah,
                capacity_uah,
                now_us: at,
            },
        );
        cal.state().devices[0].state.capacity_uah
    };
    // The first frame has no predecessor, and still says what remained.
    assert_eq!(frame(Some(20_000_000), None, 1_000_000), 20_000_000);
    // Nor does time have to pass.
    assert_eq!(frame(Some(21_000_000), None, 0), 21_000_000);
    // A rated capacity counts without a remaining one.
    assert_eq!(frame(None, Some(40_000_000), 60_000_000), 40_000_000);
    // What is smaller, negative or absent lowers nothing.
    assert_eq!(frame(Some(19_000_000), Some(30_000_000), 60_000_000), 40_000_000);
    assert_eq!(frame(Some(-5), None, 60_000_000), 40_000_000);
    assert_eq!(frame(None, None, 60_000_000), 40_000_000);
    assert_eq!(frame(Some(41_000_000), None, 60_000_000), 41_000_000);
}

#[test]
fn offsets_stay_within_the_ceiling_and_apart() {
    let opts = Options {
        min_span_secs: 0,
        max_anchor_error_na: u64::MAX,
        max_offset_na: 100,
        ..Options::default()
    };
    let mut cal = Calibrator::new(opts);
    let sample = |at: u64| Sample {
        current_ma: 1000,
        balance_ma: None,
        remaining_uah: Some(20_000_000),
        capacity_uah: None,
        now_us: at,
    };
    let fit = |slope: i64, stderr: u64| Fit {
        slope,
        intercept: 0,
        r2: 0,
        stderr,
    };
    for at in [0, 60_000_000] {
        cal.observe("SN1", sample(at));
        cal.observe("SN2", sample(at));
    }
    // Nothing is applied before a decision first finds nothing to hold.
    assert_eq!(cal.recompute("SN1", None, &vec![]), 0);
    assert_eq!(cal.recompute("SN1", Some(fit(70, u64::MAX)), &vec![]), 0);
    assert_eq!(cal.recompute("SN1", Some(fit(5_000, 0)), &vec![]), 100);
    // The other device is left alone, and leaves this one alone.
    assert_eq!(cal.report("SN2", None, 0).unwrap().applied_na, 0);
    assert_eq!(cal.recompute("SN2", Some(fit(-5_000, 0)), &vec![]), -100);
    cal.observe("SN2", sample(120_000_000));
    assert_eq!(cal.report("SN1", None, 0).unwrap().applied_na, 100);
    // A hold keeps the last good correction.
    assert_eq!(cal.recompute("SN1", Some(fit(70, u64::MAX)), &vec![]), 100);
}

#[test]
fn a_long_lived_device_moves_its_origin() {
    let opts = Options {
        tau_secs: 60,
        ..fast_opts()
    };
    let mut bench = Bench::new(opts);
    let mut t = 0.0;
    let mut moved = false;
    for _ in 0..60 {
        t += 60.0;
        let (point, _) = bench.cal.observe(
            "SN1",
            Sample {
                current_ma: 1000,
                balance_ma: Some(-5),
                remaining_uah: Some(1),
                capacity_uah: None,
                now_us: (t * 1e6) as u64,
            },
        );
        if let Some(p) = point {
            if let Some(d) = p.shift_us {
                moved = true;
                assert_eq!(p.x_us - d, 60_000_000);
            }
        }
    }
    assert!(moved);
}

#[test]
fn a_noisy_fit_is_held() {
    let mut bench = Bench::new(Options {
        min_span_secs: 0,
        max_anchor_error_na: u64::MAX,
        ..Options::default()
    });
    for t in [0.0, 60.0] {
        bench.observe("SN1", 1.0, None, Some(20.0), t);
    }
    let fit = Fit {
        slope: 7,
        intercept: 0,
        r2: 0,
        stderr: 50_000_001,
    };
    assert_eq!(bench.cal.recompute("SN1", Some(fit), &vec![]), 0);
    assert_eq!(bench.report("SN1").unwrap().hold, Hold::Noisy);
    let good = Fit {
        stderr: 50_000_000,
        ..fit
    };
    assert_eq!(bench.cal.recompute("SN1", Some(good), &vec![]), 7);
    assert_eq!(bench.report("SN1").unwrap().hold, Hold::Clear);
}

#[test]
fn the_worst_peer_is_reported() {
    let fit = |intercept: i64| Fit {
        slope: 1_000_000_000,
        intercept,
        r2: 900_000_000,
        stderr: 0,
    };
    let peer = |sn: &str, intercept: i64| PeerFit {
        sn: sn.to_string(),
        pair: Some(PairFit {
            weight: 500_000,
            fit: Some(fit(intercept)),
        }),
        estimate_na: Some(0),
    };
    let opts = Options::default();
    let mut peers = vec![
        peer("A", 10),
        peer("M", 99),
        peer("X", 30),
        peer("Y", -30),
        peer("Z", 20),
    ];
    // The device itself is no peer of its own, and of two equals the first is
    // taken. The sign follows from which of the two serials is smaller.
    let worst = peer_report(&opts, "M", Some(0), &peers).expect("a peer");
    assert_eq!(worst.peer_sn, "X");
    assert_eq!(worst.relative_na, -30);
    assert_eq!(worst.disagreement_na, 30);
    let worst = peer_report(&opts, "M", Some(-100), &peers).expect("a peer");
    assert_eq!(worst.peer_sn, "Y");
    assert_eq!(worst.disagreement_na, 130);
    assert!(peer_report(&opts, "M", None, &peers).is_none());
    // Peers that are not parallel, badly fitted or barely sampled are left out.
    peers.truncate(3);
    peers[0].estimate_na = None;
    peers[2].pair = Some(PairFit {
        weight: 499_999,
        fit: Some(fit(30)),
    });
    assert!(peer_report(&opts, "M", Some(0), &peers).is_none());
    peers[2].pair = Some(PairFit {
        weight: 500_000,
        fit: Some(Fit {
            slope: 1_200_000_001,
            ..fit(30)
        }),
    });
    assert!(peer_report(&opts, "M", Some(0), &peers).is_none());
    peers[2].pair = Some(PairFit {
        weight: 500_000,
        fit: Some(Fit {
            r2: 799_999_999,
            ..fit(30)
        }),
    });
    assert!(peer_report(&opts, "M", Some(0), &peers).is_none());
}
