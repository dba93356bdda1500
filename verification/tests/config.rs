//! Configuration knobs and serial validation.

use daly_bms_exporter::config::{is_plausible_serial, Config, ConfigWarning};
use daly_bms_exporter::decode::PlausibilityLimits;
use daly_bms_exporter::metrics::MetricsOptions;

/// Thousandths as a fraction.
fn milli(v: Option<i64>) -> f64 {
    v.map_or(f64::NAN, |v| v as f64 / 1000.0)
}

#[test]
fn plausibility_defaults_bracket_production_values() {
    let c = Config::default();
    // Observed production: |I| up to ~33 A, pack 22..29 V (LTO 24S).
    assert!(33.0 < milli(c.max_plausible_current_ma));
    assert!(milli(c.min_plausible_pack_mv) < 22.0 && 29.0 < milli(c.max_plausible_pack_mv));
    // ...while the extremes of the wire encoding are rejected.
    assert!(3553.5 > milli(c.max_plausible_current_ma));
    assert!(6553.5 > milli(c.max_plausible_pack_mv));
}

#[test]
fn out_of_range_knobs_fall_back_to_defaults() {
    let d = Config::default();
    let mut cfg = Config {
        coulomb_state_min_interval_secs: 0,
        min_plausible_pack_mv: Some(40_000),
        max_plausible_pack_mv: Some(10_000),
        max_plausible_current_ma: Some(-5_000),
        max_frame_mah: Some(0),
        ..Config::default()
    };
    cfg.reset_out_of_range_to_defaults();
    // 0 would remove the only rate limit on fsyncs from unauthenticated input.
    assert_eq!(
        cfg.coulomb_state_min_interval_secs,
        d.coulomb_state_min_interval_secs
    );
    // An inverted window would reject every frame and stop all accounting.
    assert_eq!(cfg.min_plausible_pack_mv, d.min_plausible_pack_mv);
    assert_eq!(cfg.max_plausible_pack_mv, d.max_plausible_pack_mv);
    assert_eq!(cfg.max_plausible_current_ma, d.max_plausible_current_ma);
    assert_eq!(cfg.max_frame_mah, d.max_frame_mah);
}

#[test]
fn every_warning_is_given_in_order() {
    let mut cfg = Config {
        coulomb_state_min_interval_secs: 86_400,
        max_plausible_current_ma: None,
        min_plausible_pack_mv: None,
        max_frame_mah: None,
        max_frame_mwh: Some(-1),
        ..Config::default()
    };
    assert_eq!(
        cfg.reset_out_of_range_to_defaults(),
        vec![
            ConfigWarning::WriteInterval { secs: 86_400 },
            ConfigWarning::PlausibleCurrent { value: None },
            ConfigWarning::PackWindow {
                min: None,
                max: Some(34_000)
            },
            ConfigWarning::FrameAmpHours { value: None },
            // The energy ceiling is measured before it is replaced.
            ConfigWarning::LowFrameWattHours { ceiling: Some(-1) },
            ConfigWarning::FrameWattHours { value: Some(-1) },
        ]
    );
    assert_eq!(cfg.coulomb_state_min_interval_secs, 5);
    assert_eq!(cfg.max_frame_mwh, Some(900_000));
    // Once in range, nothing is left to say or to change.
    assert_eq!(cfg.reset_out_of_range_to_defaults(), vec![]);
}

#[test]
fn low_ceilings_are_reported_but_kept() {
    let mut cfg = Config {
        max_frame_mah: Some(24_999),
        max_frame_mwh: Some(849_999),
        ..Config::default()
    };
    assert_eq!(
        cfg.reset_out_of_range_to_defaults(),
        vec![
            ConfigWarning::LowFrameAmpHours {
                ceiling: Some(24_999)
            },
            ConfigWarning::LowFrameWattHours {
                ceiling: Some(849_999)
            },
        ]
    );
    assert_eq!(cfg.max_frame_mah, Some(24_999));
    assert_eq!(cfg.max_frame_mwh, Some(849_999));
    // 100 A over a 900 s gap is exactly 25 Ah, and 850 Wh at 34 V.
    let mut exact = Config {
        max_frame_mah: Some(25_000),
        max_frame_mwh: Some(850_000),
        ..Config::default()
    };
    assert_eq!(exact.reset_out_of_range_to_defaults(), vec![]);
}

#[test]
fn extreme_knobs_do_not_overflow() {
    let mut cfg = Config {
        max_plausible_current_ma: Some(i64::MAX),
        max_plausible_pack_mv: Some(i64::MAX),
        coulomb_max_gap_secs: u64::MAX,
        max_frame_mah: Some(i64::MAX),
        max_frame_mwh: Some(i64::MAX),
        ..Config::default()
    };
    assert_eq!(
        cfg.reset_out_of_range_to_defaults(),
        vec![
            ConfigWarning::LowFrameAmpHours {
                ceiling: Some(i64::MAX)
            },
            ConfigWarning::LowFrameWattHours {
                ceiling: Some(i64::MAX)
            },
        ]
    );
    let mut below_zero = Config {
        max_plausible_current_ma: Some(i64::MAX),
        min_plausible_pack_mv: Some(i64::MIN),
        max_plausible_pack_mv: Some(-1),
        coulomb_max_gap_secs: u64::MAX,
        max_frame_mah: Some(i64::MAX),
        ..Config::default()
    };
    assert_eq!(
        below_zero.reset_out_of_range_to_defaults(),
        vec![ConfigWarning::LowFrameAmpHours {
            ceiling: Some(i64::MAX)
        }]
    );
}

#[test]
fn metrics_defaults_match_config_defaults() {
    let from_config: MetricsOptions = (&Config::default()).into();
    let standalone = MetricsOptions::default();
    assert_eq!(
        from_config.coulomb_max_gap_secs,
        standalone.coulomb_max_gap_secs
    );
    assert_eq!(from_config.max_devices, standalone.max_devices);
    assert_eq!(
        from_config.state_min_interval_secs,
        standalone.state_min_interval_secs
    );
    assert_eq!(from_config.max_frame_mah, standalone.max_frame_mah);
    assert_eq!(from_config.max_frame_mwh, standalone.max_frame_mwh);
    assert_eq!(from_config, standalone);
}

#[test]
fn plausibility_limits_come_from_config() {
    let cfg = Config {
        max_plausible_current_ma: Some(42_000),
        min_plausible_pack_mv: Some(20_000),
        max_plausible_pack_mv: Some(30_000),
        ..Config::default()
    };
    let limits: PlausibilityLimits = (&cfg).into();
    assert_eq!(
        limits,
        PlausibilityLimits {
            max_current_ma: Some(42_000),
            pack_mv: (Some(20_000), Some(30_000)),
        }
    );
}

#[test]
fn options_follow_the_config() {
    let cfg = Config {
        coulomb_state_path: Some("/var/lib/coulombs.json".to_string()),
        coulomb_max_gap_secs: 60,
        max_devices: 3,
        coulomb_state_min_interval_secs: 7,
        max_frame_mah: Some(-1),
        max_frame_mwh: None,
        ..Config::default()
    };
    let opts: MetricsOptions = (&cfg).into();
    assert!(opts.persist_state);
    assert_eq!(opts.coulomb_max_gap_secs, 60);
    assert_eq!(opts.max_devices, 3);
    assert_eq!(opts.state_min_interval_secs, 7);
    assert_eq!(opts.max_frame_mah, Some(0));
    assert_eq!(opts.max_frame_mwh, None);
}

#[test]
fn defaults_are_the_documented_ones() {
    let c = Config::default();
    assert_eq!(c.listen, "0.0.0.0:8080");
    assert_eq!(c.metrics_path, "/metrics");
    assert_eq!(c.log_level, "info");
    assert_eq!(c.max_body_bytes, 64 * 1024);
    assert_eq!(c.request_timeout_secs, 10);
    assert!(c.allowed_serials.is_none());
    assert!(c.coulomb_state_path.is_none());
}

#[test]
fn serial_validation() {
    let cfg = Config::default();
    assert!(cfg.accept_serial("224KE220900366"));
    assert!(!cfg.accept_serial("")); // empty
    assert!(!cfg.accept_serial("bad serial!")); // non-alnum
    assert!(!cfg.accept_serial(&"x".repeat(65))); // too long

    let cfg = Config {
        allowed_serials: Some(vec!["AAA".to_string()]),
        ..Config::default()
    };
    assert!(cfg.accept_serial("AAA"));
    assert!(!cfg.accept_serial("BBB"));
}

#[test]
fn serial_edges() {
    assert!(is_plausible_serial(&"x".repeat(64)));
    assert!(!is_plausible_serial("é"));
    assert!(!is_plausible_serial("A_B"));
    // An empty allowlist admits any plausible serial.
    let cfg = Config {
        allowed_serials: Some(vec![]),
        ..Config::default()
    };
    assert!(cfg.accept_serial("BBB"));
    // An allowlist does not admit an implausible serial.
    let cfg = Config {
        allowed_serials: Some(vec!["ONLY_THIS".to_string()]),
        ..Config::default()
    };
    assert!(!cfg.accept_serial("ONLY_THIS"));
}
