//! Runtime configuration.

use vstd::prelude::*;
use vstd::std_specs::convert::FromSpecImpl;
use vstd::string::*;

use crate::decode::PlausibilityLimits;
use crate::metrics::MetricsOptions;
use crate::text::same_text;

verus! {

/// Runtime configuration. All fields have defaults.
///
/// The electrical knobs are in thousandths (mA, mV, mAh, mWh); one that is
/// `None` stands for "not a number", which compares as neither above nor below
/// anything.
#[derive(Debug)]
pub struct Config {
    /// Address:port the HTTP server binds to (device ingest + metrics).
    pub listen: String,
    /// Path the metrics are served on.
    pub metrics_path: String,
    /// Default log filter.
    pub log_level: String,
    /// If set, only these serials are accepted (guards metric cardinality). An
    /// empty/`None` value accepts any plausible serial.
    pub allowed_serials: Option<Vec<String>>,
    /// Maximum accepted request body size in bytes.
    pub max_body_bytes: usize,
    /// Per-request timeout in seconds.
    pub request_timeout_secs: u64,
    /// Cap the integration interval between frames to this many seconds, so a
    /// data gap (device offline) doesn't integrate a stale current.
    pub coulomb_max_gap_secs: u64,
    /// Hard cap on the number of distinct devices (serials) tracked, bounding
    /// metric cardinality / memory against untrusted serials. `0` = unlimited.
    pub max_devices: usize,
    /// If set, the charge/energy counters are persisted to this file and
    /// restored on startup. `None` disables persistence.
    pub coulomb_state_path: Option<String>,
    /// Largest plausible magnitude of the pack current (mA). The controller has
    /// been seen emitting a single 436.6 A register inside an otherwise sane
    /// frame, and one such frame would dump kilowatt-hours into a monotonic
    /// counter, irreversibly.
    pub max_plausible_current_ma: Option<i64>,
    /// Plausible pack-voltage window (mV) for the same gate.
    pub min_plausible_pack_mv: Option<i64>,
    pub max_plausible_pack_mv: Option<i64>,
    /// Second line of defence: cap what a *single* frame may add to the
    /// counters (mAh and mWh), in case the integration itself misbehaves.
    pub max_frame_mah: Option<i64>,
    pub max_frame_mwh: Option<i64>,
    /// Minimum interval between durable writes of the state file (seconds).
    pub coulomb_state_min_interval_secs: u64,
}

impl Config {
    /// What is used where nothing is configured.
    pub open spec fn is_standard(self) -> bool {
        &&& self.listen@ == "0.0.0.0:8080"@
        &&& self.metrics_path@ == "/metrics"@
        &&& self.log_level@ == "info"@
        &&& self.allowed_serials is None
        &&& self.max_body_bytes == 65536
        &&& self.request_timeout_secs == 10
        &&& self.coulomb_max_gap_secs == 900
        &&& self.max_devices == 64
        &&& self.coulomb_state_path is None
        &&& self.max_plausible_current_ma == Some(100_000i64)
        &&& self.min_plausible_pack_mv == Some(18_000i64)
        &&& self.max_plausible_pack_mv == Some(34_000i64)
        &&& self.max_frame_mah == Some(25_000i64)
        &&& self.max_frame_mwh == Some(900_000i64)
        &&& self.coulomb_state_min_interval_secs == 5
    }
}

impl Default for Config {
    fn default() -> (r: Self)
        ensures
            r.is_standard(),
    {
        Config {
            listen: "0.0.0.0:8080".to_owned(),
            metrics_path: "/metrics".to_owned(),
            log_level: "info".to_owned(),
            allowed_serials: None,
            max_body_bytes: 65536,
            request_timeout_secs: 10,
            coulomb_max_gap_secs: 900,
            max_devices: 64,
            coulomb_state_path: None,
            max_plausible_current_ma: Some(100_000),
            min_plausible_pack_mv: Some(18_000),
            max_plausible_pack_mv: Some(34_000),
            max_frame_mah: Some(25_000),
            max_frame_mwh: Some(900_000),
            coulomb_state_min_interval_secs: 5,
        }
    }
}

// --- Validation ---
/// What is worth a warning when the configuration is checked.
#[derive(Debug, Clone, Copy, PartialEq, Eq, Structural)]
pub enum ConfigWarning {
    /// The write interval lies outside 1..=3600 s and was replaced.
    WriteInterval { secs: u64 },
    /// The current bound is not a positive number and was replaced.
    PlausibleCurrent { value: Option<i64> },
    /// The voltage window is not an ordered pair and was replaced.
    PackWindow { min: Option<i64>, max: Option<i64> },
    /// The charge ceiling is not a positive number and was replaced.
    FrameAmpHours { value: Option<i64> },
    /// The charge ceiling is below what the limits and the gap cap allow: long
    /// comms gaps will be under-counted.
    LowFrameAmpHours { ceiling: Option<i64> },
    /// The energy ceiling is below what the limits and the gap cap allow.
    LowFrameWattHours { ceiling: Option<i64> },
    /// The energy ceiling is not a positive number and was replaced.
    FrameWattHours { value: Option<i64> },
}

/// Whether a knob is a positive number.
pub open spec fn positive(v: Option<i64>) -> bool {
    v matches Some(n) && n > 0
}

/// Whether a voltage window is an ordered pair of numbers.
pub open spec fn ordered(min: Option<i64>, max: Option<i64>) -> bool {
    match (min, max) {
        (Some(lo), Some(hi)) => lo < hi,
        _ => false,
    }
}

/// `v` if `keep`, else the default.
pub open spec fn or_default<T>(keep: bool, v: T, default: T) -> T {
    if keep {
        v
    } else {
        default
    }
}

/// Whether the charge ceiling (mAh) cuts what the highest plausible current
/// carries in a whole gap.
pub open spec fn low_amp_hours(ceiling: Option<i64>, current_ma: int, gap_secs: int) -> bool {
    ceiling matches Some(c) && c * 3600 < current_ma * gap_secs
}

/// Whether the energy ceiling (mWh) cuts what the highest plausible current
/// carries in a whole gap at the highest plausible voltage.
pub open spec fn low_watt_hours(
    ceiling: Option<i64>,
    current_ma: int,
    gap_secs: int,
    pack_mv: int,
) -> bool {
    ceiling matches Some(c) && c * 3_600_000 < current_ma * gap_secs * pack_mv
}

/// A warning if it applies.
pub open spec fn warning(applies: bool, w: ConfigWarning) -> Seq<ConfigWarning> {
    if applies {
        seq![w]
    } else {
        Seq::empty()
    }
}

impl Config {
    /// The configuration with every out-of-range value replaced by its default.
    pub open spec fn in_range(self) -> Config {
        let window = ordered(self.min_plausible_pack_mv, self.max_plausible_pack_mv);
        Config {
            coulomb_state_min_interval_secs: or_default(
                1 <= self.coulomb_state_min_interval_secs <= 3600,
                self.coulomb_state_min_interval_secs,
                5u64,
            ),
            max_plausible_current_ma: or_default(
                positive(self.max_plausible_current_ma),
                self.max_plausible_current_ma,
                Some(100_000i64),
            ),
            min_plausible_pack_mv: or_default(window, self.min_plausible_pack_mv, Some(18_000i64)),
            max_plausible_pack_mv: or_default(window, self.max_plausible_pack_mv, Some(34_000i64)),
            max_frame_mah: or_default(
                positive(self.max_frame_mah),
                self.max_frame_mah,
                Some(25_000i64),
            ),
            max_frame_mwh: or_default(
                positive(self.max_frame_mwh),
                self.max_frame_mwh,
                Some(900_000i64),
            ),
            ..self
        }
    }

    /// The warnings that replacing out-of-range values gives, in order. The
    /// ceilings are measured against the values in range; the energy ceiling is
    /// measured before it is replaced itself.
    pub open spec fn warnings(self) -> Seq<ConfigWarning> {
        let now = self.in_range();
        let current = now.max_plausible_current_ma->Some_0 as int;
        let gap = self.coulomb_max_gap_secs as int;
        let volts = now.max_plausible_pack_mv->Some_0 as int;
        warning(
            !(1 <= self.coulomb_state_min_interval_secs <= 3600),
            ConfigWarning::WriteInterval { secs: self.coulomb_state_min_interval_secs },
        ) + warning(
            !positive(self.max_plausible_current_ma),
            ConfigWarning::PlausibleCurrent { value: self.max_plausible_current_ma },
        ) + warning(
            !ordered(self.min_plausible_pack_mv, self.max_plausible_pack_mv),
            ConfigWarning::PackWindow {
                min: self.min_plausible_pack_mv,
                max: self.max_plausible_pack_mv,
            },
        ) + warning(
            !positive(self.max_frame_mah),
            ConfigWarning::FrameAmpHours { value: self.max_frame_mah },
        ) + warning(
            low_amp_hours(now.max_frame_mah, current, gap),
            ConfigWarning::LowFrameAmpHours { ceiling: now.max_frame_mah },
        ) + warning(
            low_watt_hours(self.max_frame_mwh, current, gap, volts),
            ConfigWarning::LowFrameWattHours { ceiling: self.max_frame_mwh },
        ) + warning(
            !positive(self.max_frame_mwh),
            ConfigWarning::FrameWattHours { value: self.max_frame_mwh },
        )
    }
}

fn is_positive(v: Option<i64>) -> (r: bool)
    ensures
        r == positive(v),
{
    match v {
        Some(n) => n > 0,
        None => false,
    }
}

fn is_ordered(min: Option<i64>, max: Option<i64>) -> (r: bool)
    ensures
        r == ordered(min, max),
{
    match (min, max) {
        (Some(lo), Some(hi)) => lo < hi,
        _ => false,
    }
}

fn warn(out: &mut Vec<ConfigWarning>, applies: bool, w: ConfigWarning)
    ensures
        final(out)@ == old(out)@ + warning(applies, w),
{
    if applies {
        out.push(w);
    }
    proof {
        assert(out@ =~= old(out)@ + warning(applies, w));
    }
}

/// What the highest plausible current carries in a whole gap (mA·s).
fn reachable(current_ma: i64, gap_secs: u64) -> (r: i128)
    requires
        current_ma > 0,
    ensures
        r == current_ma * gap_secs,
        r >= 0,
{
    proof {
        assert(0 <= current_ma * gap_secs <= 0x7FFF_FFFF_FFFF_FFFF * 0xFFFF_FFFF_FFFF_FFFF)
            by (nonlinear_arith)
            requires
                0 < current_ma <= 0x7FFF_FFFF_FFFF_FFFF,
                0 <= gap_secs <= 0xFFFF_FFFF_FFFF_FFFF,
        ;
    }
    current_ma as i128 * gap_secs as i128
}

fn is_low_amp_hours(ceiling: Option<i64>, current_ma: i64, gap_secs: u64) -> (r: bool)
    requires
        current_ma > 0,
    ensures
        r == low_amp_hours(ceiling, current_ma as int, gap_secs as int),
{
    match ceiling {
        Some(c) => (c as i128 * 3600) < reachable(current_ma, gap_secs),
        None => false,
    }
}

fn is_low_watt_hours(ceiling: Option<i64>, current_ma: i64, gap_secs: u64, pack_mv: i64) -> (r: bool)
    requires
        current_ma > 0,
    ensures
        r == low_watt_hours(ceiling, current_ma as int, gap_secs as int, pack_mv as int),
{
    match ceiling {
        Some(c) => {
            let bound: i128 = c as i128 * 3_600_000;
            let charge: i128 = reachable(current_ma, gap_secs);
            proof {
                assert(charge * pack_mv == current_ma * gap_secs * pack_mv) by (nonlinear_arith)
                    requires
                        charge == current_ma * gap_secs,
                ;
            }
            match charge.checked_mul(pack_mv as i128) {
                Some(energy) => bound < energy,
                None => {
                    // Beyond the range of the product there is only its sign.
                    proof {
                        let q = charge as int;
                        let v = pack_mv as int;
                        assert(v >= 0 ==> q * v >= 0) by (nonlinear_arith)
                            requires
                                q >= 0,
                        ;
                        assert(v == 0 ==> q * v == 0) by (nonlinear_arith);
                        assert(v < 0 ==> q * v <= 0) by (nonlinear_arith)
                            requires
                                q >= 0,
                        ;
                    }
                    pack_mv > 0
                },
            }
        },
        None => false,
    }
}

impl Config {
    /// Replace out-of-range values with their defaults; the warnings say about
    /// each what was wrong.
    ///
    /// These knobs are not merely cosmetic: `0` for the write interval removes
    /// the only rate limit on fsyncs triggered by unauthenticated input, and an
    /// inverted voltage window would reject every frame and silently switch off
    /// energy accounting altogether. Rejecting the configuration outright would
    /// be worse — the exporter would refuse to start over a typo — so substitute
    /// and say so.
    pub fn reset_out_of_range_to_defaults(&mut self) -> (r: Vec<ConfigWarning>)
        ensures
            *final(self) == old(self).in_range(),
            r@ == old(self).warnings(),
    {
        let mut out: Vec<ConfigWarning> = Vec::new();
        let interval: u64 = self.coulomb_state_min_interval_secs;
        let bad_interval = interval < 1 || interval > 3600;
        warn(&mut out, bad_interval, ConfigWarning::WriteInterval { secs: interval });
        if bad_interval {
            self.coulomb_state_min_interval_secs = 5;
        }
        let current: Option<i64> = self.max_plausible_current_ma;
        let bad_current = !is_positive(current);
        warn(&mut out, bad_current, ConfigWarning::PlausibleCurrent { value: current });
        if bad_current {
            self.max_plausible_current_ma = Some(100_000);
        }
        let min: Option<i64> = self.min_plausible_pack_mv;
        let max: Option<i64> = self.max_plausible_pack_mv;
        let bad_window = !is_ordered(min, max);
        warn(&mut out, bad_window, ConfigWarning::PackWindow { min, max });
        if bad_window {
            self.min_plausible_pack_mv = Some(18_000);
            self.max_plausible_pack_mv = Some(34_000);
        }
        let mah: Option<i64> = self.max_frame_mah;
        let bad_mah = !is_positive(mah);
        warn(&mut out, bad_mah, ConfigWarning::FrameAmpHours { value: mah });
        if bad_mah {
            self.max_frame_mah = Some(25_000);
        }
        let gap: u64 = self.coulomb_max_gap_secs;
        let ceiling: Option<i64> = self.max_frame_mah;
        let mwh: Option<i64> = self.max_frame_mwh;
        if let (Some(highest), Some(volts)) = (
            self.max_plausible_current_ma,
            self.max_plausible_pack_mv,
        ) {
            warn(
                &mut out,
                is_low_amp_hours(ceiling, highest, gap),
                ConfigWarning::LowFrameAmpHours { ceiling },
            );
            warn(
                &mut out,
                is_low_watt_hours(mwh, highest, gap, volts),
                ConfigWarning::LowFrameWattHours { ceiling: mwh },
            );
        }
        let bad_mwh = !is_positive(mwh);
        warn(&mut out, bad_mwh, ConfigWarning::FrameWattHours { value: mwh });
        if bad_mwh {
            self.max_frame_mwh = Some(900_000);
        }
        out
    }
}

// --- Serials ---
/// An ASCII letter or digit.
pub open spec fn alphanumeric(c: char) -> bool {
    '0' <= c <= '9' || 'A' <= c <= 'Z' || 'a' <= c <= 'z'
}

/// A serial must be a short ASCII-alphanumeric token.
pub open spec fn plausible_serial(sn: Seq<char>) -> bool {
    &&& 1 <= sn.len() <= 64
    &&& forall|i: int| 0 <= i < sn.len() ==> alphanumeric(#[trigger] sn[i])
}

/// A serial must be a short ASCII-alphanumeric token. This is the first line of
/// defence against an untrusted serial exploding label cardinality.
pub fn is_plausible_serial(sn: &str) -> (r: bool)
    ensures
        r == plausible_serial(sn@),
{
    let n: usize = sn.unicode_len();
    if n == 0 || n > 64 {
        return false;
    }
    let mut i: usize = 0;
    while i < n
        invariant
            i <= n,
            n == sn@.len(),
            forall|k: int| 0 <= k < i ==> alphanumeric(#[trigger] sn@[k]),
        decreases n - i,
    {
        let c: char = sn.get_char(i);
        let fine = ('0' <= c && c <= '9') || ('A' <= c && c <= 'Z') || ('a' <= c && c <= 'z');
        if !fine {
            proof {
                assert(!alphanumeric(sn@[i as int]));
            }
            return false;
        }
        i += 1;
    }
    true
}

/// Whether a list holds this serial.
pub open spec fn lists(list: Seq<String>, sn: Seq<char>) -> bool {
    exists|i: int| 0 <= i < list.len() && (#[trigger] list[i])@ == sn
}

impl Config {
    /// Whether a serial is accepted: it is plausible and, where a list of
    /// serials is configured that is not empty, stands on it.
    pub open spec fn accepts(self, sn: Seq<char>) -> bool {
        plausible_serial(sn) && match self.allowed_serials {
            Some(list) => list@.len() == 0 || lists(list@, sn),
            None => true,
        }
    }

    /// Whether a device-supplied serial should be accepted as a metric label.
    /// Rejects implausible serials and, when an allowlist is configured,
    /// anything outside it.
    pub fn accept_serial(&self, sn: &str) -> (r: bool)
        ensures
            r == self.accepts(sn@),
    {
        if !is_plausible_serial(sn) {
            return false;
        }
        match &self.allowed_serials {
            None => true,
            Some(list) => {
                if list.len() == 0 {
                    return true;
                }
                let mut i: usize = 0;
                while i < list.len()
                    invariant
                        i <= list@.len(),
                        list@.len() > 0,
                        self.allowed_serials == Some(*list),
                        plausible_serial(sn@),
                        forall|k: int| 0 <= k < i ==> (#[trigger] list@[k])@ != sn@,
                    decreases list@.len() - i,
                {
                    if same_text(list[i].as_str(), sn) {
                        proof {
                            assert(list@[i as int]@ == sn@);
                        }
                        return true;
                    }
                    i += 1;
                }
                false
            },
        }
    }
}

// --- Derived knobs ---
/// A ceiling as a natural number; one below zero, which validation does not let
/// pass, admits nothing.
pub open spec fn as_ceiling(v: Option<i64>) -> Option<u64> {
    match v {
        Some(n) => Some(
            if n < 0 {
                0
            } else {
                n as u64
            },
        ),
        None => None,
    }
}

fn to_ceiling(v: Option<i64>) -> (r: Option<u64>)
    ensures
        r == as_ceiling(v),
{
    match v {
        Some(n) => Some(
            if n < 0 {
                0
            } else {
                n as u64
            },
        ),
        None => None,
    }
}

impl Config {
    /// The thresholds of the plausibility gate.
    pub open spec fn limits(self) -> PlausibilityLimits {
        PlausibilityLimits {
            max_current_ma: self.max_plausible_current_ma,
            pack_mv: (self.min_plausible_pack_mv, self.max_plausible_pack_mv),
        }
    }

    /// The knobs of the metrics.
    pub open spec fn metrics_options(self) -> MetricsOptions {
        MetricsOptions {
            coulomb_max_gap_secs: self.coulomb_max_gap_secs,
            max_devices: self.max_devices,
            persist_state: self.coulomb_state_path is Some,
            state_min_interval_secs: self.coulomb_state_min_interval_secs,
            plausibility: self.limits(),
            max_frame_mah: as_ceiling(self.max_frame_mah),
            max_frame_mwh: as_ceiling(self.max_frame_mwh),
        }
    }
}

impl From<&Config> for PlausibilityLimits {
    fn from(c: &Config) -> (r: Self) {
        PlausibilityLimits {
            max_current_ma: c.max_plausible_current_ma,
            pack_mv: (c.min_plausible_pack_mv, c.max_plausible_pack_mv),
        }
    }
}

impl FromSpecImpl<&Config> for PlausibilityLimits {
    open spec fn obeys_from_spec() -> bool {
        true
    }

    open spec fn from_spec(c: &Config) -> Self {
        c.limits()
    }
}

impl From<&Config> for MetricsOptions {
    fn from(c: &Config) -> (r: Self) {
        MetricsOptions {
            coulomb_max_gap_secs: c.coulomb_max_gap_secs,
            max_devices: c.max_devices,
            persist_state: c.coulomb_state_path.is_some(),
            state_min_interval_secs: c.coulomb_state_min_interval_secs,
            plausibility: PlausibilityLimits::from(c),
            max_frame_mah: to_ceiling(c.max_frame_mah),
            max_frame_mwh: to_ceiling(c.max_frame_mwh),
        }
    }
}

impl FromSpecImpl<&Config> for MetricsOptions {
    open spec fn obeys_from_spec() -> bool {
        true
    }

    open spec fn from_spec(c: &Config) -> Self {
        c.metrics_options()
    }
}

// --- What the checks guarantee ---
/// Once reset, every knob is in range, and resetting again changes nothing.
pub proof fn law_reset_puts_in_range(c: Config)
    ensures
        ({
            let now = c.in_range();
            &&& 1 <= now.coulomb_state_min_interval_secs <= 3600
            &&& positive(now.max_plausible_current_ma)
            &&& ordered(now.min_plausible_pack_mv, now.max_plausible_pack_mv)
            &&& positive(now.max_frame_mah)
            &&& positive(now.max_frame_mwh)
            &&& now.in_range() == now
        }),
{
}

/// A configuration without warnings is left as it is.
pub proof fn law_silent_reset_changes_nothing(c: Config)
    requires
        c.warnings() == Seq::<ConfigWarning>::empty(),
    ensures
        c.in_range() == c,
{
    let w = c.warnings();
    let bad_interval = !(1 <= c.coulomb_state_min_interval_secs <= 3600);
    if bad_interval {
        assert(w[0] is WriteInterval);
    } else if !positive(c.max_plausible_current_ma) {
        assert(w[0] is PlausibleCurrent);
    } else if !ordered(c.min_plausible_pack_mv, c.max_plausible_pack_mv) {
        assert(w[0] is PackWindow);
    } else if !positive(c.max_frame_mah) {
        assert(w[0] is FrameAmpHours);
    } else if !positive(c.max_frame_mwh) {
        assert(w.last() is FrameWattHours);
    }
}

/// The defaults are in range, give no warning, and agree with the defaults of
/// the metrics.
pub proof fn law_defaults_are_in_range(c: Config)
    requires
        c.is_standard(),
    ensures
        c.in_range() == c,
        c.warnings() == Seq::<ConfigWarning>::empty(),
        c.metrics_options() == MetricsOptions::standard(),
{
    assert(c.warnings() =~= Seq::<ConfigWarning>::empty());
}

/// An allowlist only ever narrows what is accepted, and an empty one does not.
pub proof fn law_allowlist_narrows(c: Config, sn: Seq<char>)
    ensures
        c.accepts(sn) ==> plausible_serial(sn),
        (c.allowed_serials matches Some(list) && list@.len() > 0 && !lists(list@, sn))
            ==> !c.accepts(sn),
        (c.allowed_serials is None || c.allowed_serials->Some_0@.len() == 0) ==> (c.accepts(sn)
            == plausible_serial(sn)),
{
}

} // verus!
