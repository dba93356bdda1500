//! Self-calibration of the pack current sensor.
//!
//! # The problem
//!
//! The BMS current register has a zero-point error that differs per unit.
//! Integrated around the clock, +150 mA is 3.6 Ah/day — on a 40 Ah pack that is
//! a phantom "charge in" of nearly a full cycle every eleven days.
//!
//! # The estimator
//!
//! Over any interval a pack obeys
//!
//! ```text
//! ∫I dt  =  ΔQ  +  ∫I_balance dt  +  offset·T  +  ε
//! ```
//!
//! where `Q` is the BMS-reported remaining capacity, `I_balance` the passive
//! balancer bleed and `ε` the unmodelled remainder. Rearranged, the running
//! quantity
//!
//! ```text
//! y(t) = ∫I dt − Q(t) − ∫I_balance dt
//! ```
//!
//! has slope `offset`. This module keeps the integrals and hands out the points
//! `(t, y)`; a forgetting line fit through them is kept by the caller, and what
//! it finds comes back as a [`Fit`]. Whether, and how far, that estimate is
//! applied is decided here.
//!
//! `Q` comes from the BMS's own coulomb counter, which suffers the very offset
//! being estimated. It cannot run away, though: it is clamped to the capacity of
//! the pack, so the error it can induce in the slope is at most capacity over
//! window, and shrinks as the window grows.
//!
//! # The peer check
//!
//! Packs wired in parallel carry near-identical current, so fitting one pack's
//! reading against another's gives a slope near one and an intercept that is the
//! difference of their zero errors. A peer that disagrees grossly freezes the
//! applied offset.
//!
//! Currents are in milliamperes, times in microseconds, capacities in
//! microampere-hours; integrals are in half milliampere-microseconds. Estimates
//! are in nanoamperes, ratios in billionths.

use vstd::prelude::*;
use vstd::string::*;
use vstd::utf8::*;

use crate::config::lists;
use crate::coulomb::{counted_time, elapsed};
use crate::text::{
    is_before, lemma_before_irreflexive, lemma_before_total, lemma_before_transitive,
    lemma_encoding_is_injective, same_text, text_before,
};
use crate::text_map::TextMap;

verus! {

/// Charge units in one microampere-hour.
pub const UNITS_PER_UAH: i128 = 7_200_000;

/// Nanoamperes that one microampere-hour amounts to over one microsecond.
pub const NA_US_PER_UAH: u128 = 3_600_000_000_000;

/// One, in billionths.
pub const BILLION: i128 = 1_000_000_000;

/// A fitted line together with the diagnostics needed to decide whether to
/// believe it.
#[derive(Debug, Clone, Copy, PartialEq, Eq, Structural)]
pub struct Fit {
    /// The offset estimate (nA) of a closure fit; the ratio (billionths) of a
    /// peer fit.
    pub slope: i64,
    /// The difference of the zero errors (nA) in a peer fit.
    pub intercept: i64,
    /// Coefficient of determination (billionths).
    pub r2: u64,
    /// Standard error of the slope (nA).
    pub stderr: u64,
}

/// Tunables for [`Calibrator`].
#[derive(Debug, Clone, Copy, PartialEq, Eq, Structural)]
pub struct Options {
    /// Forgetting time constant of the closure fit, in **integrated** seconds.
    pub tau_secs: u64,
    /// Integrated seconds that must have accumulated before any offset is
    /// applied.
    pub min_span_secs: u64,
    /// Refuse to apply an offset until the anchor bound, capacity over window,
    /// has fallen to this many nanoamperes. This is the test that matters: it
    /// means "do not correct until the estimate is provably good to within X",
    /// instead of guessing at a warmup period.
    pub max_anchor_error_na: u64,
    /// Hard clamp on the applied offset (nA).
    pub max_offset_na: u64,
    /// Refuse to apply a slope whose standard error exceeds this (nA).
    pub max_stderr_na: u64,
    /// Integration-interval cap (seconds), mirroring the coulomb counter's own.
    pub max_gap_secs: u64,
    /// Two devices' samples pair up for the peer fit when their timestamps are
    /// within this many seconds.
    pub peer_max_skew_secs: u64,
    /// Forgetting time constant of the peer fits, in wall-clock seconds.
    pub peer_tau_secs: u64,
    /// Effective sample count (thousandths) a peer fit needs before it is
    /// consulted.
    pub peer_min_weight: u64,
    /// Peer slope must lie within `1 ± this` (billionths) for the pair to count
    /// as parallel.
    pub peer_slope_tolerance: u64,
    /// Minimum R² (billionths) for a peer fit to be consulted.
    pub peer_min_r2: u64,
    /// Freeze the applied offset when the closure and peer estimates of the same
    /// pairwise difference disagree by more than this (nA).
    pub peer_max_disagreement_na: u64,
}

impl Options {
    /// The production values.
    pub open spec fn standard() -> Options {
        Options {
            tau_secs: 5_184_000,
            min_span_secs: 604_800,
            max_anchor_error_na: 50_000_000,
            max_offset_na: 500_000_000,
            max_stderr_na: 50_000_000,
            max_gap_secs: 900,
            peer_max_skew_secs: 120,
            peer_tau_secs: 604_800,
            peer_min_weight: 500_000,
            peer_slope_tolerance: 200_000_000,
            peer_min_r2: 800_000_000,
            peer_max_disagreement_na: 250_000_000,
        }
    }
}

impl Default for Options {
    fn default() -> (r: Self)
        ensures
            r == Options::standard(),
    {
        Options {
            tau_secs: 5_184_000,
            min_span_secs: 604_800,
            max_anchor_error_na: 50_000_000,
            max_offset_na: 500_000_000,
            max_stderr_na: 50_000_000,
            max_gap_secs: 900,
            peer_max_skew_secs: 120,
            peer_tau_secs: 604_800,
            peer_min_weight: 500_000,
            peer_slope_tolerance: 200_000_000,
            peer_min_r2: 800_000_000,
            peer_max_disagreement_na: 250_000_000,
        }
    }
}

/// One realtime frame's worth of input.
#[derive(Debug, Clone, Copy, PartialEq, Eq, Structural)]
pub struct Sample {
    /// Raw pack current (mA), as decoded — never pre-corrected.
    pub current_ma: i32,
    /// Balancer bleed current (mA), when the frame carries it.
    pub balance_ma: Option<i32>,
    /// BMS-reported remaining capacity (µAh), when the frame carries it.
    pub remaining_uah: Option<i64>,
    /// Rated pack capacity (µAh), when known — it bounds how far the remaining
    /// capacity can move and therefore how wrong the fitted slope can be. Absent,
    /// the largest remaining capacity ever seen stands in as a lower bound.
    pub capacity_uah: Option<u64>,
    /// Wall-clock arrival time, microseconds since the epoch.
    pub now_us: u64,
}

/// Why the estimate is not being applied.
#[derive(Debug, Clone, Copy, PartialEq, Eq, Structural)]
pub enum Hold {
    /// Applied and trusted.
    Clear,
    /// The window is still too short for the anchor bound to be tight enough.
    /// Also the default: a device with no estimator state yet is warming up, not
    /// calibrated.
    Warmup,
    /// No fit at all (too few samples, or no spread).
    NoFit,
    /// Slope standard error too large.
    Noisy,
    /// A peer pair disagrees too much.
    PeerDisagreement,
}

impl Default for Hold {
    fn default() -> (r: Self)
        ensures
            r is Warmup,
    {
        Hold::Warmup
    }
}

impl Hold {
    /// Stable numeric encoding for a gauge.
    pub fn code(self) -> (r: u8)
        ensures
            r == hold_code(self),
    {
        match self {
            Hold::Clear => 0,
            Hold::Warmup => 1,
            Hold::NoFit => 2,
            Hold::Noisy => 3,
            Hold::PeerDisagreement => 4,
        }
    }
}

/// No two holds share a code.
pub proof fn law_hold_codes_are_distinct(a: Hold, b: Hold)
    ensures
        hold_code(a) == hold_code(b) ==> a == b,
{
}

/// The code of a hold.
pub open spec fn hold_code(h: Hold) -> u8 {
    match h {
        Hold::Clear => 0,
        Hold::Warmup => 1,
        Hold::NoFit => 2,
        Hold::Noisy => 3,
        Hold::PeerDisagreement => 4,
    }
}

// --- The closure integral ---
/// Persisted per-device estimator state, apart from the fit itself.
#[derive(Debug, Clone, Copy, PartialEq, Eq, Structural)]
pub struct DeviceState {
    /// Integrated time of the last point, relative to the fit's current origin.
    pub x_us: u64,
    /// Total integrated time since this device was first seen.
    pub span_us: u64,
    /// Integral of the current.
    pub cum_net: i128,
    /// Integral of the bleed.
    pub cum_bal: i128,
    /// Offset currently being applied (nA); kept so a restart does not step the
    /// correction back to zero while the fit reloads.
    pub applied_na: i64,
    /// Largest capacity hint seen (µAh): the rated capacity where it is known,
    /// otherwise the high-water mark of the remaining capacity.
    pub capacity_uah: u64,
}

impl DeviceState {
    /// Nothing observed.
    pub open spec fn fresh() -> DeviceState {
        DeviceState {
            x_us: 0,
            span_us: 0,
            cum_net: 0,
            cum_bal: 0,
            applied_na: 0,
            capacity_uah: 0,
        }
    }
}

impl Default for DeviceState {
    fn default() -> (r: Self)
        ensures
            r == DeviceState::fresh(),
    {
        DeviceState {
            x_us: 0,
            span_us: 0,
            cum_net: 0,
            cum_bal: 0,
            applied_na: 0,
            capacity_uah: 0,
        }
    }
}

/// The previous frame, needed to integrate and to pair against peers.
#[derive(Debug, Clone, Copy, PartialEq, Eq, Structural)]
pub struct LastFrame {
    pub at_us: u64,
    pub current_ma: i32,
    pub balance_ma: Option<i32>,
}

/// A point for the closure fit: age the fit by `aged_us` of integrated time,
/// add `(x_us, y)`, then move the origin by `shift_us` if there is one.
#[derive(Debug, Clone, Copy, PartialEq, Eq, Structural)]
pub struct ClosurePoint {
    pub aged_us: u64,
    pub x_us: u64,
    pub y: i128,
    pub shift_us: Option<u64>,
}

/// A sum kept within range.
pub open spec fn capped(v: int) -> i128 {
    if v > i128::MAX {
        i128::MAX
    } else if v < i128::MIN {
        i128::MIN
    } else {
        v as i128
    }
}

/// A time kept within range.
pub open spec fn capped_time(v: int) -> u64 {
    if v > u64::MAX {
        u64::MAX
    } else {
        v as u64
    }
}

/// A bleed reading; a negative one is a decode artifact, not a reverse balancer.
pub open spec fn bleed(v: i32) -> int {
    if v < 0 {
        0
    } else {
        v as int
    }
}

/// The larger of two.
pub open spec fn larger(a: u64, b: u64) -> u64 {
    if a < b {
        b
    } else {
        a
    }
}

/// A capacity reading; one below zero says nothing.
pub open spec fn at_least_zero(v: i64) -> u64 {
    if v < 0 {
        0
    } else {
        v as u64
    }
}

/// A capacity, or none.
pub open spec fn or_zero(v: Option<u64>) -> u64 {
    match v {
        Some(n) => n,
        None => 0,
    }
}

/// How much time a frame adds: none on the first, and at most the gap cap.
pub open spec fn step_time(last: Option<LastFrame>, s: Sample, opts: Options) -> int {
    match last {
        Some(f) => counted_time(elapsed(f.at_us, s.now_us), opts.max_gap_secs),
        None => 0,
    }
}

/// The running integrals after a frame.
pub open spec fn advanced(
    dev: DeviceState,
    last: LastFrame,
    s: Sample,
    dt: int,
) -> DeviceState {
    DeviceState {
        cum_net: capped(dev.cum_net + (last.current_ma + s.current_ma) * dt),
        cum_bal: match (last.balance_ma, s.balance_ma) {
            (Some(lb), Some(b)) => capped(dev.cum_bal + (bleed(lb) + bleed(b)) * dt),
            _ => dev.cum_bal,
        },
        x_us: capped_time(dev.x_us + dt),
        span_us: capped_time(dev.span_us + dt),
        ..dev
    }
}

/// What a frame says of the capacity.
pub open spec fn capacity_hint(s: Sample) -> u64 {
    larger(
        or_zero(s.capacity_uah),
        match s.remaining_uah {
            Some(q) => at_least_zero(q),
            None => 0,
        },
    )
}

/// The device with what a frame says of the capacity.
pub open spec fn capacity_noted(dev: DeviceState, s: Sample) -> DeviceState {
    DeviceState { capacity_uah: larger(dev.capacity_uah, capacity_hint(s)), ..dev }
}

/// The running quantity whose slope is the offset.
pub open spec fn closure(dev: DeviceState, remaining_uah: i64) -> i128 {
    capped(capped(dev.cum_net - remaining_uah * UNITS_PER_UAH) - dev.cum_bal)
}

/// How far the origin moves: `x` is kept within a few window widths of it, so
/// that the sums of the fit stay well-conditioned on a long-lived device.
pub open spec fn origin_shift(x_us: u64, opts: Options) -> Option<u64> {
    if x_us > 50 * opts.tau_secs * 1_000_000 {
        Some((x_us - opts.tau_secs * 1_000_000) as u64)
    } else {
        None
    }
}

/// The point a frame adds to the closure fit: none without time passed or
/// without a remaining capacity.
pub open spec fn closure_point(
    dev: DeviceState,
    last: Option<LastFrame>,
    s: Sample,
    opts: Options,
) -> Option<ClosurePoint> {
    let dt = step_time(last, s, opts);
    match (last, s.remaining_uah) {
        (Some(f), Some(q)) => if dt > 0 {
            let now = advanced(dev, f, s, dt);
            Some(
                ClosurePoint {
                    aged_us: dt as u64,
                    x_us: now.x_us,
                    y: closure(now, q),
                    shift_us: origin_shift(now.x_us, opts),
                },
            )
        } else {
            None
        },
        _ => None,
    }
}

/// The device after a frame. Every frame counts for the capacity, the first one
/// included.
pub open spec fn device_stepped(
    dev: DeviceState,
    last: Option<LastFrame>,
    s: Sample,
    opts: Options,
) -> DeviceState {
    let known = capacity_noted(dev, s);
    let dt = step_time(last, s, opts);
    match last {
        Some(f) => if dt > 0 {
            let now = advanced(known, f, s, dt);
            match closure_point(dev, last, s, opts) {
                Some(p) => match p.shift_us {
                    Some(d) => DeviceState { x_us: (now.x_us - d) as u64, ..now },
                    None => now,
                },
                None => now,
            }
        } else {
            known
        },
        None => known,
    }
}

fn sum_capped(a: i128, b: i128) -> (r: i128)
    ensures
        r == capped(a + b),
{
    match a.checked_add(b) {
        Some(r) => r,
        None => if b > 0 {
            i128::MAX
        } else {
            i128::MIN
        },
    }
}

fn difference_capped(a: i128, b: i128) -> (r: i128)
    ensures
        r == capped(a - b),
{
    match a.checked_sub(b) {
        Some(r) => r,
        None => if b < 0 {
            i128::MAX
        } else {
            i128::MIN
        },
    }
}

fn bleed_of(v: i32) -> (r: i32)
    ensures
        r == bleed(v),
        r >= 0,
{
    if v < 0 {
        0
    } else {
        v
    }
}

fn larger_of(a: u64, b: u64) -> (r: u64)
    ensures
        r == larger(a, b),
{
    if a < b {
        b
    } else {
        a
    }
}

fn area(sum: i64, dt: u64) -> (r: i128)
    requires
        -0x1_0000_0000 <= sum <= 0x1_0000_0000,
    ensures
        r == sum * dt,
{
    proof {
        assert(-0x1_0000_0000 * 0xFFFF_FFFF_FFFF_FFFF <= sum * dt <= 0x1_0000_0000
            * 0xFFFF_FFFF_FFFF_FFFF) by (nonlinear_arith)
            requires
                -0x1_0000_0000 <= sum <= 0x1_0000_0000,
                0 <= dt <= 0xFFFF_FFFF_FFFF_FFFF,
        ;
    }
    sum as i128 * dt as i128
}

fn passed(last: u64, now: u64, max_gap_secs: u64) -> (r: u64)
    ensures
        r == counted_time(elapsed(last, now), max_gap_secs),
{
    let dt: u64 = if now > last {
        now - last
    } else {
        0
    };
    let gap: u128 = max_gap_secs as u128 * 1_000_000;
    if (dt as u128) < gap {
        dt
    } else {
        gap as u64
    }
}

/// Advance the running integrals of one device by one frame.
pub fn step_device(dev: DeviceState, last: Option<LastFrame>, s: Sample, opts: &Options) -> (r: (
    DeviceState,
    Option<ClosurePoint>,
))
    ensures
        r.0 == device_stepped(dev, last, s, *opts),
        r.1 == closure_point(dev, last, s, *opts),
{
    let hint: u64 = match s.capacity_uah {
        Some(c) => c,
        None => 0,
    };
    let seen: u64 = match s.remaining_uah {
        Some(q) => if q < 0 {
            0
        } else {
            q as u64
        },
        None => 0,
    };
    let mut now = dev;
    now.capacity_uah = larger_of(dev.capacity_uah, larger_of(hint, seen));
    let ghost known = now;
    let f = match last {
        Some(f) => f,
        None => {
            return (now, None);
        },
    };
    let dt: u64 = passed(f.at_us, s.now_us, opts.max_gap_secs);
    if dt == 0 {
        return (now, None);
    }
    let sum: i64 = f.current_ma as i64 + s.current_ma as i64;
    now.cum_net = sum_capped(dev.cum_net, area(sum, dt));
    if let (Some(lb), Some(b)) = (f.balance_ma, s.balance_ma) {
        let bled: i64 = bleed_of(lb) as i64 + bleed_of(b) as i64;
        now.cum_bal = sum_capped(dev.cum_bal, area(bled, dt));
    }
    now.x_us = dev.x_us.saturating_add(dt);
    now.span_us = dev.span_us.saturating_add(dt);
    let q: i64 = match s.remaining_uah {
        Some(q) => q,
        None => {
            proof {
                assert(now == advanced(known, f, s, dt as int));
            }
            return (now, None);
        },
    };
    proof {
        assert(now == advanced(known, f, s, dt as int));
    }
    let held: i128 = q as i128 * 7_200_000;
    let y: i128 = difference_capped(difference_capped(now.cum_net, held), now.cum_bal);
    let tau: u128 = opts.tau_secs as u128 * 1_000_000;
    let x_us: u64 = now.x_us;
    let mut shift_us: Option<u64> = None;
    if x_us as u128 > 50 * tau {
        let d: u64 = x_us - tau as u64;
        shift_us = Some(d);
        now.x_us = x_us - d;
    }
    (now, Some(ClosurePoint { aged_us: dt, x_us, y, shift_us }))
}

// --- The anchor bound ---
/// Worst-case error (nA, rounded up) the BMS's state of charge can still induce
/// in the fitted slope: capacity over window, where the window is the shorter of
/// the data collected so far and the forgetting constant. Nothing bounds it
/// while nothing is known about the capacity.
pub open spec fn anchor_bound(capacity_uah: u64, span_us: u64, tau_secs: u64) -> Option<int> {
    let window = if span_us < tau_secs * 1_000_000 {
        span_us as int
    } else {
        tau_secs * 1_000_000
    };
    if capacity_uah == 0 || window == 0 {
        None
    } else {
        Some((capacity_uah * NA_US_PER_UAH + window - 1) / window)
    }
}

/// Worst-case error (nA) of the estimate, or `None` if nothing bounds it.
pub fn anchor_error(capacity_uah: u64, span_us: u64, tau_secs: u64) -> (r: Option<u128>)
    ensures
        match (r, anchor_bound(capacity_uah, span_us, tau_secs)) {
            (Some(a), Some(b)) => a == b,
            (None, None) => true,
            _ => false,
        },
{
    let tau: u128 = tau_secs as u128 * 1_000_000;
    let window: u128 = if (span_us as u128) < tau {
        span_us as u128
    } else {
        tau
    };
    if capacity_uah == 0 || window == 0 {
        return None;
    }
    let charge: u128 = capacity_uah as u128 * 3_600_000_000_000;
    Some((charge + window - 1) / window)
}

/// Testing the bound is exact: rounding up to whole nanoamperes never
/// changes on which side of the limit the bound lies.
pub proof fn law_anchor_gate_is_exact(
    capacity_uah: u64,
    span_us: u64,
    tau_secs: u64,
    limit_na: u64,
)
    requires
        anchor_bound(capacity_uah, span_us, tau_secs) is Some,
    ensures
        ({
            let window = if span_us < tau_secs * 1_000_000 {
                span_us as int
            } else {
                tau_secs * 1_000_000
            };
            anchor_bound(capacity_uah, span_us, tau_secs)->Some_0 > limit_na <==> capacity_uah
                * NA_US_PER_UAH > limit_na * window
        }),
{
    let window = if span_us < tau_secs * 1_000_000 {
        span_us as int
    } else {
        tau_secs * 1_000_000
    };
    let charge = capacity_uah * NA_US_PER_UAH;
    let up = (charge + window - 1) / window;
    let m = limit_na as int;
    vstd::arithmetic::div_mod::lemma_fundamental_div_mod(charge + window - 1, window);
    let rem = (charge + window - 1) % window;
    assert(up > m <==> charge > m * window) by (nonlinear_arith)
        requires
            charge + window - 1 == window * up + rem,
            0 <= rem < window,
            window > 0,
    ;
}

// --- Pairs ---
/// The name of a pair, whichever way round it is given.
pub open spec fn pair_name(a: Seq<char>, b: Seq<char>) -> Seq<char> {
    if text_before(a, b) {
        a + "|"@ + b
    } else {
        b + "|"@ + a
    }
}

/// Key for a device pair, ordered so `(a,b)` and `(b,a)` give the same; the flag
/// tells whether they were swapped.
pub fn pair_key(a: &str, b: &str) -> (r: (String, bool))
    ensures
        r.0@ == pair_name(a@, b@),
        r.1 == !text_before(a@, b@),
{
    if is_before(a, b) {
        let mut key = a.to_owned();
        key.append("|");
        key.append(b);
        (key, false)
    } else {
        let mut key = b.to_owned();
        key.append("|");
        key.append(a);
        (key, true)
    }
}

/// A pair has one key, and exactly one of its two sides counts as swapped.
pub proof fn law_pair_key_is_symmetric(a: Seq<char>, b: Seq<char>)
    requires
        a != b,
    ensures
        pair_name(a, b) == pair_name(b, a),
        text_before(a, b) != text_before(b, a),
{
    let x = encode_utf8(a);
    let y = encode_utf8(b);
    lemma_before_total(x, y);
    if x == y {
        lemma_encoding_is_injective(a, b);
    }
    if text_before(a, b) && text_before(b, a) {
        lemma_before_transitive(x, y, x);
        lemma_before_irreflexive(x);
    }
}

/// What a pair fit found, and on how many effective samples (thousandths).
#[derive(Debug, Clone, Copy, PartialEq, Eq, Structural)]
pub struct PairFit {
    pub weight: u64,
    pub fit: Option<Fit>,
}

/// What the fits say of one other device: its own estimate, and the fit of the
/// pair it makes with the device at hand.
#[derive(Debug)]
pub struct PeerFit {
    pub sn: String,
    pub pair: Option<PairFit>,
    pub estimate_na: Option<i64>,
}

/// What the peer check concluded for one device: the worst-disagreeing pair.
#[derive(Debug)]
pub struct PeerReport {
    pub peer_sn: String,
    /// `offset(this) − offset(peer)` (nA) as measured by the peer regression.
    pub relative_na: i128,
    /// Ratio of the pair (billionths).
    pub slope: i64,
    pub r2: u64,
    /// Absolute gap (nA) between the peer-measured difference and the
    /// closure-derived one.
    pub disagreement_na: u128,
}

/// A peer report.
#[verifier::ext_equal]
pub struct PeerModel {
    pub peer_sn: Seq<char>,
    pub relative_na: int,
    pub slope: i64,
    pub r2: u64,
    pub disagreement_na: nat,
}

impl View for PeerReport {
    type V = PeerModel;

    open spec fn view(&self) -> PeerModel {
        PeerModel {
            peer_sn: self.peer_sn@,
            relative_na: self.relative_na as int,
            slope: self.slope,
            r2: self.r2,
            disagreement_na: self.disagreement_na as nat,
        }
    }
}

/// The view of an optional report.
pub open spec fn peer_view(p: Option<PeerReport>) -> Option<PeerModel> {
    match p {
        Some(r) => Some(r@),
        None => None,
    }
}

/// The distance between two numbers.
pub open spec fn distance(a: int, b: int) -> nat {
    if a < b {
        (b - a) as nat
    } else {
        (a - b) as nat
    }
}

/// Whether a pair fit is trusted: enough samples, a ratio near one, a good fit.
pub open spec fn parallel(opts: Options, pair: PairFit) -> bool {
    pair.weight >= opts.peer_min_weight && match pair.fit {
        Some(f) => distance(f.slope as int, BILLION as int) <= opts.peer_slope_tolerance && f.r2
            >= opts.peer_min_r2,
        None => false,
    }
}

/// What one peer says, if it can be consulted. The stored fit reads
/// `larger = slope·smaller + intercept`, so the intercept is
/// `offset(larger) − offset(smaller)`; its sign flips when the device at hand is
/// the smaller of the two.
pub open spec fn peer_says(opts: Options, sn: Seq<char>, own_na: i64, p: PeerFit) -> Option<
    PeerModel,
> {
    if p.sn@ == sn {
        None
    } else {
        match (p.pair, p.estimate_na) {
            (Some(pair), Some(estimate)) => if parallel(opts, pair) {
                let f = pair.fit->Some_0;
                let relative = if text_before(sn, p.sn@) {
                    -f.intercept
                } else {
                    f.intercept as int
                };
                Some(
                    PeerModel {
                        peer_sn: p.sn@,
                        relative_na: relative,
                        slope: f.slope,
                        r2: f.r2,
                        disagreement_na: distance(relative, own_na - estimate),
                    },
                )
            } else {
                None
            },
            _ => None,
        }
    }
}

/// The first of the worst-disagreeing peers.
pub open spec fn worst_peer(opts: Options, sn: Seq<char>, own_na: i64, peers: Seq<PeerFit>) -> Option<
    PeerModel,
>
    decreases peers.len(),
{
    if peers.len() == 0 {
        None
    } else {
        let before = worst_peer(opts, sn, own_na, peers.drop_last());
        match (peer_says(opts, sn, own_na, peers.last()), before) {
            (Some(p), Some(w)) => if p.disagreement_na > w.disagreement_na {
                Some(p)
            } else {
                before
            },
            (Some(p), None) => Some(p),
            (None, _) => before,
        }
    }
}

/// The peer report of a device: none without an estimate of its own.
pub open spec fn peer_verdict(
    opts: Options,
    sn: Seq<char>,
    own_na: Option<i64>,
    peers: Seq<PeerFit>,
) -> Option<PeerModel> {
    match own_na {
        Some(own) => worst_peer(opts, sn, own, peers),
        None => None,
    }
}

fn gap_between(a: i128, b: i128) -> (r: u128)
    requires
        -0x8000_0000_0000_0000_0000 <= a <= 0x8000_0000_0000_0000_0000,
        -0x8000_0000_0000_0000_0000 <= b <= 0x8000_0000_0000_0000_0000,
    ensures
        r == distance(a as int, b as int),
{
    if a < b {
        (b - a) as u128
    } else {
        (a - b) as u128
    }
}

fn is_parallel(opts: &Options, pair: &PairFit) -> (r: bool)
    ensures
        r == parallel(*opts, *pair),
{
    if pair.weight < opts.peer_min_weight {
        return false;
    }
    match pair.fit {
        Some(f) => gap_between(f.slope as i128, 1_000_000_000) <= opts.peer_slope_tolerance as u128
            && f.r2 >= opts.peer_min_r2,
        None => false,
    }
}

fn ask_peer(opts: &Options, sn: &str, own_na: i64, p: &PeerFit) -> (r: Option<PeerReport>)
    ensures
        peer_view(r) == peer_says(*opts, sn@, own_na, *p),
{
    if same_text(p.sn.as_str(), sn) {
        return None;
    }
    if let (Some(pair), Some(estimate)) = (p.pair, p.estimate_na) {
        if is_parallel(opts, &pair) {
            if let Some(f) = pair.fit {
                let relative: i128 = if is_before(sn, p.sn.as_str()) {
                    -(f.intercept as i128)
                } else {
                    f.intercept as i128
                };
                let own_gap: i128 = own_na as i128 - estimate as i128;
                let disagreement: u128 = gap_between(relative, own_gap);
                let r = PeerReport {
                    peer_sn: p.sn.clone(),
                    relative_na: relative,
                    slope: f.slope,
                    r2: f.r2,
                    disagreement_na: disagreement,
                };
                proof {
                    assert(r@ =~= peer_says(*opts, sn@, own_na, *p)->Some_0);
                }
                return Some(r);
            }
        }
    }
    None
}

/// Worst-disagreeing usable peer pair for `sn`, if any.
pub fn peer_report(opts: &Options, sn: &str, own_na: Option<i64>, peers: &Vec<PeerFit>) -> (r:
    Option<PeerReport>)
    ensures
        peer_view(r) == peer_verdict(*opts, sn@, own_na, peers@),
{
    let own: i64 = match own_na {
        Some(own) => own,
        None => {
            return None;
        },
    };
    let mut worst: Option<PeerReport> = None;
    let mut i: usize = 0;
    proof {
        assert(peers@.take(0) =~= Seq::<PeerFit>::empty());
    }
    while i < peers.len()
        invariant
            i <= peers@.len(),
            peer_view(worst) == worst_peer(*opts, sn@, own, peers@.take(i as int)),
        decreases peers@.len() - i,
    {
        proof {
            assert(peers@.take(i + 1).drop_last() =~= peers@.take(i as int));
        }
        if let Some(report) = ask_peer(opts, sn, own, &peers[i]) {
            let worse = match &worst {
                Some(w) => report.disagreement_na > w.disagreement_na,
                None => true,
            };
            if worse {
                worst = Some(report);
            }
        }
        i += 1;
    }
    proof {
        assert(peers@.take(peers@.len() as int) =~= peers@);
    }
    worst
}

/// The reported peer is one that was consulted, and none disagrees more.
pub proof fn law_reported_peer_is_the_worst(
    opts: Options,
    sn: Seq<char>,
    own_na: i64,
    peers: Seq<PeerFit>,
)
    ensures
        match worst_peer(opts, sn, own_na, peers) {
            Some(w) => {
                &&& exists|k: int|
                    0 <= k < peers.len() && #[trigger] peer_says(opts, sn, own_na, peers[k])
                        == Some(w)
                &&& forall|k: int|
                    0 <= k < peers.len() ==> (#[trigger] peer_says(
                        opts,
                        sn,
                        own_na,
                        peers[k],
                    ) matches Some(p) ==> p.disagreement_na <= w.disagreement_na)
            },
            None => forall|k: int|
                0 <= k < peers.len() ==> #[trigger] peer_says(opts, sn, own_na, peers[k]) is None,
        },
    decreases peers.len(),
{
    if peers.len() > 0 {
        let head = peers.drop_last();
        law_reported_peer_is_the_worst(opts, sn, own_na, head);
        assert forall|k: int| 0 <= k < head.len() implies #[trigger] peer_says(
            opts,
            sn,
            own_na,
            head[k],
        ) == peer_says(opts, sn, own_na, peers[k]) by {}
        let w = worst_peer(opts, sn, own_na, peers);
        let last = peer_says(opts, sn, own_na, peers[peers.len() - 1]);
        if let Some(report) = w {
            if last != w {
                let k = choose|k: int|
                    0 <= k < head.len() && #[trigger] peer_says(opts, sn, own_na, head[k]) == Some(
                        report,
                    );
                assert(peer_says(opts, sn, own_na, peers[k]) == Some(report));
            }
        }
        assert forall|k: int| 0 <= k < peers.len() implies (#[trigger] peer_says(
            opts,
            sn,
            own_na,
            peers[k],
        ) matches Some(p) ==> w is Some && p.disagreement_na <= w->Some_0.disagreement_na) by {
            if k < head.len() {
                assert(peer_says(opts, sn, own_na, head[k]) == peer_says(
                    opts,
                    sn,
                    own_na,
                    peers[k],
                ));
            }
        }
    }
}

// --- The decision ---
/// A slope within the configured ceiling.
pub open spec fn clamped_offset(slope: i64, max_na: u64) -> i64 {
    if slope > max_na {
        max_na as i64
    } else if slope < -max_na {
        (-max_na) as i64
    } else {
        slope
    }
}

/// Whether the window is still too short.
pub open spec fn warming_up(opts: Options, dev: DeviceState) -> bool {
    dev.span_us < opts.min_span_secs * 1_000_000 || match anchor_bound(
        dev.capacity_uah,
        dev.span_us,
        opts.tau_secs,
    ) {
        Some(a) => a > opts.max_anchor_error_na,
        None => true,
    }
}

/// Which gate holds, judged in this order: no fit, warmup, noise, peers. Peers
/// may only veto a correction that would otherwise be applied.
pub open spec fn hold_of(
    opts: Options,
    dev: DeviceState,
    fit: Option<Fit>,
    peer: Option<PeerModel>,
) -> Hold {
    match fit {
        None => Hold::NoFit,
        Some(f) => if warming_up(opts, dev) {
            Hold::Warmup
        } else if f.stderr > opts.max_stderr_na {
            Hold::Noisy
        } else if peer matches Some(p) && p.disagreement_na > opts.peer_max_disagreement_na {
            Hold::PeerDisagreement
        } else {
            Hold::Clear
        },
    }
}

/// The offset to apply: the clamped estimate when nothing holds, else the last
/// good correction — a pack that has been calibrated for weeks is better served
/// by a slightly stale offset than by a sudden step back to raw.
pub open spec fn offset_of(
    opts: Options,
    dev: DeviceState,
    fit: Option<Fit>,
    peer: Option<PeerModel>,
) -> i64 {
    if hold_of(opts, dev, fit, peer) is Clear {
        clamped_offset(fit->Some_0.slope, opts.max_offset_na)
    } else {
        dev.applied_na
    }
}

fn clamp_offset(slope: i64, max_na: u64) -> (r: i64)
    ensures
        r == clamped_offset(slope, max_na),
{
    let wide: i128 = slope as i128;
    let max: i128 = max_na as i128;
    if wide > max {
        max_na as i64
    } else if wide < -max {
        (-max) as i64
    } else {
        slope
    }
}

/// Decide the applied offset of one device from its fit and its peers.
pub fn decide(opts: &Options, dev: &DeviceState, fit: Option<Fit>, peer: &Option<PeerReport>) -> (r:
    (i64, Hold))
    ensures
        r.0 == offset_of(*opts, *dev, fit, peer_view(*peer)),
        r.1 == hold_of(*opts, *dev, fit, peer_view(*peer)),
{
    let previous: i64 = dev.applied_na;
    let f = match fit {
        Some(f) => f,
        None => {
            return (previous, Hold::NoFit);
        },
    };
    if (dev.span_us as u128) < opts.min_span_secs as u128 * 1_000_000 {
        return (previous, Hold::Warmup);
    }
    match anchor_error(dev.capacity_uah, dev.span_us, opts.tau_secs) {
        Some(a) => {
            if a > opts.max_anchor_error_na as u128 {
                return (previous, Hold::Warmup);
            }
        },
        None => {
            return (previous, Hold::Warmup);
        },
    }
    if f.stderr > opts.max_stderr_na {
        return (previous, Hold::Noisy);
    }
    if let Some(p) = peer {
        if p.disagreement_na > opts.peer_max_disagreement_na as u128 {
            return (previous, Hold::PeerDisagreement);
        }
    }
    (clamp_offset(f.slope, opts.max_offset_na), Hold::Clear)
}

/// Whether an offset lies within the ceiling.
pub open spec fn within_ceiling(offset: i64, max_na: u64) -> bool {
    -max_na <= offset <= max_na
}

/// The applied offset never leaves the ceiling.
pub proof fn law_offset_stays_within_ceiling(
    opts: Options,
    dev: DeviceState,
    fit: Option<Fit>,
    peer: Option<PeerModel>,
)
    requires
        within_ceiling(dev.applied_na, opts.max_offset_na),
    ensures
        within_ceiling(offset_of(opts, dev, fit, peer), opts.max_offset_na),
{
}

/// While anything holds, the last good correction stays as it is.
pub proof fn law_hold_freezes_the_offset(
    opts: Options,
    dev: DeviceState,
    fit: Option<Fit>,
    peer: Option<PeerModel>,
)
    requires
        !(hold_of(opts, dev, fit, peer) is Clear),
    ensures
        offset_of(opts, dev, fit, peer) == dev.applied_na,
{
}

/// A disagreeing peer does not mask another hold: whatever the peers say, a
/// device without a fit, in warmup or with a noisy fit is reported as that.
pub proof fn law_peers_do_not_mask_other_holds(
    opts: Options,
    dev: DeviceState,
    fit: Option<Fit>,
    peer: Option<PeerModel>,
)
    ensures
        !(hold_of(opts, dev, fit, None) is Clear) ==> hold_of(opts, dev, fit, peer) == hold_of(
            opts,
            dev,
            fit,
            None,
        ),
{
}

/// Nothing is applied before the warmup gate opens: a device that has never been
/// corrected stays uncorrected.
pub proof fn law_warmup_applies_nothing(
    opts: Options,
    dev: DeviceState,
    fit: Option<Fit>,
    peer: Option<PeerModel>,
)
    requires
        dev.applied_na == 0,
        warming_up(opts, dev),
    ensures
        offset_of(opts, dev, fit, peer) == 0,
        hold_of(opts, dev, fit, peer) is Warmup || hold_of(opts, dev, fit, peer) is NoFit,
{
}

/// An outage is not counted as integrated time: however long it lasts, one frame
/// adds no more than the gap cap.
pub proof fn law_outage_adds_no_span(
    dev: DeviceState,
    last: Option<LastFrame>,
    s: Sample,
    opts: Options,
)
    ensures
        dev.span_us <= device_stepped(dev, last, s, opts).span_us <= dev.span_us
            + opts.max_gap_secs * 1_000_000,
{
}

// --- The calibrator ---
/// Non-persisted per-device scratch.
#[derive(Debug)]
pub struct Live {
    pub last: Option<LastFrame>,
    pub hold: Hold,
    pub peer: Option<PeerReport>,
}

/// Non-persisted per-device scratch.
#[verifier::ext_equal]
pub struct LiveModel {
    pub last: Option<LastFrame>,
    pub hold: Hold,
    pub peer: Option<PeerModel>,
}

impl View for Live {
    type V = LiveModel;

    open spec fn view(&self) -> LiveModel {
        LiveModel { last: self.last, hold: self.hold, peer: peer_view(self.peer) }
    }
}

impl LiveModel {
    /// Nothing seen yet: warming up.
    pub open spec fn fresh() -> LiveModel {
        LiveModel { last: None, hold: Hold::Warmup, peer: None }
    }
}

/// What the calibrator knows.
#[verifier::ext_equal]
pub struct CalibratorModel {
    pub opts: Options,
    pub devices: Map<Seq<char>, DeviceState>,
    pub live: Map<Seq<char>, LiveModel>,
    /// When each pair fit was last aged.
    pub pair_live: Map<Seq<char>, u64>,
}

/// Rolling current-sensor calibration for every tracked device.
#[derive(Debug)]
pub struct Calibrator {
    opts: Options,
    devices: TextMap<DeviceState>,
    live: TextMap<Live>,
    pair_live: TextMap<u64>,
}

impl View for Calibrator {
    type V = CalibratorModel;

    closed spec fn view(&self) -> CalibratorModel {
        CalibratorModel {
            opts: self.opts,
            devices: self.devices@,
            live: Map::new(|k: Seq<char>| self.live@.dom().contains(k), |k: Seq<char>| self.live@[k]@),
            pair_live: self.pair_live@,
        }
    }
}

/// The estimator state of a device.
pub open spec fn device_of(m: CalibratorModel, sn: Seq<char>) -> DeviceState {
    if m.devices.dom().contains(sn) {
        m.devices[sn]
    } else {
        DeviceState::fresh()
    }
}

/// The scratch of a device.
pub open spec fn live_of(m: CalibratorModel, sn: Seq<char>) -> LiveModel {
    if m.live.dom().contains(sn) {
        m.live[sn]
    } else {
        LiveModel::fresh()
    }
}

/// The calibrator after a frame is integrated.
pub open spec fn frame_integrated(m: CalibratorModel, sn: Seq<char>, s: Sample) -> CalibratorModel {
    CalibratorModel {
        devices: m.devices.insert(
            sn,
            device_stepped(device_of(m, sn), live_of(m, sn).last, s, m.opts),
        ),
        live: m.live.insert(
            sn,
            LiveModel {
                last: Some(
                    LastFrame {
                        at_us: s.now_us,
                        current_ma: s.current_ma,
                        balance_ma: s.balance_ma,
                    },
                ),
                ..live_of(m, sn)
            },
        ),
        ..m
    }
}

/// A point for a pair fit, which reads `larger = slope·smaller + intercept`: age
/// the fit by `aged_us`, then add `(x_ma, y_ma)`. A pair seen for the first time
/// has nothing to age.
#[derive(Debug)]
pub struct PairPoint {
    pub key: String,
    pub aged_us: Option<u64>,
    pub x_ma: i32,
    pub y_ma: i32,
}

/// A point for a pair fit.
#[verifier::ext_equal]
pub struct PairPointModel {
    pub key: Seq<char>,
    pub aged_us: Option<u64>,
    pub x_ma: i32,
    pub y_ma: i32,
}

impl View for PairPoint {
    type V = PairPointModel;

    open spec fn view(&self) -> PairPointModel {
        PairPointModel {
            key: self.key@,
            aged_us: self.aged_us,
            x_ma: self.x_ma,
            y_ma: self.y_ma,
        }
    }
}

/// The points a list holds.
pub open spec fn point_views(points: Seq<PairPoint>) -> Seq<PairPointModel> {
    Seq::new(points.len(), |i: int| points[i]@)
}

/// Whether a peer reported recently enough to be paired.
pub open spec fn recent(l: LiveModel, now_us: u64, skew_secs: u64) -> bool {
    l.last matches Some(f) && distance(f.at_us as int, now_us as int) <= skew_secs * 1_000_000
}

/// The point that a frame of `sn` makes with the last frame of `other`.
pub open spec fn pair_point(
    pair_live: Map<Seq<char>, u64>,
    sn: Seq<char>,
    s: Sample,
    other: Seq<char>,
    l: LiveModel,
) -> PairPointModel {
    let key = pair_name(sn, other);
    let theirs = l.last->Some_0.current_ma;
    let sn_first = text_before(sn, other);
    PairPointModel {
        key,
        aged_us: if pair_live.dom().contains(key) {
            Some(elapsed(pair_live[key], s.now_us))
        } else {
            None
        },
        x_ma: if sn_first {
            s.current_ma
        } else {
            theirs
        },
        y_ma: if sn_first {
            theirs
        } else {
            s.current_ma
        },
    }
}

/// The points of a frame with the peers among `others`, and the pairs' ages
/// afterwards.
pub open spec fn paired(
    m: CalibratorModel,
    sn: Seq<char>,
    s: Sample,
    others: Seq<Seq<char>>,
) -> (Seq<PairPointModel>, Map<Seq<char>, u64>)
    decreases others.len(),
{
    if others.len() == 0 {
        (Seq::empty(), m.pair_live)
    } else {
        let (points, ages) = paired(m, sn, s, others.drop_last());
        let other = others.last();
        if other != sn && recent(live_of(m, other), s.now_us, m.opts.peer_max_skew_secs) {
            let point = pair_point(ages, sn, s, other, live_of(m, other));
            (points.push(point), ages.insert(point.key, s.now_us))
        } else {
            (points, ages)
        }
    }
}

impl PeerReport {
    /// The same report again.
    pub fn duplicate(&self) -> (r: PeerReport)
        ensures
            r@ == self@,
    {
        let r = PeerReport {
            peer_sn: self.peer_sn.clone(),
            relative_na: self.relative_na,
            slope: self.slope,
            r2: self.r2,
            disagreement_na: self.disagreement_na,
        };
        proof {
            assert(r@ =~= self@);
        }
        r
    }
}

fn copy_peer(p: &Option<PeerReport>) -> (r: Option<PeerReport>)
    ensures
        peer_view(r) == peer_view(*p),
{
    match p {
        Some(p) => Some(p.duplicate()),
        None => None,
    }
}

impl Calibrator {
    /// The maps behind the calibrator are in order.
    pub closed spec fn valid(&self) -> bool {
        self.devices.valid() && self.live.valid() && self.pair_live.valid()
    }

    /// The devices with scratch, in order.
    pub closed spec fn live_order(&self) -> Seq<Seq<char>> {
        self.live.order()
    }

    /// The devices with estimator state, in order.
    pub closed spec fn device_order(&self) -> Seq<Seq<char>> {
        self.devices.order()
    }

    /// The orders name exactly the devices there are, ascending.
    pub proof fn lemma_orders(&self)
        requires
            self.valid(),
        ensures
            crate::text_map::ascending(self.live_order()),
            crate::text_map::ascending(self.device_order()),
            forall|k: Seq<char>| #[trigger]
                self@.live.dom().contains(k) <==> self.live_order().contains(k),
            forall|k: Seq<char>| #[trigger]
                self@.devices.dom().contains(k) <==> self.device_order().contains(k),
    {
        self.live.lemma_order();
        self.devices.lemma_order();
    }

    /// Nothing known yet.
    pub fn new(opts: Options) -> (r: Self)
        ensures
            r.valid(),
            r@ == (CalibratorModel {
                opts,
                devices: Map::empty(),
                live: Map::empty(),
                pair_live: Map::empty(),
            }),
    {
        let r = Calibrator {
            opts,
            devices: TextMap::new(),
            live: TextMap::new(),
            pair_live: TextMap::new(),
        };
        proof {
            assert(r@.live =~= Map::empty());
        }
        r
    }

    fn live_copy(&self, sn: &str) -> (r: Live)
        requires
            self.valid(),
        ensures
            r@ == live_of(self@, sn@),
    {
        match self.live.get(sn) {
            Some(l) => {
                let r = Live { last: l.last, hold: l.hold, peer: copy_peer(&l.peer) };
                proof {
                    assert(r@ =~= l@);
                }
                r
            },
            None => {
                let r = Live { last: None, hold: Hold::Warmup, peer: None };
                proof {
                    assert(r@ =~= LiveModel::fresh());
                }
                r
            },
        }
    }

    fn put_live(&mut self, sn: &str, l: Live)
        requires
            old(self).valid(),
        ensures
            final(self).valid(),
            final(self)@ == (CalibratorModel {
                live: old(self)@.live.insert(sn@, l@),
                ..old(self)@
            }),
            final(self).device_order() == old(self).device_order(),
    {
        self.live.insert(sn, l);
        proof {
            assert(self@.live =~= old(self)@.live.insert(sn@, l@));
        }
    }

    fn device_copy(&self, sn: &str) -> (r: DeviceState)
        requires
            self.valid(),
        ensures
            r == device_of(self@, sn@),
    {
        match self.devices.get(sn) {
            Some(d) => *d,
            None => DeviceState::default(),
        }
    }

    /// Advance the running integrals, and give the point that the frame adds to
    /// the closure fit.
    pub fn integrate(&mut self, sn: &str, s: Sample) -> (r: Option<ClosurePoint>)
        requires
            old(self).valid(),
        ensures
            final(self).valid(),
            final(self)@ == frame_integrated(old(self)@, sn@, s),
            r == closure_point(
                device_of(old(self)@, sn@),
                live_of(old(self)@, sn@).last,
                s,
                old(self)@.opts,
            ),
    {
        let dev = self.device_copy(sn);
        let live = self.live_copy(sn);
        let (stepped, point) = step_device(dev, live.last, s, &self.opts);
        self.devices.insert(sn, stepped);
        let next = Live {
            last: Some(
                LastFrame {
                    at_us: s.now_us,
                    current_ma: s.current_ma,
                    balance_ma: s.balance_ma,
                },
            ),
            hold: live.hold,
            peer: live.peer,
        };
        self.put_live(sn, next);
        proof {
            assert(self@ =~= frame_integrated(old(self)@, sn@, s));
        }
        point
    }

    /// Pair this sample against every peer that reported recently enough, and
    /// give the points for the corresponding parallel-bank fits.
    pub fn update_peers(&mut self, sn: &str, s: Sample) -> (r: Vec<PairPoint>)
        requires
            old(self).valid(),
        ensures
            final(self).valid(),
            point_views(r@) == paired(old(self)@, sn@, s, old(self).live_order()).0,
            final(self)@ == (CalibratorModel {
                pair_live: paired(old(self)@, sn@, s, old(self).live_order()).1,
                ..old(self)@
            }),
    {
        let ghost start = self@;
        let ghost order = self.live_order();
        let skew: u128 = self.opts.peer_max_skew_secs as u128 * 1_000_000;
        let n: usize = self.live.len();
        let mut out: Vec<PairPoint> = Vec::new();
        let mut i: usize = 0;
        proof {
            assert(order.take(0) =~= Seq::<Seq<char>>::empty());
            assert(point_views(out@) =~= Seq::<PairPointModel>::empty());
        }
        while i < n
            invariant
                i <= n,
                n == order.len(),
                order == self.live_order(),
                self.valid(),
                skew == start.opts.peer_max_skew_secs * 1_000_000,
                self@.opts == start.opts,
                self@.devices == start.devices,
                self@.live == start.live,
                point_views(out@) == paired(start, sn@, s, order.take(i as int)).0,
                self@.pair_live == paired(start, sn@, s, order.take(i as int)).1,
            decreases n - i,
        {
            let other = self.live.key_at(i).to_owned();
            let theirs = self.live.value_at(i).last;
            proof {
                assert(order.take(i + 1).drop_last() =~= order.take(i as int));
                assert(self@.live[other@].last == theirs);
                assert(start.live.dom().contains(other@));
            }
            let ghost before = point_views(out@);
            if !same_text(other.as_str(), sn) {
                if let Some(f) = theirs {
                    let apart: u64 = if f.at_us < s.now_us {
                        s.now_us - f.at_us
                    } else {
                        f.at_us - s.now_us
                    };
                    if apart as u128 <= skew {
                        let (key, flipped) = pair_key(sn, other.as_str());
                        let aged_us: Option<u64> = match self.pair_live.get(key.as_str()) {
                            Some(last) => Some(
                                if s.now_us > *last {
                                    s.now_us - *last
                                } else {
                                    0
                                },
                            ),
                            None => None,
                        };
                        self.pair_live.insert(key.as_str(), s.now_us);
                        let (x_ma, y_ma) = if flipped {
                            (f.current_ma, s.current_ma)
                        } else {
                            (s.current_ma, f.current_ma)
                        };
                        let point = PairPoint { key, aged_us, x_ma, y_ma };
                        proof {
                            let ages = paired(start, sn@, s, order.take(i as int)).1;
                            assert(point@ =~= pair_point(
                                ages,
                                sn@,
                                s,
                                other@,
                                live_of(start, other@),
                            ));
                        }
                        out.push(point);
                        proof {
                            assert(point_views(out@) =~= before.push(point@));
                            assert(self@.live =~= start.live);
                        }
                    }
                }
            }
            i += 1;
        }
        proof {
            assert(order.take(n as int) =~= order);
        }
        out
    }

    /// Re-derive the applied offset for one device from its fit and its peers.
    /// The peer report is always published; gives the offset to subtract.
    pub fn recompute(&mut self, sn: &str, fit: Option<Fit>, peers: &Vec<PeerFit>) -> (r: i64)
        requires
            old(self).valid(),
        ensures
            final(self).valid(),
            final(self)@ == settled(old(self)@, sn@, fit, peers@),
            r == device_of(final(self)@, sn@).applied_na,
    {
        let mut dev: DeviceState = match self.devices.get(sn) {
            Some(d) => *d,
            None => {
                return 0;
            },
        };
        let own: Option<i64> = match fit {
            Some(f) => Some(f.slope),
            None => None,
        };
        let peer = peer_report(&self.opts, sn, own, peers);
        let (offset, hold) = decide(&self.opts, &dev, fit, &peer);
        dev.applied_na = offset;
        self.devices.insert(sn, dev);
        let live = self.live_copy(sn);
        self.put_live(sn, Live { last: live.last, hold, peer });
        proof {
            assert(self@ =~= settled(old(self)@, sn@, fit, peers@));
        }
        offset
    }

    /// Feed one realtime frame: integrate it and pair it with its peers. Put the
    /// points into the fits, then let [`Calibrator::recompute`] settle the
    /// offset.
    ///
    /// The caller must pass the **raw** current: feeding a corrected one closes
    /// a feedback loop that drives the offset to zero.
    pub fn observe(&mut self, sn: &str, s: Sample) -> (r: (Option<ClosurePoint>, Vec<PairPoint>))
        requires
            old(self).valid(),
        ensures
            final(self).valid(),
            r.0 == closure_point(
                device_of(old(self)@, sn@),
                live_of(old(self)@, sn@).last,
                s,
                old(self)@.opts,
            ),
            exists|order: Seq<Seq<char>>|
                {
                    let m = frame_integrated(old(self)@, sn@, s);
                    &&& #[trigger] crate::text_map::ascending(order)
                    &&& forall|k: Seq<char>| #[trigger]
                        m.live.dom().contains(k) <==> order.contains(k)
                    &&& point_views(r.1@) == paired(m, sn@, s, order).0
                    &&& final(self)@ == (CalibratorModel {
                        pair_live: paired(m, sn@, s, order).1,
                        ..m
                    })
                },
    {
        let point = self.integrate(sn, s);
        proof {
            self.lemma_orders();
        }
        let ghost order = self.live_order();
        let pairs = self.update_peers(sn, s);
        proof {
            assert(crate::text_map::ascending(order));
        }
        (point, pairs)
    }
}

/// The calibrator once the offset of a device is settled. A device without
/// estimator state has none.
pub open spec fn settled(
    m: CalibratorModel,
    sn: Seq<char>,
    fit: Option<Fit>,
    peers: Seq<PeerFit>,
) -> CalibratorModel {
    if !m.devices.dom().contains(sn) {
        m
    } else {
        let dev = m.devices[sn];
        let own = match fit {
            Some(f) => Some(f.slope),
            None => None,
        };
        let peer = peer_verdict(m.opts, sn, own, peers);
        CalibratorModel {
            devices: m.devices.insert(
                sn,
                DeviceState { applied_na: offset_of(m.opts, dev, fit, peer), ..dev },
            ),
            live: m.live.insert(
                sn,
                LiveModel { hold: hold_of(m.opts, dev, fit, peer), peer, ..live_of(m, sn) },
            ),
            ..m
        }
    }
}

// --- Reports and persistence ---
/// Everything exported about one device's calibration.
#[derive(Debug)]
pub struct Report {
    /// Offset actually subtracted from the current (nA).
    pub applied_na: i64,
    /// Latest closure estimate, whether or not it is applied (nA).
    pub estimate_na: Option<i64>,
    pub stderr_na: Option<u64>,
    pub r2: Option<u64>,
    /// Integrated time accumulated so far.
    pub span_us: u64,
    /// How far the BMS's bounded state of charge could still be shifting the
    /// estimate (nA), if anything bounds it.
    pub anchor_error_na: Option<u128>,
    /// Effective sample count of the fit (thousandths).
    pub weight: u64,
    pub hold: Hold,
    pub peer: Option<PeerReport>,
}

/// One device in a snapshot.
#[derive(Debug)]
pub struct StoredDevice {
    pub sn: String,
    pub state: DeviceState,
}

/// Persisted whole-calibrator state, apart from the fits: the devices in order.
#[derive(Debug)]
pub struct State {
    pub devices: Vec<StoredDevice>,
}

/// The devices that a snapshot's rows hold for the admitted serials; a later row
/// replaces an earlier one.
pub open spec fn readmitted(rows: Seq<StoredDevice>, allowed: Seq<String>) -> Map<
    Seq<char>,
    DeviceState,
>
    decreases rows.len(),
{
    if rows.len() == 0 {
        Map::empty()
    } else {
        let before = readmitted(rows.drop_last(), allowed);
        if lists(allowed, rows.last().sn@) {
            before.insert(rows.last().sn@, rows.last().state)
        } else {
            before
        }
    }
}

/// Whether a list holds this serial.
pub fn is_listed(list: &Vec<String>, sn: &str) -> (r: bool)
    ensures
        r == lists(list@, sn@),
{
    let mut i: usize = 0;
    while i < list.len()
        invariant
            i <= list@.len(),
            forall|k: int| 0 <= k < i ==> (#[trigger] list@[k])@ != sn@,
        decreases list@.len() - i,
    {
        if same_text(list[i].as_str(), sn) {
            proof {
                assert(list@[i as int]@ == sn@);
            }
            return true;
        }
        i += 1;
    }
    false
}

/// Where the first separator of a pair key stands, or its length.
pub open spec fn first_bar(key: Seq<char>) -> nat
    decreases key.len(),
{
    if key.len() == 0 || key[0] == '|' {
        0
    } else {
        1 + first_bar(key.drop_first())
    }
}

/// Whether every serial a pair key names is on the list.
pub open spec fn names_listed(key: Seq<char>, allowed: Seq<String>) -> bool
    decreases key.len(),
{
    let at = first_bar(key);
    if at >= key.len() {
        lists(allowed, key)
    } else {
        lists(allowed, key.take(at as int)) && names_listed(key.skip(at as int + 1), allowed)
    }
}

proof fn lemma_first_bar(key: Seq<char>)
    ensures
        first_bar(key) <= key.len(),
        first_bar(key) < key.len() ==> key[first_bar(key) as int] == '|',
        forall|i: int| 0 <= i < first_bar(key) ==> key[i] != '|',
    decreases key.len(),
{
    if key.len() > 0 && key[0] != '|' {
        let rest = key.drop_first();
        lemma_first_bar(rest);
        assert forall|i: int| 0 <= i < first_bar(key) implies key[i] != '|' by {
            if i > 0 {
                assert(rest[i - 1] == key[i]);
            }
        }
        if first_bar(key) < key.len() {
            assert(rest[first_bar(rest) as int] == key[first_bar(key) as int]);
        }
    }
}

proof fn lemma_first_bar_at(key: Seq<char>, at: nat)
    requires
        at <= key.len(),
        at < key.len() ==> key[at as int] == '|',
        forall|i: int| 0 <= i < at ==> key[i] != '|',
    ensures
        first_bar(key) == at,
{
    lemma_first_bar(key);
    let b = first_bar(key);
    if b < at {
        assert(key[b as int] != '|');
    }
}

/// Whether a pair fit may be kept: every serial its key names is admitted.
pub fn pair_admitted(key: &str, allowed: &Vec<String>) -> (r: bool)
    ensures
        r == names_listed(key@, allowed@),
{
    let n: usize = key.unicode_len();
    let mut start: usize = 0;
    let mut i: usize = 0;
    proof {
        assert(key@.skip(0) =~= key@);
    }
    while i < n
        invariant
            start <= i <= n,
            n == key@.len(),
            forall|k: int| start <= k < i ==> key@[k] != '|',
            names_listed(key@, allowed@) == names_listed(key@.skip(start as int), allowed@),
        decreases n - i,
    {
        if key.get_char(i) == '|' {
            proof {
                let rest = key@.skip(start as int);
                lemma_first_bar_at(rest, (i - start) as nat);
                assert(rest.take(i - start) =~= key@.subrange(start as int, i as int));
                assert(rest.skip(i - start + 1) =~= key@.skip(i + 1));
            }
            if !is_listed(allowed, key.substring_char(start, i)) {
                return false;
            }
            start = i + 1;
        }
        i += 1;
    }
    proof {
        let rest = key@.skip(start as int);
        lemma_first_bar_at(rest, (n - start) as nat);
        assert(rest =~= key@.subrange(start as int, n as int));
    }
    is_listed(allowed, key.substring_char(start, n))
}

/// A pair is kept exactly when both its devices are admitted. (Serials hold no
/// separator.)
pub proof fn law_pair_needs_both_devices(a: Seq<char>, b: Seq<char>, allowed: Seq<String>)
    requires
        !a.contains('|'),
        !b.contains('|'),
    ensures
        names_listed(pair_name(a, b), allowed) == (lists(allowed, a) && lists(allowed, b)),
{
    reveal_strlit("|");
    let first = if text_before(a, b) {
        a
    } else {
        b
    };
    let second = if text_before(a, b) {
        b
    } else {
        a
    };
    let key = first + "|"@ + second;
    assert(key == pair_name(a, b));
    assert forall|i: int| 0 <= i < first.len() implies key[i] != '|' by {
        assert(key[i] == first[i]);
        assert(first.contains(first[i]));
    }
    lemma_first_bar_at(key, first.len());
    assert(key.take(first.len() as int) =~= first);
    assert(key.skip(first.len() as int + 1) =~= second);
    assert forall|i: int| 0 <= i < second.len() implies second[i] != '|' by {
        assert(second.contains(second[i]));
    }
    lemma_first_bar_at(second, second.len());
    reveal_with_fuel(names_listed, 3);
}

impl Calibrator {
    /// Everything to export for `sn`, given what its fit found.
    pub fn report(&self, sn: &str, fit: Option<Fit>, weight: u64) -> (r: Option<Report>)
        requires
            self.valid(),
        ensures
            match r {
                None => !self@.devices.dom().contains(sn@),
                Some(p) => {
                    let dev = self@.devices[sn@];
                    &&& self@.devices.dom().contains(sn@)
                    &&& p.applied_na == dev.applied_na
                    &&& p.estimate_na == (match fit {
                        Some(f) => Some(f.slope),
                        None => None,
                    })
                    &&& p.stderr_na == (match fit {
                        Some(f) => Some(f.stderr),
                        None => None,
                    })
                    &&& p.r2 == (match fit {
                        Some(f) => Some(f.r2),
                        None => None,
                    })
                    &&& p.span_us == dev.span_us
                    &&& match (
                        p.anchor_error_na,
                        anchor_bound(dev.capacity_uah, dev.span_us, self@.opts.tau_secs),
                    ) {
                        (Some(a), Some(b)) => a == b,
                        (None, None) => true,
                        _ => false,
                    }
                    &&& p.weight == weight
                    &&& p.hold == live_of(self@, sn@).hold
                    &&& peer_view(p.peer) == live_of(self@, sn@).peer
                },
            },
    {
        let dev: DeviceState = match self.devices.get(sn) {
            Some(d) => *d,
            None => {
                return None;
            },
        };
        let live = self.live_copy(sn);
        Some(
            Report {
                applied_na: dev.applied_na,
                estimate_na: match fit {
                    Some(f) => Some(f.slope),
                    None => None,
                },
                stderr_na: match fit {
                    Some(f) => Some(f.stderr),
                    None => None,
                },
                r2: match fit {
                    Some(f) => Some(f.r2),
                    None => None,
                },
                span_us: dev.span_us,
                anchor_error_na: anchor_error(dev.capacity_uah, dev.span_us, self.opts.tau_secs),
                weight,
                hold: live.hold,
                peer: live.peer,
            },
        )
    }

    /// Serials the calibrator currently tracks, in order.
    pub fn devices(&self) -> (r: Vec<String>)
        requires
            self.valid(),
        ensures
            r@.len() == self.device_order().len(),
            forall|i: int| 0 <= i < r@.len() ==> (#[trigger] r@[i])@ == self.device_order()[i],
    {
        let n: usize = self.devices.len();
        let mut out: Vec<String> = Vec::new();
        let mut i: usize = 0;
        while i < n
            invariant
                i <= n,
                n == self.device_order().len(),
                self.valid(),
                out@.len() == i,
                forall|k: int| 0 <= k < i ==> (#[trigger] out@[k])@ == self.device_order()[k],
            decreases n - i,
        {
            out.push(self.devices.key_at(i).to_owned());
            i += 1;
        }
        out
    }

    /// Snapshot for persistence.
    pub fn state(&self) -> (r: State)
        requires
            self.valid(),
        ensures
            r.devices@.len() == self.device_order().len(),
            forall|i: int|
                0 <= i < r.devices@.len() ==> (#[trigger] r.devices@[i]).sn@
                    == self.device_order()[i] && r.devices@[i].state
                    == self@.devices[self.device_order()[i]],
    {
        let n: usize = self.devices.len();
        let mut out: Vec<StoredDevice> = Vec::new();
        let mut i: usize = 0;
        while i < n
            invariant
                i <= n,
                n == self.device_order().len(),
                self.valid(),
                out@.len() == i,
                forall|k: int|
                    0 <= k < i ==> (#[trigger] out@[k]).sn@ == self.device_order()[k]
                        && out@[k].state == self@.devices[self.device_order()[k]],
            decreases n - i,
        {
            out.push(
                StoredDevice {
                    sn: self.devices.key_at(i).to_owned(),
                    state: *self.devices.value_at(i),
                },
            );
            i += 1;
        }
        State { devices: out }
    }

    /// Reload a snapshot, dropping any serial the caller no longer admits.
    pub fn restore(&mut self, state: &State, allowed: &Vec<String>)
        requires
            old(self).valid(),
        ensures
            final(self).valid(),
            final(self)@ == (CalibratorModel {
                devices: readmitted(state.devices@, allowed@),
                ..old(self)@
            }),
    {
        let mut devices: TextMap<DeviceState> = TextMap::new();
        let mut i: usize = 0;
        proof {
            assert(state.devices@.take(0) =~= Seq::<StoredDevice>::empty());
        }
        while i < state.devices.len()
            invariant
                i <= state.devices@.len(),
                devices.valid(),
                devices@ == readmitted(state.devices@.take(i as int), allowed@),
            decreases state.devices@.len() - i,
        {
            let row = &state.devices[i];
            proof {
                assert(state.devices@.take(i + 1).drop_last() =~= state.devices@.take(i as int));
            }
            if is_listed(allowed, row.sn.as_str()) {
                devices.insert(row.sn.as_str(), row.state);
            }
            i += 1;
        }
        proof {
            assert(state.devices@.take(state.devices@.len() as int) =~= state.devices@);
        }
        self.devices = devices;
        proof {
            assert(self@.live =~= old(self)@.live);
        }
    }
}

/// A restored calibrator knows the admitted devices of the snapshot, each as it
/// was, and no others.
pub proof fn law_restore_honours_admission(rows: Seq<StoredDevice>, allowed: Seq<String>)
    requires
        forall|i: int, j: int|
            0 <= i < j < rows.len() ==> (#[trigger] rows[i]).sn@ != (#[trigger] rows[j]).sn@,
    ensures
        forall|i: int|
            0 <= i < rows.len() && lists(allowed, (#[trigger] rows[i]).sn@) ==> readmitted(
                rows,
                allowed,
            ).dom().contains(rows[i].sn@) && readmitted(rows, allowed)[rows[i].sn@]
                == rows[i].state,
        forall|sn: Seq<char>| #[trigger]
            readmitted(rows, allowed).dom().contains(sn) ==> lists(allowed, sn) && exists|i: int|
                0 <= i < rows.len() && (#[trigger] rows[i]).sn@ == sn,
    decreases rows.len(),
{
    if rows.len() > 0 {
        let head = rows.drop_last();
        law_restore_honours_admission(head, allowed);
        let n = rows.len() - 1;
        assert forall|i: int| 0 <= i < rows.len() && lists(
            allowed,
            (#[trigger] rows[i]).sn@,
        ) implies readmitted(rows, allowed).dom().contains(rows[i].sn@) && readmitted(
            rows,
            allowed,
        )[rows[i].sn@] == rows[i].state by {
            if i < n {
                assert(head[i] == rows[i]);
                assert(rows[i].sn@ != rows[n].sn@);
            }
        }
        assert forall|sn: Seq<char>| #[trigger]
            readmitted(rows, allowed).dom().contains(sn) implies lists(allowed, sn) && exists|
            i: int,
        |
            0 <= i < rows.len() && (#[trigger] rows[i]).sn@ == sn by {
            if readmitted(head, allowed).dom().contains(sn) {
                let i = choose|i: int| 0 <= i < head.len() && (#[trigger] head[i]).sn@ == sn;
                assert(rows[i].sn@ == sn);
            } else {
                assert(rows[n].sn@ == sn);
            }
        }
    }
}

/// A snapshot that is restored with every serial admitted gives back the devices
/// it was taken of.
pub proof fn law_state_round_trip(
    devices: Map<Seq<char>, DeviceState>,
    rows: Seq<StoredDevice>,
    allowed: Seq<String>,
)
    requires
        forall|i: int, j: int|
            0 <= i < j < rows.len() ==> (#[trigger] rows[i]).sn@ != (#[trigger] rows[j]).sn@,
        forall|i: int|
            0 <= i < rows.len() ==> devices.dom().contains((#[trigger] rows[i]).sn@)
                && rows[i].state == devices[rows[i].sn@] && lists(allowed, rows[i].sn@),
        forall|sn: Seq<char>| #[trigger]
            devices.dom().contains(sn) ==> exists|i: int|
                0 <= i < rows.len() && (#[trigger] rows[i]).sn@ == sn,
    ensures
        readmitted(rows, allowed) == devices,
{
    law_restore_honours_admission(rows, allowed);
    let again = readmitted(rows, allowed);
    assert forall|sn: Seq<char>| again.dom().contains(sn) <==> devices.dom().contains(sn) by {
        if again.dom().contains(sn) {
            let i = choose|i: int| 0 <= i < rows.len() && (#[trigger] rows[i]).sn@ == sn;
            assert(devices.dom().contains(rows[i].sn@));
        }
        if devices.dom().contains(sn) {
            let i = choose|i: int| 0 <= i < rows.len() && (#[trigger] rows[i]).sn@ == sn;
            assert(lists(allowed, rows[i].sn@));
        }
    }
    assert forall|sn: Seq<char>| #[trigger] again.dom().contains(sn) implies again[sn]
        == devices[sn] by {
        let i = choose|i: int| 0 <= i < rows.len() && (#[trigger] rows[i]).sn@ == sn;
        assert(lists(allowed, rows[i].sn@));
    }
    assert(again =~= devices);
}

} // verus!
