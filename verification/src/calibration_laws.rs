//! What holds of the calibrator in every state it can reach: any number of
//! frames and decisions, of any devices, in any order.

use vstd::prelude::*;

use crate::calibration::{
    anchor_bound, capacity_hint, closure_point, device_of, device_stepped, first_bar,
    frame_integrated, hold_code, hold_of, larger, names_listed, offset_of, paired, peer_says,
    peer_verdict, readmitted, settled, step_time, within_ceiling, CalibratorModel, DeviceState,
    Fit, Hold, LastFrame, Options, PairFit, PeerFit, PeerModel, Sample, StoredDevice,
};
use crate::config::lists;
use crate::coulomb_laws::{above_zero, time_between};
use crate::text::text_before;

verus! {

/// What can happen to the calibrator.
pub enum Turn {
    /// A frame is observed. The order is that in which it meets its peers.
    Observe { sn: Seq<char>, s: Sample, order: Seq<Seq<char>> },
    /// The offset of a device is settled from its fit and its peers.
    Recompute { sn: Seq<char>, fit: Option<Fit>, peers: Seq<PeerFit> },
}

/// A calibrator that knows nothing yet.
pub open spec fn unused(opts: Options) -> CalibratorModel {
    CalibratorModel { opts, devices: Map::empty(), live: Map::empty(), pair_live: Map::empty() }
}

/// The calibrator after a turn.
pub open spec fn after_turn(m: CalibratorModel, turn: Turn) -> CalibratorModel {
    match turn {
        Turn::Observe { sn, s, order } => {
            let now = frame_integrated(m, sn, s);
            CalibratorModel { pair_live: paired(now, sn, s, order).1, ..now }
        },
        Turn::Recompute { sn, fit, peers } => settled(m, sn, fit, peers),
    }
}

/// The calibrator after a series of turns.
pub open spec fn after_turns(m: CalibratorModel, turns: Seq<Turn>) -> CalibratorModel
    decreases turns.len(),
{
    if turns.len() == 0 {
        m
    } else {
        after_turn(after_turns(m, turns.drop_last()), turns.last())
    }
}

/// The device a turn is about.
pub open spec fn subject(turn: Turn) -> Seq<char> {
    match turn {
        Turn::Observe { sn, .. } => sn,
        Turn::Recompute { sn, .. } => sn,
    }
}

/// The offset applied to a device.
pub open spec fn applied(m: CalibratorModel, sn: Seq<char>) -> i64 {
    device_of(m, sn).applied_na
}

/// Whether a turn decides that nothing holds the correction of a device.
pub open spec fn clears(m: CalibratorModel, turn: Turn, sn: Seq<char>) -> bool {
    match turn {
        Turn::Observe { .. } => false,
        Turn::Recompute { sn: who, fit, peers } => {
            let own = match fit {
                Some(f) => Some(f.slope),
                None => None,
            };
            &&& who == sn
            &&& m.devices.dom().contains(sn)
            &&& hold_of(
                m.opts,
                m.devices[sn],
                fit,
                peer_verdict(m.opts, sn, own, peers),
            ) is Clear
        },
    }
}

/// Whether some turn of a series has cleared a device.
pub open spec fn ever_cleared(m: CalibratorModel, turns: Seq<Turn>, sn: Seq<char>) -> bool
    decreases turns.len(),
{
    turns.len() > 0 && (ever_cleared(m, turns.drop_last(), sn) || clears(
        after_turns(m, turns.drop_last()),
        turns.last(),
        sn,
    ))
}

/// The largest capacity that the frames of a device have hinted at.
pub open spec fn largest_hint(turns: Seq<Turn>, sn: Seq<char>) -> u64
    decreases turns.len(),
{
    if turns.len() == 0 {
        0
    } else {
        let before = largest_hint(turns.drop_last(), sn);
        match turns.last() {
            Turn::Observe { sn: who, s, .. } => if who == sn {
                larger(before, capacity_hint(s))
            } else {
                before
            },
            Turn::Recompute { .. } => before,
        }
    }
}

/// A turn about one device changes nothing of another: neither its offset nor
/// the rest of its estimator state.
pub proof fn law_turns_leave_other_devices_alone(m: CalibratorModel, turn: Turn, sn: Seq<char>)
    requires
        subject(turn) != sn,
    ensures
        device_of(after_turn(m, turn), sn) == device_of(m, sn),
        applied(after_turn(m, turn), sn) == applied(m, sn),
{
}

/// Observing a frame changes no offset: only a decision does, and only one that
/// finds nothing to hold.
pub proof fn law_only_cleared_decisions_change_the_offset(
    m: CalibratorModel,
    turn: Turn,
    sn: Seq<char>,
)
    requires
        !clears(m, turn, sn),
    ensures
        applied(after_turn(m, turn), sn) == applied(m, sn),
{
}

/// In every state that a new calibrator can reach, the offset of every device is
/// within the ceiling, and it is zero until a decision has first found nothing to
/// hold.
pub proof fn law_offsets_in_every_history(opts: Options, turns: Seq<Turn>, sn: Seq<char>)
    ensures
        after_turns(unused(opts), turns).opts == opts,
        within_ceiling(applied(after_turns(unused(opts), turns), sn), opts.max_offset_na),
        !ever_cleared(unused(opts), turns, sn) ==> applied(after_turns(unused(opts), turns), sn)
            == 0,
    decreases turns.len(),
{
    if turns.len() > 0 {
        let before = after_turns(unused(opts), turns.drop_last());
        law_offsets_in_every_history(opts, turns.drop_last(), sn);
        if !clears(before, turns.last(), sn) {
            law_only_cleared_decisions_change_the_offset(before, turns.last(), sn);
        }
    }
}

/// The capacity of a device is the largest that any of its frames has hinted at,
/// by the rated capacity or by what remained.
pub proof fn law_capacity_is_the_largest_seen(opts: Options, turns: Seq<Turn>, sn: Seq<char>)
    ensures
        device_of(after_turns(unused(opts), turns), sn).capacity_uah == largest_hint(turns, sn),
    decreases turns.len(),
{
    if turns.len() > 0 {
        let before = after_turns(unused(opts), turns.drop_last());
        law_capacity_is_the_largest_seen(opts, turns.drop_last(), sn);
        if subject(turns.last()) != sn {
            law_turns_leave_other_devices_alone(before, turns.last(), sn);
        }
    }
}

// --- The decision ---
/// When nothing holds, the offset of a device becomes its estimate, whichever its
/// sign; beyond the ceiling it becomes the ceiling with the sign of the estimate.
pub proof fn law_offset_follows_the_estimate(
    opts: Options,
    dev: DeviceState,
    fit: Fit,
    peer: Option<PeerModel>,
)
    requires
        hold_of(opts, dev, Some(fit), peer) is Clear,
    ensures
        ({
            let offset = offset_of(opts, dev, Some(fit), peer);
            let max = opts.max_offset_na;
            &&& -max <= fit.slope <= max ==> offset == fit.slope
            &&& fit.slope > max ==> offset == max
            &&& fit.slope < -max ==> offset == -max
        }),
{
}

/// An estimate and its opposite are answered with opposite offsets.
pub proof fn law_offset_is_odd(
    opts: Options,
    dev: DeviceState,
    fit: Fit,
    back: Fit,
    peer: Option<PeerModel>,
)
    requires
        hold_of(opts, dev, Some(fit), peer) is Clear,
        back.slope == -fit.slope,
        back.stderr == fit.stderr,
    ensures
        offset_of(opts, dev, Some(back), peer) == -offset_of(opts, dev, Some(fit), peer),
{
}

/// Whether a device has been watched for long enough: for the minimum span, and
/// until its capacity, spread over the window, is no more than the error allowed.
/// Without a capacity or a window nothing is long enough.
pub open spec fn watched_enough(opts: Options, dev: DeviceState) -> bool {
    let window = if dev.span_us <= opts.tau_secs * 1_000_000 {
        dev.span_us as int
    } else {
        opts.tau_secs * 1_000_000
    };
    &&& dev.span_us >= opts.min_span_secs * 1_000_000
    &&& dev.capacity_uah > 0
    &&& window > 0
    &&& dev.capacity_uah * 3_600_000_000_000 <= opts.max_anchor_error_na * window
}

/// What holds the correction of a device: the lack of a fit before all, then too
/// short a watch, then noise, then a peer.
pub proof fn law_reasons_to_hold(
    opts: Options,
    dev: DeviceState,
    fit: Option<Fit>,
    peer: Option<PeerModel>,
)
    ensures
        ({
            let hold = hold_of(opts, dev, fit, peer);
            let ready = fit is Some && watched_enough(opts, dev);
            let quiet = fit is Some && fit->Some_0.stderr <= opts.max_stderr_na;
            let agreed = peer is None || peer->Some_0.disagreement_na
                <= opts.peer_max_disagreement_na;
            &&& hold is NoFit <==> fit is None
            &&& hold is Warmup <==> fit is Some && !ready
            &&& hold is Noisy <==> ready && !quiet
            &&& hold is PeerDisagreement <==> ready && quiet && !agreed
            &&& hold is Clear <==> ready && quiet && agreed
            &&& !(hold is Clear) ==> offset_of(opts, dev, fit, peer) == dev.applied_na
        }),
{
    lemma_bound(dev.capacity_uah, dev.span_us, opts.tau_secs, opts.max_anchor_error_na);
}

proof fn lemma_bound(capacity_uah: u64, span_us: u64, tau_secs: u64, max: u64)
    ensures
        ({
            let window = if span_us <= tau_secs * 1_000_000 {
                span_us as int
            } else {
                tau_secs * 1_000_000
            };
            let charge = capacity_uah * 3_600_000_000_000;
            match anchor_bound(capacity_uah, span_us, tau_secs) {
                None => capacity_uah == 0 || window == 0,
                Some(a) => {
                    &&& capacity_uah > 0 && window > 0
                    &&& (a - 1) * window < charge <= a * window
                    &&& a <= max <==> charge <= max * window
                },
            }
        }),
{
    let window = if span_us <= tau_secs * 1_000_000 {
        span_us as int
    } else {
        tau_secs * 1_000_000
    };
    let charge = capacity_uah * 3_600_000_000_000;
    if let Some(a) = anchor_bound(capacity_uah, span_us, tau_secs) {
        assert((a - 1) * window < charge <= a * window) by (nonlinear_arith)
            requires
                a == (charge + window - 1) / window,
                window > 0,
        ;
        assert(a <= max <==> charge <= max * window) by (nonlinear_arith)
            requires
                (a - 1) * window < charge <= a * window,
                window > 0,
        ;
    }
}

/// The bound on the error is the smallest current that would move the whole
/// capacity within the window. Nothing bounds the error without a capacity or a
/// window.
pub proof fn law_anchor_bound(capacity_uah: u64, span_us: u64, tau_secs: u64)
    ensures
        ({
            let window = if span_us <= tau_secs * 1_000_000 {
                span_us as int
            } else {
                tau_secs * 1_000_000
            };
            let charge = capacity_uah * 3_600_000_000_000;
            match anchor_bound(capacity_uah, span_us, tau_secs) {
                None => capacity_uah == 0 || window == 0,
                Some(a) => capacity_uah > 0 && window > 0 && (a - 1) * window < charge <= a * window,
            }
        }),
{
    lemma_bound(capacity_uah, span_us, tau_secs, 0);
}

/// A decision about a device sets its offset, its hold and its peer report, and
/// nothing else. A device that has not been observed gets no decision.
pub proof fn law_decisions_touch_one_device(
    m: CalibratorModel,
    sn: Seq<char>,
    fit: Option<Fit>,
    peers: Seq<PeerFit>,
)
    ensures
        ({
            let next = settled(m, sn, fit, peers);
            let own = if fit is Some {
                Some(fit->Some_0.slope)
            } else {
                None
            };
            let peer = peer_verdict(m.opts, sn, own, peers);
            &&& !m.devices.dom().contains(sn) ==> next == m
            &&& m.devices.dom().contains(sn) ==> {
                let a = m.devices[sn];
                let b = next.devices[sn];
                &&& next.devices.dom() == m.devices.dom()
                &&& b.applied_na == offset_of(m.opts, a, fit, peer)
                &&& b.x_us == a.x_us && b.span_us == a.span_us && b.capacity_uah == a.capacity_uah
                &&& b.cum_net == a.cum_net && b.cum_bal == a.cum_bal
                &&& next.live.dom().contains(sn)
                &&& next.live[sn].hold == hold_of(m.opts, a, fit, peer)
                &&& next.live[sn].peer == peer
                &&& next.live[sn].last == frame_before(m, sn)
                &&& forall|k: Seq<char>|
                    k != sn && #[trigger] m.devices.dom().contains(k) ==> next.devices[k]
                        == m.devices[k]
                &&& forall|k: Seq<char>|
                    k != sn ==> (#[trigger] next.live.dom().contains(k) <==> m.live.dom().contains(
                        k,
                    ))
                &&& forall|k: Seq<char>|
                    k != sn && #[trigger] m.live.dom().contains(k) ==> next.live[k] == m.live[k]
                &&& next.pair_live == m.pair_live && next.opts == m.opts
            }
        }),
{
    if m.devices.dom().contains(sn) {
        assert(settled(m, sn, fit, peers).devices.dom() =~= m.devices.dom());
    }
}

/// The codes of the holds.
pub proof fn law_hold_codes(h: Hold)
    ensures
        h is Clear ==> hold_code(h) == 0,
        h is Warmup ==> hold_code(h) == 1,
        h is NoFit ==> hold_code(h) == 2,
        h is Noisy ==> hold_code(h) == 3,
        h is PeerDisagreement ==> hold_code(h) == 4,
{
}

/// The production values: sixty days of memory, a week of warmup, corrections to
/// within 50 mA and of at most half an ampere.
pub proof fn law_production_values()
    ensures
        ({
            let o = Options::standard();
            &&& o.tau_secs == 60 * 86_400
            &&& o.min_span_secs == 7 * 86_400
            &&& o.max_anchor_error_na == 50 * 1_000_000
            &&& o.max_offset_na == 500 * 1_000_000
            &&& o.max_stderr_na == 50 * 1_000_000
            &&& o.max_gap_secs == 15 * 60
            &&& o.peer_max_skew_secs == 2 * 60
            &&& o.peer_tau_secs == 7 * 86_400
            &&& o.peer_min_weight == 500 * 1_000
            &&& o.peer_slope_tolerance == 200 * 1_000_000
            &&& o.peer_min_r2 == 800 * 1_000_000
            &&& o.peer_max_disagreement_na == 250 * 1_000_000
        }),
{
}

// --- The integrals ---
/// A number held between the ends of its range.
pub open spec fn held(v: int) -> int {
    if v > 0x7fff_ffff_ffff_ffff_ffff_ffff_ffff_ffff {
        0x7fff_ffff_ffff_ffff_ffff_ffff_ffff_ffff
    } else if v < -0x8000_0000_0000_0000_0000_0000_0000_0000 {
        -0x8000_0000_0000_0000_0000_0000_0000_0000
    } else {
        v
    }
}

/// A time held below the end of its range.
pub open spec fn held_time(v: int) -> int {
    if v > 0xffff_ffff_ffff_ffff {
        0xffff_ffff_ffff_ffff
    } else {
        v
    }
}

/// The time that a frame counts for (microseconds).
pub open spec fn frame_time(last: Option<LastFrame>, s: Sample, opts: Options) -> int {
    match last {
        Some(f) => time_between(f.at_us, s.now_us, opts.max_gap_secs),
        None => 0,
    }
}

/// Twice what a frame adds to the integral of the current.
pub open spec fn current_added(last: Option<LastFrame>, s: Sample, opts: Options) -> int {
    match last {
        Some(f) => (f.current_ma + s.current_ma) * frame_time(last, s, opts),
        None => 0,
    }
}

/// Twice what a frame adds to the integral of the bleed: both ends count, none
/// below zero, and nothing is added where either is missing.
pub open spec fn bleed_added(last: Option<LastFrame>, s: Sample, opts: Options) -> int {
    match last {
        Some(f) => match (f.balance_ma, s.balance_ma) {
            (Some(a), Some(b)) => (above_zero(a as int) + above_zero(b as int)) * frame_time(
                last,
                s,
                opts,
            ),
            _ => 0,
        },
        None => 0,
    }
}

/// Whether `c` is the largest of what was known of the capacity, what a frame says
/// of it and what a frame says remains.
pub open spec fn largest_capacity(before: u64, s: Sample, c: u64) -> bool {
    &&& c >= before
    &&& s.capacity_uah is Some ==> c >= s.capacity_uah->Some_0
    &&& s.remaining_uah is Some ==> c >= s.remaining_uah->Some_0
    &&& c == before || s.capacity_uah == Some(c) || s.remaining_uah is Some
        && s.remaining_uah->Some_0 == c
}

/// Whether a frame takes a device from `a` to `b`: the integrals grow by the mean
/// of both readings times the time that counts, the times grow by that time, and
/// the offset stays. The origin of the fit moves up once the device has run for
/// fifty windows, to one window behind the last point.
pub open spec fn frame_steps(
    a: DeviceState,
    b: DeviceState,
    last: Option<LastFrame>,
    s: Sample,
    opts: Options,
) -> bool {
    let t = frame_time(last, s, opts);
    let x = held_time(a.x_us + t);
    &&& b.cum_net == held(a.cum_net + current_added(last, s, opts))
    &&& b.cum_bal == held(a.cum_bal + bleed_added(last, s, opts))
    &&& b.span_us == held_time(a.span_us + t)
    &&& b.x_us == (if t > 0 && s.remaining_uah is Some && x > opts.tau_secs * 50_000_000 {
        opts.tau_secs * 1_000_000
    } else {
        x
    })
    &&& b.applied_na == a.applied_na
    &&& largest_capacity(a.capacity_uah, s, b.capacity_uah)
}

/// A frame steps a device as it should.
pub proof fn law_frames_step_devices(
    dev: DeviceState,
    last: Option<LastFrame>,
    s: Sample,
    opts: Options,
)
    ensures
        frame_steps(dev, device_stepped(dev, last, s, opts), last, s, opts),
{
    if let Some(f) = last {
        let t = frame_time(last, s, opts);
        assert(t == step_time(last, s, opts));
        if t == 0 {
            assert((f.current_ma + s.current_ma) * t == 0) by (nonlinear_arith)
                requires
                    t == 0,
            ;
            assert(bleed_added(last, s, opts) == 0) by {
                if let (Some(a), Some(b)) = (f.balance_ma, s.balance_ma) {
                    assert((above_zero(a as int) + above_zero(b as int)) * t == 0)
                        by (nonlinear_arith)
                        requires
                            t == 0,
                    ;
                }
            }
        }
    }
}

/// A frame gives the fit a point exactly when time has passed and it says what
/// remains. The point stands at the integrated time; its height is the charge
/// counted, less what the device says remains and less what bled off.
pub proof fn law_closure_points(
    dev: DeviceState,
    last: Option<LastFrame>,
    s: Sample,
    opts: Options,
)
    ensures
        ({
            let t = frame_time(last, s, opts);
            let net = held(dev.cum_net + current_added(last, s, opts));
            let bled = held(dev.cum_bal + bleed_added(last, s, opts));
            let x = held_time(dev.x_us + t);
            match closure_point(dev, last, s, opts) {
                None => last is None || t == 0 || s.remaining_uah is None,
                Some(p) => {
                    &&& last is Some && t > 0 && s.remaining_uah is Some
                    &&& p.aged_us == t
                    &&& p.x_us == x
                    &&& p.y == held(held(net - s.remaining_uah->Some_0 * 7_200_000) - bled)
                    &&& x <= opts.tau_secs * 50_000_000 ==> p.shift_us is None
                    &&& x > opts.tau_secs * 50_000_000 ==> p.shift_us is Some
                        && p.shift_us->Some_0 == x - opts.tau_secs * 1_000_000
                },
            }
        }),
{
    if let Some(f) = last {
        let t = frame_time(last, s, opts);
        assert(t == step_time(last, s, opts));
    }
}

/// Whether a device state holds nothing.
pub open spec fn nothing_observed(d: DeviceState) -> bool {
    &&& d.x_us == 0 && d.span_us == 0 && d.capacity_uah == 0
    &&& d.cum_net == 0 && d.cum_bal == 0 && d.applied_na == 0
}

/// What the calibrator knew of the last frame of a device.
pub open spec fn frame_before(m: CalibratorModel, sn: Seq<char>) -> Option<LastFrame> {
    if m.live.dom().contains(sn) {
        m.live[sn].last
    } else {
        None
    }
}

/// A frame steps the device it is of, from nothing if it is new, and becomes its
/// last frame. Other devices stay as they are, and so does what was decided.
pub proof fn law_frames_reach_one_device(m: CalibratorModel, sn: Seq<char>, s: Sample)
    ensures
        ({
            let next = frame_integrated(m, sn, s);
            let last = frame_before(m, sn);
            let l = next.live[sn];
            &&& next.devices.dom() == m.devices.dom().insert(sn)
            &&& next.live.dom() == m.live.dom().insert(sn)
            &&& m.devices.dom().contains(sn) ==> frame_steps(
                m.devices[sn],
                next.devices[sn],
                last,
                s,
                m.opts,
            )
            &&& !m.devices.dom().contains(sn) ==> exists|zero: DeviceState|
                nothing_observed(zero) && #[trigger] frame_steps(
                    zero,
                    next.devices[sn],
                    last,
                    s,
                    m.opts,
                )
            &&& l.last is Some
            &&& l.last->Some_0.at_us == s.now_us
            &&& l.last->Some_0.current_ma == s.current_ma
            &&& l.last->Some_0.balance_ma == s.balance_ma
            &&& m.live.dom().contains(sn) ==> l.hold == m.live[sn].hold && l.peer == m.live[sn].peer
            &&& !m.live.dom().contains(sn) ==> l.hold is Warmup && l.peer is None
            &&& forall|k: Seq<char>|
                k != sn && #[trigger] m.devices.dom().contains(k) ==> next.devices[k]
                    == m.devices[k]
            &&& forall|k: Seq<char>|
                k != sn && #[trigger] m.live.dom().contains(k) ==> next.live[k] == m.live[k]
            &&& next.pair_live == m.pair_live && next.opts == m.opts
        }),
{
    let next = frame_integrated(m, sn, s);
    assert(next.devices.dom() =~= m.devices.dom().insert(sn));
    assert(next.live.dom() =~= m.live.dom().insert(sn));
    law_frames_step_devices(device_of(m, sn), frame_before(m, sn), s, m.opts);
    assert(next.devices[sn] == device_stepped(device_of(m, sn), frame_before(m, sn), s, m.opts));
    if !m.devices.dom().contains(sn) {
        let zero = device_of(m, sn);
        assert(nothing_observed(zero) && frame_steps(
            zero,
            next.devices[sn],
            frame_before(m, sn),
            s,
            m.opts,
        ));
    }
}

// --- Peers ---
/// How far two numbers lie apart.
pub open spec fn apart(a: int, b: int) -> int {
    if a >= b {
        a - b
    } else {
        b - a
    }
}

/// Whether a pair fit counts: on enough samples, with a ratio near one and a good
/// fit.
pub open spec fn pair_counts(opts: Options, pair: PairFit) -> bool {
    &&& pair.weight >= opts.peer_min_weight
    &&& pair.fit is Some
    &&& apart(pair.fit->Some_0.slope as int, 1_000_000_000) <= opts.peer_slope_tolerance
    &&& pair.fit->Some_0.r2 >= opts.peer_min_r2
}

/// A peer speaks exactly when it is another device with an estimate of its own and
/// the pair fit counts. It then says by how much the zero error of the device at
/// hand exceeds that of the peer, by the pair fit, and how far that is from the
/// difference of the two estimates.
pub proof fn law_peers_speak(opts: Options, sn: Seq<char>, own_na: i64, p: PeerFit)
    ensures
        peer_says(opts, sn, own_na, p) is Some <==> p.sn@ != sn && p.estimate_na is Some
            && p.pair is Some && pair_counts(opts, p.pair->Some_0),
        peer_says(opts, sn, own_na, p) is Some ==> {
            let r = peer_says(opts, sn, own_na, p)->Some_0;
            let f = p.pair->Some_0.fit->Some_0;
            &&& r.peer_sn == p.sn@
            &&& text_before(sn, p.sn@) ==> r.relative_na == -f.intercept
            &&& !text_before(sn, p.sn@) ==> r.relative_na == f.intercept
            &&& r.slope == f.slope
            &&& r.r2 == f.r2
            &&& r.disagreement_na == apart(r.relative_na, own_na - p.estimate_na->Some_0)
        },
{
}

/// Whether the peer at `i` says `r`, no peer disagrees more, and none before it as
/// much.
pub open spec fn first_of_the_worst(
    opts: Options,
    sn: Seq<char>,
    own_na: i64,
    peers: Seq<PeerFit>,
    i: int,
    r: PeerModel,
) -> bool {
    &&& 0 <= i < peers.len()
    &&& peer_says(opts, sn, own_na, peers[i]) == Some(r)
    &&& forall|j: int|
        0 <= j < peers.len() && peer_says(opts, sn, own_na, #[trigger] peers[j]) is Some
            ==> peer_says(opts, sn, own_na, peers[j])->Some_0.disagreement_na <= r.disagreement_na
    &&& forall|j: int|
        0 <= j < i && peer_says(opts, sn, own_na, #[trigger] peers[j]) is Some ==> peer_says(
            opts,
            sn,
            own_na,
            peers[j],
        )->Some_0.disagreement_na < r.disagreement_na
}

/// Of all peers that speak, the first of those that disagree most is reported; and
/// none where no peer speaks or the device has no estimate.
pub proof fn law_first_of_the_worst_is_reported(
    opts: Options,
    sn: Seq<char>,
    own_na: i64,
    peers: Seq<PeerFit>,
)
    ensures
        peer_verdict(opts, sn, None, peers) is None,
        peer_verdict(opts, sn, Some(own_na), peers) is None ==> forall|i: int|
            0 <= i < peers.len() ==> peer_says(opts, sn, own_na, #[trigger] peers[i]) is None,
        peer_verdict(opts, sn, Some(own_na), peers) is Some ==> exists|i: int| #[trigger]
            first_of_the_worst(
                opts,
                sn,
                own_na,
                peers,
                i,
                peer_verdict(opts, sn, Some(own_na), peers)->Some_0,
            ),
    decreases peers.len(),
{
    if peers.len() > 0 {
        let head = peers.drop_last();
        let n = peers.len() - 1;
        law_first_of_the_worst_is_reported(opts, sn, own_na, head);
        assert forall|i: int| 0 <= i < n implies head[i] == #[trigger] peers[i] by {}
        let before = peer_verdict(opts, sn, Some(own_na), head);
        let said = peer_says(opts, sn, own_na, peers[n]);
        if before is Some {
            let w = before->Some_0;
            let i = choose|i: int| #[trigger] first_of_the_worst(opts, sn, own_na, head, i, w);
            assert forall|j: int|
                0 <= j < n && peer_says(opts, sn, own_na, #[trigger] peers[j]) is Some implies {
                let d = peer_says(opts, sn, own_na, peers[j])->Some_0.disagreement_na;
                d <= w.disagreement_na && (j < i ==> d < w.disagreement_na)
            } by {
                assert(head[j] == peers[j]);
            }
            if said is Some && said->Some_0.disagreement_na > w.disagreement_na {
                assert(first_of_the_worst(opts, sn, own_na, peers, n, said->Some_0));
            } else {
                assert(head[i] == peers[i]);
                assert(first_of_the_worst(opts, sn, own_na, peers, i, w));
            }
        } else {
            assert forall|j: int| 0 <= j < n implies peer_says(
                opts,
                sn,
                own_na,
                #[trigger] peers[j],
            ) is None by {
                assert(head[j] == peers[j]);
            }
            if said is Some {
                assert(first_of_the_worst(opts, sn, own_na, peers, n, said->Some_0));
            }
        }
    }
}

/// Whether the last frame of a peer came close enough to pair with this one.
pub open spec fn close_enough(m: CalibratorModel, other: Seq<char>, now_us: u64) -> bool {
    &&& m.live.dom().contains(other)
    &&& m.live[other].last is Some
    &&& apart(m.live[other].last->Some_0.at_us as int, now_us as int)
        <= m.opts.peer_max_skew_secs * 1_000_000
}

/// A frame pairs with no one where there are no peers.
pub proof fn law_no_peers_no_points(m: CalibratorModel, sn: Seq<char>, s: Sample)
    ensures
        paired(m, sn, s, Seq::empty()).0.len() == 0,
        paired(m, sn, s, Seq::empty()).1 == m.pair_live,
{
}

/// One peer more gives one point more exactly when it is another device whose last
/// frame came close enough. The point has the current of the device that sorts
/// first as its abscissa and the other one's as its ordinate; the pair is aged by
/// the time since it was last, and from now on.
pub proof fn law_each_peer_gives_one_point(
    m: CalibratorModel,
    sn: Seq<char>,
    s: Sample,
    others: Seq<Seq<char>>,
    other: Seq<char>,
)
    ensures
        ({
            let (points, ages) = paired(m, sn, s, others);
            let (more, next) = paired(m, sn, s, others.push(other));
            let theirs = m.live[other].last->Some_0.current_ma;
            let first = text_before(sn, other);
            let key = if first {
                sn + seq!['|'] + other
            } else {
                other + seq!['|'] + sn
            };
            &&& other == sn || !close_enough(m, other, s.now_us) ==> more == points && next == ages
            &&& other != sn && close_enough(m, other, s.now_us) ==> {
                let p = more.last();
                &&& more.len() == points.len() + 1
                &&& more.drop_last() == points
                &&& p.key == key
                &&& first ==> p.x_ma == s.current_ma && p.y_ma == theirs
                &&& !first ==> p.x_ma == theirs && p.y_ma == s.current_ma
                &&& p.aged_us is Some <==> ages.dom().contains(key)
                &&& ages.dom().contains(key) ==> p.aged_us->Some_0 == above_zero(
                    s.now_us - ages[key],
                )
                &&& next == ages.insert(key, s.now_us)
            }
        }),
{
    reveal_strlit("|");
    assert("|"@ =~= seq!['|']);
    assert(others.push(other).drop_last() =~= others);
    assert(others.push(other).last() == other);
    let (points, ages) = paired(m, sn, s, others);
    let (more, next) = paired(m, sn, s, others.push(other));
    if other != sn && close_enough(m, other, s.now_us) {
        assert(more.drop_last() =~= points);
    }
}

/// Of two rows for one serial, the later one is taken from a snapshot.
pub proof fn law_later_rows_win(rows: Seq<StoredDevice>, allowed: Seq<String>, row: StoredDevice)
    ensures
        ({
            let before = readmitted(rows, allowed);
            let after = readmitted(rows.push(row), allowed);
            let admitted = exists|i: int| 0 <= i < allowed.len() && (#[trigger] allowed[i])@ == row.sn@;
            &&& admitted ==> after.dom() == before.dom().insert(row.sn@) && after[row.sn@]
                == row.state
            &&& !admitted ==> after == before
            &&& forall|k: Seq<char>|
                k != row.sn@ && #[trigger] before.dom().contains(k) ==> after.dom().contains(k)
                    && after[k] == before[k]
        }),
{
    assert(rows.push(row).drop_last() =~= rows);
    assert(rows.push(row).last() == row);
    let before = readmitted(rows, allowed);
    let after = readmitted(rows.push(row), allowed);
    if lists(allowed, row.sn@) {
        assert(after.dom() =~= before.dom().insert(row.sn@));
    }
}

/// A key names what stands between its bars: it is admitted exactly when its first
/// name is on the list and so is every other.
pub proof fn law_every_name_of_a_key_counts(
    first: Seq<char>,
    rest: Seq<char>,
    allowed: Seq<String>,
)
    requires
        !first.contains('|'),
    ensures
        names_listed(first, allowed) <==> exists|i: int|
            0 <= i < allowed.len() && (#[trigger] allowed[i])@ == first,
        names_listed(first + seq!['|'] + rest, allowed) <==> names_listed(first, allowed)
            && names_listed(rest, allowed),
{
    lemma_no_bar(first);
    let key = first + seq!['|'] + rest;
    lemma_bar_after(first, rest);
    assert(key.take(first.len() as int) =~= first);
    assert(key.skip(first.len() as int + 1) =~= rest);
}

proof fn lemma_no_bar(text: Seq<char>)
    requires
        !text.contains('|'),
    ensures
        first_bar(text) == text.len(),
    decreases text.len(),
{
    if text.len() > 0 {
        assert(text.contains(text[0]));
        let rest = text.drop_first();
        if rest.contains('|') {
            let i = choose|i: int| 0 <= i < rest.len() && rest[i] == '|';
            assert(text[i + 1] == '|');
        }
        lemma_no_bar(rest);
    }
}

proof fn lemma_bar_after(first: Seq<char>, rest: Seq<char>)
    requires
        !first.contains('|'),
    ensures
        first_bar(first + seq!['|'] + rest) == first.len(),
    decreases first.len(),
{
    let key = first + seq!['|'] + rest;
    if first.len() == 0 {
        assert(key[0] == '|');
    } else {
        assert(first.contains(first[0]));
        let tail = first.drop_first();
        if tail.contains('|') {
            let i = choose|i: int| 0 <= i < tail.len() && tail[i] == '|';
            assert(first[i + 1] == '|');
        }
        lemma_bar_after(tail, rest);
        assert(key.drop_first() =~= tail + seq!['|'] + rest);
    }
}

} // verus!
