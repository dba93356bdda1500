//! What the configuration checks keep, replace, report and let through.

use vstd::prelude::*;

use crate::config::{warning, Config, ConfigWarning};

verus! {

// --- Knobs ---
/// Whether a knob is a number above zero.
pub open spec fn above_nothing(v: Option<i64>) -> bool {
    v is Some && v->Some_0 > 0
}

/// Whether two knobs are the ends of a window.
pub open spec fn opens(min: Option<i64>, max: Option<i64>) -> bool {
    min is Some && max is Some && min->Some_0 < max->Some_0
}

/// A check keeps every knob that is in range and replaces every other one by its
/// default, the two ends of the voltage window together. Knobs that have no range
/// are kept.
pub proof fn law_knobs_are_kept_or_replaced(c: Config)
    ensures
        ({
            let now = c.in_range();
            let secs = c.coulomb_state_min_interval_secs;
            &&& secs == 0 || secs > 3600 ==> now.coulomb_state_min_interval_secs == 5
            &&& 1 <= secs <= 3600 ==> now.coulomb_state_min_interval_secs == secs
            &&& above_nothing(c.max_plausible_current_ma) ==> now.max_plausible_current_ma
                == c.max_plausible_current_ma
            &&& !above_nothing(c.max_plausible_current_ma) ==> now.max_plausible_current_ma is Some
                && now.max_plausible_current_ma->Some_0 == 100 * 1000
            &&& opens(c.min_plausible_pack_mv, c.max_plausible_pack_mv)
                ==> now.min_plausible_pack_mv == c.min_plausible_pack_mv
                && now.max_plausible_pack_mv == c.max_plausible_pack_mv
            &&& !opens(c.min_plausible_pack_mv, c.max_plausible_pack_mv)
                ==> now.min_plausible_pack_mv is Some && now.min_plausible_pack_mv->Some_0 == 18
                * 1000 && now.max_plausible_pack_mv is Some && now.max_plausible_pack_mv->Some_0
                == 34 * 1000
            &&& above_nothing(c.max_frame_mah) ==> now.max_frame_mah == c.max_frame_mah
            &&& !above_nothing(c.max_frame_mah) ==> now.max_frame_mah is Some
                && now.max_frame_mah->Some_0 == 25 * 1000
            &&& above_nothing(c.max_frame_mwh) ==> now.max_frame_mwh == c.max_frame_mwh
            &&& !above_nothing(c.max_frame_mwh) ==> now.max_frame_mwh is Some
                && now.max_frame_mwh->Some_0 == 900 * 1000
            &&& now.listen == c.listen && now.metrics_path == c.metrics_path
            &&& now.log_level == c.log_level && now.allowed_serials == c.allowed_serials
            &&& now.max_body_bytes == c.max_body_bytes
            &&& now.request_timeout_secs == c.request_timeout_secs
            &&& now.coulomb_max_gap_secs == c.coulomb_max_gap_secs
            &&& now.max_devices == c.max_devices
            &&& now.coulomb_state_path == c.coulomb_state_path
        }),
{
}

// --- Warnings ---
/// The highest current that passes a check (mA).
pub open spec fn highest_current(c: Config) -> int {
    if above_nothing(c.max_plausible_current_ma) {
        c.max_plausible_current_ma->Some_0 as int
    } else {
        100_000
    }
}

/// The highest voltage that passes a check (mV).
pub open spec fn highest_voltage(c: Config) -> int {
    if opens(c.min_plausible_pack_mv, c.max_plausible_pack_mv) {
        c.max_plausible_pack_mv->Some_0 as int
    } else {
        34_000
    }
}

/// The charge ceiling that a check leaves (mAh).
pub open spec fn charge_ceiling(c: Config) -> int {
    if above_nothing(c.max_frame_mah) {
        c.max_frame_mah->Some_0 as int
    } else {
        25_000
    }
}

/// Whether a configuration calls for a warning: for each knob that is replaced, with
/// the value it had; for a charge ceiling below what the highest current carries
/// through the longest gap; and for an energy ceiling below what it carries there at
/// the highest voltage.
pub open spec fn called_for(c: Config, w: ConfigWarning) -> bool {
    let gap = c.coulomb_max_gap_secs;
    match w {
        ConfigWarning::WriteInterval { secs } => secs == c.coulomb_state_min_interval_secs && (secs
            == 0 || secs > 3600),
        ConfigWarning::PlausibleCurrent { value } => value == c.max_plausible_current_ma
            && !above_nothing(value),
        ConfigWarning::PackWindow { min, max } => min == c.min_plausible_pack_mv && max
            == c.max_plausible_pack_mv && !opens(min, max),
        ConfigWarning::FrameAmpHours { value } => value == c.max_frame_mah && !above_nothing(value),
        ConfigWarning::LowFrameAmpHours { ceiling } => ceiling is Some && ceiling->Some_0
            == charge_ceiling(c) && charge_ceiling(c) * 3600 < highest_current(c) * gap,
        ConfigWarning::LowFrameWattHours { ceiling } => ceiling is Some && ceiling
            == c.max_frame_mwh && ceiling->Some_0 * 3_600_000 < highest_current(c) * gap
            * highest_voltage(c),
        ConfigWarning::FrameWattHours { value } => value == c.max_frame_mwh && !above_nothing(
            value,
        ),
    }
}

/// Where a warning comes in the list.
pub open spec fn turn(w: ConfigWarning) -> int {
    match w {
        ConfigWarning::WriteInterval { .. } => 1,
        ConfigWarning::PlausibleCurrent { .. } => 2,
        ConfigWarning::PackWindow { .. } => 3,
        ConfigWarning::FrameAmpHours { .. } => 4,
        ConfigWarning::LowFrameAmpHours { .. } => 5,
        ConfigWarning::LowFrameWattHours { .. } => 6,
        ConfigWarning::FrameWattHours { .. } => 7,
    }
}

/// Whether warnings come in order, none twice, and all before a given turn.
#[verifier::opaque]
pub open spec fn in_turn(ws: Seq<ConfigWarning>, before: int) -> bool {
    &&& forall|i: int, j: int|
        0 <= i < j < ws.len() ==> turn(#[trigger] ws[i]) < turn(#[trigger] ws[j])
    &&& forall|i: int| 0 <= i < ws.len() ==> turn(#[trigger] ws[i]) < before
}

proof fn lemma_one_more(
    ws: Seq<ConfigWarning>,
    applies: bool,
    w: ConfigWarning,
    x: ConfigWarning,
)
    requires
        in_turn(ws, turn(w)),
    ensures
        in_turn(ws + warning(applies, w), turn(w) + 1),
        (ws + warning(applies, w)).contains(x) <==> ws.contains(x) || applies && x == w,
{
    reveal(in_turn);
    let more = ws + warning(applies, w);
    if applies {
        assert(more =~= ws.push(w));
        assert(more[ws.len() as int] == w);
        if ws.contains(x) {
            let i = choose|i: int| 0 <= i < ws.len() && ws[i] == x;
            assert(more[i] == x);
        }
        if more.contains(x) && x != w {
            let i = choose|i: int| 0 <= i < more.len() && more[i] == x;
            assert(ws[i] == x);
        }
    } else {
        assert(more =~= ws);
    }
}

/// A check gives exactly the warnings that are called for, each once, in order.
pub proof fn law_warnings_are_called_for(c: Config, x: ConfigWarning)
    ensures
        c.warnings().contains(x) <==> called_for(c, x),
        in_turn(c.warnings(), 8),
{
    let now = c.in_range();
    law_knobs_are_kept_or_replaced(c);
    let current = highest_current(c);
    let gap = c.coulomb_max_gap_secs as int;
    let volts = highest_voltage(c);
    let secs = c.coulomb_state_min_interval_secs;
    let none = Seq::<ConfigWarning>::empty();
    let a1 = !(1 <= secs <= 3600);
    let w1 = ConfigWarning::WriteInterval { secs };
    let a2 = !above_nothing(c.max_plausible_current_ma);
    let w2 = ConfigWarning::PlausibleCurrent { value: c.max_plausible_current_ma };
    let a3 = !opens(c.min_plausible_pack_mv, c.max_plausible_pack_mv);
    let w3 = ConfigWarning::PackWindow {
        min: c.min_plausible_pack_mv,
        max: c.max_plausible_pack_mv,
    };
    let a4 = !above_nothing(c.max_frame_mah);
    let w4 = ConfigWarning::FrameAmpHours { value: c.max_frame_mah };
    let a5 = charge_ceiling(c) * 3600 < current * gap;
    let w5 = ConfigWarning::LowFrameAmpHours { ceiling: now.max_frame_mah };
    let a6 = c.max_frame_mwh is Some && c.max_frame_mwh->Some_0 * 3_600_000 < current * gap * volts;
    let w6 = ConfigWarning::LowFrameWattHours { ceiling: c.max_frame_mwh };
    let a7 = !above_nothing(c.max_frame_mwh);
    let w7 = ConfigWarning::FrameWattHours { value: c.max_frame_mwh };
    let s1 = warning(a1, w1);
    assert(none + s1 =~= s1);
    assert(in_turn(none, 1)) by {
        reveal(in_turn);
    }
    lemma_one_more(none, a1, w1, x);
    let s2 = s1 + warning(a2, w2);
    lemma_one_more(s1, a2, w2, x);
    let s3 = s2 + warning(a3, w3);
    lemma_one_more(s2, a3, w3, x);
    let s4 = s3 + warning(a4, w4);
    lemma_one_more(s3, a4, w4, x);
    let s5 = s4 + warning(a5, w5);
    lemma_one_more(s4, a5, w5, x);
    let s6 = s5 + warning(a6, w6);
    lemma_one_more(s5, a6, w6, x);
    let s7 = s6 + warning(a7, w7);
    lemma_one_more(s6, a7, w7, x);
    assert(s7 == c.warnings());
}

// --- Serials ---
/// A serial is accepted exactly when it has one to 64 characters, all of them ASCII
/// letters or digits, and no list that holds anything leaves it out.
pub proof fn law_accepted_serials(c: Config, sn: Seq<char>)
    ensures
        c.accepts(sn) <==> {
            &&& sn.len() >= 1
            &&& sn.len() <= 64
            &&& forall|i: int|
                0 <= i < sn.len() ==> '0' <= #[trigger] sn[i] <= '9' || 'A' <= sn[i] <= 'Z' || 'a'
                    <= sn[i] <= 'z'
            &&& c.allowed_serials is Some && c.allowed_serials->Some_0@.len() > 0 ==> exists|
                i: int,
            |
                0 <= i < c.allowed_serials->Some_0@.len()
                    && (#[trigger] c.allowed_serials->Some_0@[i])@ == sn
        },
{
}

// --- Derived knobs ---
/// Whether a ceiling carried over: none from none, and nothing from below zero.
pub open spec fn carried(v: Option<i64>, max: Option<u64>) -> bool {
    match v {
        Some(n) => max is Some && max->Some_0 == (if n > 0 {
            n as int
        } else {
            0
        }),
        None => max is None,
    }
}

/// The knobs of the metrics are those of the configuration; the state is persisted
/// exactly when it has a path.
pub proof fn law_knobs_carry_over(c: Config)
    ensures
        ({
            let o = c.metrics_options();
            &&& o.coulomb_max_gap_secs == c.coulomb_max_gap_secs
            &&& o.max_devices == c.max_devices
            &&& o.persist_state <==> c.coulomb_state_path is Some
            &&& o.state_min_interval_secs == c.coulomb_state_min_interval_secs
            &&& o.plausibility.max_current_ma == c.max_plausible_current_ma
            &&& o.plausibility.pack_mv.0 == c.min_plausible_pack_mv
            &&& o.plausibility.pack_mv.1 == c.max_plausible_pack_mv
            &&& c.limits() == o.plausibility
            &&& carried(c.max_frame_mah, o.max_frame_mah)
            &&& carried(c.max_frame_mwh, o.max_frame_mwh)
        }),
{
}

/// What is used where nothing is configured.
pub proof fn law_standard_configuration(c: Config)
    ensures
        c.is_standard() <==> {
            &&& c.listen@ == "0.0.0.0:8080"@
            &&& c.metrics_path@ == "/metrics"@
            &&& c.log_level@ == "info"@
            &&& c.allowed_serials is None
            &&& c.max_body_bytes == 64 * 1024
            &&& c.request_timeout_secs == 10
            &&& c.coulomb_max_gap_secs == 15 * 60
            &&& c.max_devices == 64
            &&& c.coulomb_state_path is None
            &&& c.max_plausible_current_ma is Some && c.max_plausible_current_ma->Some_0 == 100
                * 1000
            &&& c.min_plausible_pack_mv is Some && c.min_plausible_pack_mv->Some_0 == 18 * 1000
            &&& c.max_plausible_pack_mv is Some && c.max_plausible_pack_mv->Some_0 == 34 * 1000
            &&& c.max_frame_mah is Some && c.max_frame_mah->Some_0 == 25 * 1000
            &&& c.max_frame_mwh is Some && c.max_frame_mwh->Some_0 == 900 * 1000
            &&& c.coulomb_state_min_interval_secs == 5
        },
{
}

} // verus!
