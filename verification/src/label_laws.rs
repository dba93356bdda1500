//! What the texts of labels and the tables of the families say.

use vstd::prelude::*;
use vstd::utf8::*;

use crate::families::{padded, Family};
use crate::text::{bytes_before, decimal_digits, digit_char, text_before};

verus! {

// --- Numbers ---
/// The number that a text of decimal digits writes.
pub open spec fn number_of(digits: Seq<char>) -> int
    decreases digits.len(),
{
    if digits.len() == 0 {
        0
    } else {
        10 * number_of(digits.drop_last()) + (digits.last() as int - '0' as int)
    }
}

/// Decimal digits read back as the number they were made of; there is nothing but
/// digits, and no zero in front of another digit.
pub proof fn law_digits_read_back(n: nat)
    ensures
        number_of(decimal_digits(n)) == n,
        decimal_digits(n).len() >= 1,
        forall|i: int|
            0 <= i < decimal_digits(n).len() ==> '0' <= #[trigger] decimal_digits(n)[i] <= '9',
        decimal_digits(n).len() > 1 ==> decimal_digits(n)[0] != '0',
        decimal_digits(n)[0] == '0' ==> n == 0,
    decreases n,
{
    reveal_with_fuel(number_of, 2);
    if n < 10 {
        assert(decimal_digits(n).drop_last() =~= Seq::<char>::empty());
    } else {
        law_digits_read_back(n / 10);
        let head = decimal_digits(n / 10);
        assert(decimal_digits(n) == head.push(digit_char(n % 10)));
        assert(head.push(digit_char(n % 10)).drop_last() =~= head);
        assert(decimal_digits(n)[0] == head[0]);
    }
}

/// The label of a cell or sensor writes its number in at least two digits: one zero in
/// front of a number below ten, and none in front of any other.
pub proof fn law_padded_labels(n: u32)
    ensures
        number_of(padded(n)) == n,
        padded(n).len() >= 2,
        n < 10 ==> padded(n).len() == 2 && padded(n)[0] == '0',
        n >= 10 ==> padded(n)[0] != '0',
        forall|i: int| 0 <= i < padded(n).len() ==> '0' <= #[trigger] padded(n)[i] <= '9',
{
    law_digits_read_back(n as nat);
    if n < 10 {
        reveal_with_fuel(number_of, 3);
        assert(padded(n) =~= seq!['0', digit_char(n as nat)]);
        assert(padded(n).drop_last() =~= seq!['0']);
        assert(seq!['0'].drop_last() =~= Seq::<char>::empty());
    } else if decimal_digits(n as nat).len() == 1 {
        reveal_with_fuel(number_of, 2);
        assert(decimal_digits(n as nat).drop_last() =~= Seq::<char>::empty());
    }
}

// --- Order ---
/// Whether two byte strings part at `n`: they agree before, and there the first one
/// ends or has the smaller byte.
pub open spec fn part_at(a: Seq<u8>, b: Seq<u8>, n: int) -> bool {
    &&& 0 <= n < b.len()
    &&& n <= a.len()
    &&& forall|i: int| 0 <= i < n ==> #[trigger] a[i] == b[i]
    &&& n == a.len() || a[n] < b[n]
}

/// A text sorts before another exactly when, where their bytes part, it ends or has
/// the smaller byte.
pub proof fn law_text_order(a: Seq<char>, b: Seq<char>)
    ensures
        text_before(a, b) <==> exists|n: int| #[trigger] part_at(encode_utf8(a), encode_utf8(b), n),
{
    lemma_byte_order(encode_utf8(a), encode_utf8(b));
}

proof fn lemma_byte_order(a: Seq<u8>, b: Seq<u8>)
    ensures
        bytes_before(a, b) <==> exists|n: int| #[trigger] part_at(a, b, n),
    decreases a.len(),
{
    if b.len() == 0 {
    } else if a.len() == 0 {
        assert(part_at(a, b, 0));
    } else if a[0] != b[0] {
        if a[0] < b[0] {
            assert(part_at(a, b, 0));
        } else if exists|n: int| #[trigger] part_at(a, b, n) {
            let n = choose|n: int| #[trigger] part_at(a, b, n);
            if n > 0 {
                assert(a[0] == b[0]);
            }
        }
    } else {
        let x = a.drop_first();
        let y = b.drop_first();
        lemma_byte_order(x, y);
        if bytes_before(x, y) {
            let n = choose|n: int| #[trigger] part_at(x, y, n);
            assert forall|i: int| 0 <= i < n + 1 implies #[trigger] a[i] == b[i] by {
                if i > 0 {
                    assert(x[i - 1] == y[i - 1]);
                }
            }
            if n < x.len() {
                assert(x[n] == a[n + 1] && y[n] == b[n + 1]);
            }
            assert(part_at(a, b, n + 1));
        }
        if exists|n: int| #[trigger] part_at(a, b, n) {
            let n = choose|n: int| #[trigger] part_at(a, b, n);
            assert(n > 0);
            assert forall|i: int| 0 <= i < n - 1 implies #[trigger] x[i] == y[i] by {
                assert(a[i + 1] == b[i + 1]);
            }
            assert(part_at(x, y, n - 1));
        }
    }
}

// --- Families ---
/// Cell voltages are read in thousandths; voltages of the pack, currents, capacities
/// and the state of charge in tenths; temperatures and everything else in units.
pub proof fn law_scales(f: Family)
    ensures
        f.scale_of() is Thousandths <==> {
            ||| f is CellVoltage || f is CellVoltageMax || f is CellVoltageMin
            ||| f is CellVoltageAvg || f is CellVoltageDelta || f is CellReferenceVoltage
            ||| f is CellVoltageHighLimit || f is CellVoltageLowLimit
        },
        f.scale_of() is Tenths <==> {
            ||| f is PackVoltage || f is PackVoltageHighLimit || f is PackVoltageLowLimit
            ||| f is Current || f is BalanceCurrent || f is ConfigBalanceCurrent
            ||| f is ChargeOvercurrentLimit || f is DischargeOvercurrentLimit
            ||| f is RemainingCapacity || f is RatedCapacity || f is Soc
        },
{
}

/// Which families are counters, and which show whole numbers.
pub proof fn law_kinds(f: Family)
    ensures
        f.kind_of() is Counter <==> {
            ||| f is ChargeAmpHours || f is DischargeAmpHours
            ||| f is ChargeWattHours || f is DischargeWattHours
        },
        f.kind_of() is IntCounter <==> {
            ||| f is HttpRequests || f is FramesDecoded || f is FramesDropped
            ||| f is CoulombSamplesRejected || f is StateWriteErrors
        },
        f.kind_of() is IntGauge <==> {
            ||| f is ChargeCycles || f is ChargeMos || f is DischargeMos || f is BalancerActive
            ||| f is BalancingCellCount || f is AlarmBits || f is Alarm || f is BalanceEnable
            ||| f is DeviceInfo
        },
{
}

/// The labels of a family: telemetry has the serial first, and a second label where a
/// device has several series; the exporter's own families have none of the serial.
pub proof fn law_label_names(f: Family)
    ensures
        ({
            let l = f.label_texts();
            let threshold = f is CellVoltageHighLimit || f is CellVoltageLowLimit
                || f is PackVoltageHighLimit || f is PackVoltageLowLimit
                || f is ChargeOvercurrentLimit || f is DischargeOvercurrentLimit
                || f is ChargeTempHighLimit || f is ChargeTempLowLimit
                || f is DischargeTempHighLimit;
            let own = f is HttpRequests || f is FramesDecoded || f is FramesDropped
                || f is CoulombSamplesRejected || f is StateWriteErrors
                || f is StateLastWriteTimestamp;
            &&& !own ==> l.len() >= 1 && l[0] == "sn"@
            &&& f is CellVoltage ==> l.len() == 2 && l[1] == "cell"@
            &&& f is Temperature ==> l.len() == 2 && l[1] == "sensor"@
            &&& f is Alarm ==> l.len() == 2 && l[1] == "type"@
            &&& threshold ==> l.len() == 2 && l[1] == "level"@
            &&& f is DeviceInfo ==> l.len() == 5 && l[1] == "serial"@ && l[2] == "machine_code"@
                && l[3] == "sw_version"@ && l[4] == "hw_version"@
            &&& !own && !threshold && !(f is CellVoltage || f is Temperature || f is Alarm
                || f is DeviceInfo) ==> l.len() == 1
            &&& f is HttpRequests ==> l.len() == 2 && l[0] == "endpoint"@ && l[1] == "status"@
            &&& f is FramesDecoded ==> l.len() == 1 && l[0] == "block"@
            &&& f is FramesDropped || f is CoulombSamplesRejected ==> l.len() == 1 && l[0]
                == "reason"@
            &&& f is StateWriteErrors ==> l.len() == 1 && l[0] == "stage"@
            &&& f is StateLastWriteTimestamp ==> l.len() == 0
        }),
{
}

} // verus!
