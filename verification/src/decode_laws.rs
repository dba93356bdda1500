//! What a decoded block says of the registers it was read from.

use vstd::prelude::*;
use vstd::utf8::{
    decode_utf8, encode_utf8, encode_utf8_decode_utf8, encode_utf8_valid_utf8, is_ascii_chars,
    is_ascii_chars_encode_utf8, valid_utf8,
};

use crate::decode::{
    clean, field_bytes, law_clean_text_survives, law_readings, printable, readings_at, reads_text,
    reg_at, slot_count, text_at, text_view, trimmed, Block, ConfigData, Reading, RealtimeData,
};
use crate::error::DecodeError;

verus! {

// --- Numbers and flags ---
/// Whether a field holds a register, counted from the value that stands for zero,
/// and is absent where the block does not reach that register.
pub open spec fn holds(field: Option<i32>, regs: Seq<u16>, at: int, zero: int) -> bool {
    match field {
        Some(v) => at < regs.len() && v + zero == regs[at],
        None => regs.len() <= at,
    }
}

/// Whether a field holds a register as it is.
pub open spec fn holds_raw(field: Option<u16>, regs: Seq<u16>, at: int) -> bool {
    match field {
        Some(v) => at < regs.len() && v == regs[at],
        None => regs.len() <= at,
    }
}

/// Whether a field tells a register that is zero from one that is not.
pub open spec fn holds_flag(field: Option<bool>, regs: Seq<u16>, at: int) -> bool {
    match field {
        Some(on) => at < regs.len() && (on <==> regs[at] > 0),
        None => regs.len() <= at,
    }
}

/// Every number and flag of a realtime block stands in its own register: volts,
/// percent and capacities as they are, currents counted from 30000 and
/// temperatures from 40.
pub proof fn law_realtime_fields(d: RealtimeData, regs: Seq<u16>)
    requires
        d.decodes(regs),
    ensures
        holds(d.pack_dv, regs, 0x28, 0),
        holds(d.current_da, regs, 0x29, 30000),
        holds(d.soc_permille, regs, 0x2a, 0),
        holds(d.cell_max_mv, regs, 0x2b, 0),
        holds(d.cell_min_mv, regs, 0x2c, 0),
        holds(d.temp_max_c, regs, 0x2d, 40),
        holds(d.temp_min_c, regs, 0x2e, 40),
        holds(d.remaining_dah, regs, 0x30, 0),
        holds(d.cell_avg_mv, regs, 0x37, 0),
        holds(d.cell_delta_mv, regs, 0x38, 0),
        holds(d.balance_current_da, regs, 0x40, 30000),
        holds(d.mos_temp_c, regs, 0x42, 40),
        holds_raw(d.cycles, regs, 0x33),
        holds_raw(d.balancing_cells, regs, 0x41),
        holds_raw(d.alarm_bits, regs, 0x3b),
        holds_flag(d.balancer_active, regs, 0x34),
        holds_flag(d.charge_mos, regs, 0x35),
        holds_flag(d.discharge_mos, regs, 0x36),
{
}

/// A pack discharges, and its current is negative, exactly when the current
/// register is below 30000; the balancer current has the same zero.
pub proof fn law_discharge_is_negative(d: RealtimeData, regs: Seq<u16>)
    requires
        d.decodes(regs),
    ensures
        regs.len() > 0x29 ==> (d.current_da matches Some(v) && v == regs[0x29] - 30000 && (v < 0
            <==> regs[0x29] < 30000) && (v > 0 <==> regs[0x29] > 30000)),
        regs.len() > 0x40 ==> (d.balance_current_da matches Some(v) && v == regs[0x40] - 30000),
{
    law_realtime_fields(d, regs);
}

/// Temperatures below 40 in the register are below freezing.
pub proof fn law_temperatures_are_signed(d: RealtimeData, regs: Seq<u16>)
    requires
        d.decodes(regs),
    ensures
        d.temp_max_c matches Some(v) ==> (v < 0 <==> regs[0x2d] < 40),
        d.temp_min_c matches Some(v) ==> (v < 0 <==> regs[0x2e] < 40),
        d.mos_temp_c matches Some(v) ==> (v < 0 <==> regs[0x42] < 40),
{
    law_realtime_fields(d, regs);
}

/// Every number and flag of a config block stands in its own register, counted
/// from the start of the block; of a threshold pair the warning comes first, and
/// the protection stands in the register after it.
pub proof fn law_config_fields(c: ConfigData, regs: Seq<u16>)
    requires
        c.decodes(regs),
    ensures
        holds(c.rated_capacity_dah, regs, 0x00, 0),
        holds(c.cell_reference_mv, regs, 0x01, 0),
        holds(c.diff_temp_c, regs, 0x1d, 0),
        holds(c.fan_on_temp_c, regs, 0x28, 40),
        holds(c.balance_current_da, regs, 0x22, 0),
        holds(c.cell_high_mv.warning, regs, 0x0b, 0),
        holds(c.cell_high_mv.protection, regs, 0x0c, 0),
        holds(c.cell_low_mv.warning, regs, 0x0d, 0),
        holds(c.cell_low_mv.protection, regs, 0x0e, 0),
        holds(c.pack_high_dv.warning, regs, 0x0f, 0),
        holds(c.pack_high_dv.protection, regs, 0x10, 0),
        holds(c.pack_low_dv.warning, regs, 0x11, 0),
        holds(c.pack_low_dv.protection, regs, 0x12, 0),
        holds(c.discharge_overcurrent_da.warning, regs, 0x13, 30000),
        holds(c.discharge_overcurrent_da.protection, regs, 0x14, 30000),
        holds(c.charge_overcurrent_da.warning, regs, 0x15, 30000),
        holds(c.charge_overcurrent_da.protection, regs, 0x16, 30000),
        holds(c.charge_temp_high_c.warning, regs, 0x17, 40),
        holds(c.charge_temp_high_c.protection, regs, 0x18, 40),
        holds(c.charge_temp_low_c.warning, regs, 0x19, 40),
        holds(c.charge_temp_low_c.protection, regs, 0x1a, 40),
        holds(c.discharge_temp_high_c.warning, regs, 0x1b, 40),
        holds(c.discharge_temp_high_c.protection, regs, 0x1c, 40),
        holds_flag(c.balance_enable, regs, 0x4f),
{
}

/// The start register tells the block: zero is realtime, 0x80 is config, and any
/// other is refused with itself.
pub proof fn law_blocks(start: u16)
    ensures
        Block::starting_at(start) == Ok::<Block, DecodeError>(Block::Realtime) <==> start == 0,
        Block::starting_at(start) == Ok::<Block, DecodeError>(Block::Config) <==> start == 0x80,
        start != 0 && start != 0x80 ==> Block::starting_at(start) == Err::<Block, DecodeError>(
            DecodeError::UnknownBlock(start),
        ),
{
}

// --- Cells and sensors ---
/// How many slots a block announces: at most `most`, and none if the block does
/// not reach the count.
pub open spec fn announced(regs: Seq<u16>, at: int, most: int) -> int {
    if regs.len() <= at {
        0
    } else if regs[at] <= most {
        regs[at] as int
    } else {
        most
    }
}

/// Whether a list of readings holds exactly the registers in use among `count`
/// slots from `base` on, in order, each counted from `zero`.
pub open spec fn lists_slots(
    found: Seq<Reading>,
    regs: Seq<u16>,
    base: int,
    count: int,
    zero: int,
) -> bool {
    &&& forall|i: int|
        0 <= i < found.len() ==> {
            let n = (#[trigger] found[i]).index;
            &&& 1 <= n <= count
            &&& base + n - 1 < regs.len()
            &&& regs[base + n - 1] > 0
            &&& found[i].value + zero == regs[base + n - 1]
        }
    &&& forall|i: int, j: int|
        0 <= i < j < found.len() ==> (#[trigger] found[i]).index < (#[trigger] found[j]).index
    &&& forall|n: int|
        1 <= n <= count && base + n - 1 < regs.len() && #[trigger] regs[base + n - 1] > 0
            ==> exists|i: int| 0 <= i < found.len() && (#[trigger] found[i]).index == n
}

proof fn lemma_lists_slots(regs: Seq<u16>, base: int, count: nat, zero: int)
    requires
        0 <= base,
        count <= 0xffff,
        0 <= zero <= 0xffff,
    ensures
        lists_slots(readings_at(regs, base, count, zero), regs, base, count as int, zero),
{
    let found = readings_at(regs, base, count, zero);
    law_readings(regs, base, count, zero);
    assert forall|n: int|
        1 <= n <= count && base + n - 1 < regs.len() && #[trigger] regs[base + n - 1] > 0 implies exists|
        i: int,
    |
        0 <= i < found.len() && (#[trigger] found[i]).index == n by {
        assert(reg_at(regs, base + n - 1) is Some);
    }
}

/// A realtime block lists every cell and every sensor that it announces and that
/// has a reading: cells are the registers from zero on, in millivolts, and sensors
/// those from 0x20 on, counted from 40. No more than 32 cells and 8 sensors are
/// believed.
pub proof fn law_cells_and_sensors(d: RealtimeData, regs: Seq<u16>)
    requires
        d.decodes(regs),
    ensures
        lists_slots(d.cells_mv@, regs, 0x00, announced(regs, 0x31, 32), 0),
        lists_slots(d.temps_c@, regs, 0x20, announced(regs, 0x32, 8), 40),
{
    lemma_lists_slots(regs, 0x00, slot_count(regs, 0x31, 32), 0);
    lemma_lists_slots(regs, 0x20, slot_count(regs, 0x32, 8), 40);
}

// --- Text ---
/// The code points of control characters.
pub open spec fn control_code(n: u32) -> bool {
    n < 0x20 || 0x7f <= n < 0xa0
}

/// The code points that pad a text field: NUL and white space.
pub open spec fn padding_code(n: u32) -> bool {
    ||| n == 0 || n == 0x20 || n == 0x85 || n == 0xa0 || n == 0x1680
    ||| 0x09 <= n <= 0x0d
    ||| 0x2000 <= n <= 0x200a
    ||| n == 0x2028 || n == 0x2029 || n == 0x202f || n == 0x205f || n == 0x3000
}

proof fn lemma_printable_push(a: Seq<char>, c: char, b: Seq<char>)
    requires
        control_code(c as u32),
    ensures
        printable(a.push(c) + b) == printable(a + b),
    decreases b.len(),
{
    if b.len() == 0 {
        assert(a.push(c) + b =~= a.push(c));
        assert(a + b =~= a);
        assert(a.push(c).drop_last() =~= a);
    } else {
        lemma_printable_push(a, c, b.drop_last());
        assert((a.push(c) + b).drop_last() =~= a.push(c) + b.drop_last());
        assert((a + b).drop_last() =~= a + b.drop_last());
        assert((a.push(c) + b).last() == b.last() && (a + b).last() == b.last());
    }
}

/// A control character leaves no trace, wherever it stands.
pub proof fn law_control_characters_vanish(a: Seq<char>, c: char, b: Seq<char>)
    requires
        control_code(c as u32),
    ensures
        clean(a.push(c) + b) == clean(a + b),
{
    lemma_printable_push(a, c, b);
}

proof fn lemma_printable_front(c: char, text: Seq<char>)
    requires
        !control_code(c as u32),
    ensures
        printable(seq![c] + text) == seq![c] + printable(text),
    decreases text.len(),
{
    if text.len() == 0 {
        assert(seq![c] + text =~= seq![c]);
        assert(seq![c].drop_last() =~= Seq::<char>::empty());
        reveal_with_fuel(printable, 2);
        assert(printable(seq![c]) =~= seq![c] + printable(text));
    } else {
        lemma_printable_front(c, text.drop_last());
        assert((seq![c] + text).drop_last() =~= seq![c] + text.drop_last());
        assert((seq![c] + text).last() == text.last());
        assert(printable(seq![c] + text) =~= seq![c] + printable(text));
    }
}

proof fn lemma_trimmed_back(text: Seq<char>, c: char)
    requires
        padding_code(c as u32),
    ensures
        trimmed(text.push(c)) == trimmed(text),
    decreases text.len(),
{
    let longer = text.push(c);
    assert(longer.drop_last() =~= text);
    if text.len() == 0 {
        assert(longer.drop_first() =~= text);
    } else if crate::decode::padding(text.first()) {
        assert(longer.drop_first() =~= text.drop_first().push(c));
        lemma_trimmed_back(text.drop_first(), c);
    }
}

/// Padding leaves no trace at either end.
pub proof fn law_padding_vanishes(c: char, text: Seq<char>)
    requires
        padding_code(c as u32),
    ensures
        clean(seq![c] + text) == clean(text),
        clean(text.push(c)) == clean(text),
{
    if control_code(c as u32) {
        law_control_characters_vanish(Seq::empty(), c, text);
        assert(Seq::<char>::empty().push(c) + text =~= seq![c] + text);
        assert(Seq::<char>::empty() + text =~= text);
        law_control_characters_vanish(text, c, Seq::empty());
        assert(text.push(c) + Seq::<char>::empty() =~= text.push(c));
        assert(text + Seq::<char>::empty() =~= text);
    } else {
        lemma_printable_front(c, text);
        assert((seq![c] + printable(text)).drop_first() =~= printable(text));
        assert(text.push(c).drop_last() =~= text);
        lemma_trimmed_back(printable(text), c);
    }
}

/// What is neither control character nor padding at an end is kept: such text is
/// its own value.
pub proof fn law_plain_text_is_kept(text: Seq<char>)
    requires
        text.len() > 0,
        !padding_code(text.first() as u32),
        !padding_code(text.last() as u32),
        forall|i: int| 0 <= i < text.len() ==> !control_code(#[trigger] text[i] as u32),
    ensures
        clean(text) == Some(text),
{
    law_clean_text_survives(text);
}

/// Nothing but padding and control characters is no value.
pub proof fn law_empty_text_is_absent(text: Seq<char>)
    requires
        forall|i: int|
            0 <= i < text.len() ==> control_code(#[trigger] text[i] as u32) || padding_code(
                text[i] as u32,
            ),
    ensures
        clean(text) is None,
    decreases text.len(),
{
    if text.len() > 0 {
        let head = text.drop_last();
        let c = text.last();
        assert(text[text.len() - 1] == c);
        assert forall|i: int| 0 <= i < head.len() implies control_code(#[trigger] head[i] as u32)
            || padding_code(head[i] as u32) by {
            assert(head[i] == text[i]);
        }
        law_empty_text_is_absent(head);
        assert(head.push(c) =~= text);
        if padding_code(c as u32) {
            law_padding_vanishes(c, head);
        } else {
            law_control_characters_vanish(head, c, Seq::empty());
            assert(head.push(c) + Seq::<char>::empty() =~= text);
            assert(head + Seq::<char>::empty() =~= head);
        }
    }
}

/// Byte `i` of the registers from `start` on: the high half of a register comes
/// first.
pub open spec fn byte_of(regs: Seq<u16>, start: int, i: int) -> int {
    if i % 2 == 0 {
        regs[start + i / 2] as int / 256
    } else {
        regs[start + i / 2] as int % 256
    }
}

/// The bytes of a text field are those of its registers, as far as the block
/// reaches.
pub proof fn law_field_bytes(regs: Seq<u16>, start: int, end: int)
    requires
        0 <= start <= end,
        start < regs.len(),
    ensures
        field_bytes(regs, start, end).len() == if end < regs.len() {
            2 * (end + 1 - start)
        } else {
            2 * (regs.len() - start)
        },
        forall|i: int|
            0 <= i < field_bytes(regs, start, end).len() ==> #[trigger] field_bytes(
                regs,
                start,
                end,
            )[i] == byte_of(regs, start, i),
{
}

/// The registers that the text fields stand in. A field that the block does not
/// reach is absent.
pub proof fn law_text_fields_have_their_registers(
    d: RealtimeData,
    regs: Seq<u16>,
    c: ConfigData,
    cfg: Seq<u16>,
)
    requires
        d.decodes(regs),
        c.decodes(cfg),
    ensures
        text_view(d.serial) == text_at(regs, 0x57, 0x5d),
        text_view(c.sw_version) == text_at(cfg, 0x29, 0x2f),
        text_view(c.hw_version) == text_at(cfg, 0x31, 0x37),
        text_view(c.machine_code) == text_at(cfg, 0x39, 0x40),
        regs.len() <= 0x57 ==> d.serial is None,
        cfg.len() <= 0x29 ==> c.sw_version is None,
        cfg.len() <= 0x31 ==> c.hw_version is None,
        cfg.len() <= 0x39 ==> c.machine_code is None,
{
}

proof fn lemma_tail_vanishes(text: Seq<char>, tail: Seq<char>)
    requires
        forall|i: int| 0 <= i < tail.len() ==> padding_code(#[trigger] tail[i] as u32),
    ensures
        clean(text + tail) == clean(text),
    decreases tail.len(),
{
    if tail.len() == 0 {
        assert(text + tail =~= text);
    } else {
        let head = tail.drop_last();
        assert forall|i: int| 0 <= i < head.len() implies padding_code(#[trigger] head[i] as u32) by {
            assert(head[i] == tail[i]);
        }
        lemma_tail_vanishes(text, head);
        assert(tail[tail.len() - 1] == tail.last());
        law_padding_vanishes(tail.last(), text + head);
        assert((text + head).push(tail.last()) =~= text + tail);
    }
}

/// A text that is written into the registers of a field, two characters to a
/// register and filled up with NULs or spaces, is read back.
pub proof fn law_text_is_read_back(
    field: Option<String>,
    regs: Seq<u16>,
    start: int,
    end: int,
    text: Seq<char>,
)
    requires
        reads_text(field, regs, start, end),
        0 <= start <= end < regs.len(),
        0 < text.len() <= 2 * (end + 1 - start),
        forall|i: int| 0 <= i < text.len() ==> ' ' <= #[trigger] text[i] <= '~',
        text.first() != ' ',
        text.last() != ' ',
        forall|i: int|
            0 <= i < text.len() ==> #[trigger] byte_of(regs, start, i) == text[i] as u32,
        forall|i: int|
            text.len() <= i < 2 * (end + 1 - start) ==> (#[trigger] byte_of(regs, start, i) == 0
                || byte_of(regs, start, i) == 0x20),
    ensures
        text_view(field) == Some(text),
{
    let n = 2 * (end + 1 - start);
    let tail = Seq::new(
        (n - text.len()) as nat,
        |i: int|
            if byte_of(regs, start, text.len() + i) == 0 {
                '\0'
            } else {
                ' '
            },
    );
    let all = text + tail;
    let bytes = field_bytes(regs, start, end);
    law_field_bytes(regs, start, end);
    assert(is_ascii_chars(all));
    is_ascii_chars_encode_utf8(all);
    assert forall|i: int| 0 <= i < n implies encode_utf8(all)[i] == #[trigger] bytes[i] by {
        assert(bytes[i] == byte_of(regs, start, i));
        assert(all[i] as u8 == encode_utf8(all)[i]);
        if i >= text.len() {
            assert(all[i] == tail[i - text.len()]);
        } else {
            assert(all[i] == text[i]);
        }
    }
    assert(encode_utf8(all) =~= bytes);
    encode_utf8_valid_utf8(all);
    encode_utf8_decode_utf8(all);
    lemma_tail_vanishes(text, tail);
    law_plain_text_is_kept(text);
}

} // verus!
