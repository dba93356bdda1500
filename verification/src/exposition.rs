//! The text exposition format: how a sample and a heading are written.

use vstd::prelude::*;
use vstd::string::*;

use crate::text::{decimal_digits, text_before};

verus! {

/// Text with backslashes and line feeds escaped, and quotes too where they would
/// end a label value.
pub open spec fn escaped(text: Seq<char>, quotes: bool) -> Seq<char>
    decreases text.len(),
{
    if text.len() == 0 {
        Seq::empty()
    } else {
        let before = escaped(text.drop_last(), quotes);
        let c = text.last();
        if c == '\\' {
            before + seq!['\\', '\\']
        } else if c == '\n' {
            before + seq!['\\', 'n']
        } else if quotes && c == '"' {
            before + seq!['\\', '"']
        } else {
            before.push(c)
        }
    }
}

/// A label with its value.
pub open spec fn pair_text(label: Seq<char>, value: Seq<char>) -> Seq<char> {
    label + seq!['=', '"'] + escaped(value, true) + seq!['"']
}

/// A sorted list of labels with one more in its place.
pub open spec fn inserted(
    pairs: Seq<(Seq<char>, Seq<char>)>,
    label: Seq<char>,
    value: Seq<char>,
) -> Seq<(Seq<char>, Seq<char>)>
    decreases pairs.len(),
{
    if pairs.len() > 0 && text_before(label, pairs.last().0) {
        inserted(pairs.drop_last(), label, value).push(pairs.last())
    } else {
        pairs.push((label, value))
    }
}

/// The labels with their values, in the order of the label names.
pub open spec fn by_name(labels: Seq<Seq<char>>, values: Seq<Seq<char>>) -> Seq<
    (Seq<char>, Seq<char>),
>
    decreases labels.len(),
{
    if labels.len() == 0 {
        Seq::empty()
    } else {
        inserted(by_name(labels.drop_last(), values.drop_last()), labels.last(), values.last())
    }
}

/// The labels with their values, separated by commas.
pub open spec fn joined(pairs: Seq<(Seq<char>, Seq<char>)>) -> Seq<char>
    decreases pairs.len(),
{
    if pairs.len() == 0 {
        Seq::empty()
    } else if pairs.len() == 1 {
        pair_text(pairs[0].0, pairs[0].1)
    } else {
        joined(pairs.drop_last()) + seq![','] + pair_text(pairs.last().0, pairs.last().1)
    }
}

/// What stands before the value of a sample: the metric name and, where there
/// are labels, the labels in braces.
pub open spec fn sample_head(
    name: Seq<char>,
    labels: Seq<Seq<char>>,
    values: Seq<Seq<char>>,
) -> Seq<char> {
    if labels.len() == 0 {
        name + seq![' ']
    } else {
        name + seq!['{'] + joined(by_name(labels, values)) + seq!['}', ' ']
    }
}

/// A whole number in decimal.
pub open spec fn signed_digits(v: int) -> Seq<char> {
    if v < 0 {
        seq!['-'] + decimal_digits((-v) as nat)
    } else {
        decimal_digits(v as nat)
    }
}

/// The largest magnitude up to which every whole number is shown exactly: samples
/// are written as 64-bit floating-point numbers.
pub const EXACT_UP_TO: i64 = 0x20_0000_0000_0000;

/// Whether `number` writes the value of a sample. Of a value past the exact range
/// it is not said how it is rounded.
pub open spec fn writes_value(number: Seq<char>, v: int) -> bool {
    -EXACT_UP_TO <= v <= EXACT_UP_TO ==> number == signed_digits(v)
}

/// Whether `line` is a whole line of `text`.
pub open spec fn has_line(text: Seq<char>, line: Seq<char>) -> bool {
    &&& !line.contains('\n')
    &&& exists|from: int, to: int|
        0 <= from <= to < text.len() && #[trigger] text.subrange(from, to) == line && text[to]
            == '\n' && (from == 0 || text[from - 1] == '\n')
}

/// Whether `text` shows a sample with this head and value.
pub open spec fn shows_sample(text: Seq<char>, head: Seq<char>, v: int) -> bool {
    exists|number: Seq<char>| #[trigger]
        has_line(text, head + number) && writes_value(number, v)
}

/// Whether `line` is a sample with this head and value.
pub open spec fn is_sample(line: Seq<char>, head: Seq<char>, v: int) -> bool {
    exists|number: Seq<char>| #[trigger] (head + number) == line && writes_value(number, v)
}

/// Whether `line` is a comment.
pub open spec fn is_comment(line: Seq<char>) -> bool {
    line.len() > 0 && line[0] == '#'
}

/// Whether `text` shows the heading of a family: its help text and its type.
pub open spec fn shows_heading(
    text: Seq<char>,
    name: Seq<char>,
    help: Seq<char>,
    kind: Seq<char>,
) -> bool {
    &&& has_line(text, "# HELP "@ + name + seq![' '] + escaped(help, false))
    &&& has_line(text, "# TYPE "@ + name + seq![' '] + kind)
}

/// Whether `line` is a sample of the family with this name, of whatever labels
/// and value.
pub open spec fn is_sample_of(line: Seq<char>, name: Seq<char>) -> bool {
    &&& line.len() > name.len()
    &&& line.take(name.len() as int) == name
    &&& line[name.len() as int] == '{' || line[name.len() as int] == ' '
}

} // verus!
