//! Labelled metric families, kept by the `prometheus` crate.
//!
//! A family is a table of series. The crate finds a series by a 64-bit hash of
//! its label values, so the contracts speak of slots: two label tuples with the
//! same slot share one series, which is shown under the labels it was first
//! created with. A family and the registry that renders it share their series, so
//! both stand on one [`Board`].

use vstd::prelude::*;
use vstd::utf8::encode_utf8;

use crate::exposition::{
    has_line, is_comment, is_sample, is_sample_of, sample_head, shows_heading, shows_sample,
};

verus! {

#[verifier::external_type_specification]
#[verifier::external_body]
pub struct ExPrometheusError(prometheus::Error);

/// What one family holds: for each slot in use the label values it is shown
/// under and its value.
pub type Table<T> = Map<u64, (Seq<Seq<char>>, T)>;

/// What a family was made with: name, help and label names.
pub type About = (Seq<char>, Seq<char>, Seq<Seq<char>>);

// --- Hashes ---
/// One step of the 64-bit FNV-1a hash.
pub open spec fn fnv_step(hash: u64, byte: u8) -> u64 {
    (((hash ^ (byte as u64)) * 0x100_0000_01b3) % 0x1_0000_0000_0000_0000) as u64
}

/// The 64-bit FNV-1a hash of a byte string.
#[verifier::opaque]
pub open spec fn fnv1a(bytes: Seq<u8>) -> u64
    decreases bytes.len(),
{
    if bytes.len() == 0 {
        0xcbf2_9ce4_8422_2325
    } else {
        fnv_step(fnv1a(bytes.drop_last()), bytes.last())
    }
}

/// The bytes of the label values, one after the other.
pub open spec fn label_bytes(labels: Seq<Seq<char>>) -> Seq<u8>
    decreases labels.len(),
{
    if labels.len() == 0 {
        Seq::empty()
    } else {
        label_bytes(labels.drop_last()) + encode_utf8(labels.last())
    }
}

/// The slot of a label tuple: the hash of the label values, in order. Nothing
/// separates one value from the next.
pub open spec fn series_slot(labels: Seq<Seq<char>>) -> u64 {
    fnv1a(label_bytes(labels))
}

/// Label tuples that differ only in where one value ends and the next begins
/// share a series.
pub proof fn law_boundaries_do_not_tell_series_apart(
    first: Seq<char>,
    second: Seq<char>,
    other_first: Seq<char>,
    other_second: Seq<char>,
)
    requires
        encode_utf8(first) + encode_utf8(second) == encode_utf8(other_first) + encode_utf8(
            other_second,
        ),
    ensures
        series_slot(seq![first, second]) == series_slot(seq![other_first, other_second]),
{
    lemma_pair_bytes(first, second);
    lemma_pair_bytes(other_first, other_second);
}

proof fn lemma_pair_bytes(first: Seq<char>, second: Seq<char>)
    ensures
        label_bytes(seq![first, second]) == encode_utf8(first) + encode_utf8(second),
{
    reveal_with_fuel(label_bytes, 3);
    let pair = seq![first, second];
    assert(pair.drop_last() =~= seq![first]);
    assert(seq![first].drop_last() =~= Seq::<Seq<char>>::empty());
    assert(Seq::<u8>::empty() + encode_utf8(first) =~= encode_utf8(first));
}

/// The id under which a registry keeps a family: the hash of its name, closed by
/// a separator byte.
pub open spec fn descriptor_id(name: Seq<char>) -> u64 {
    fnv1a(encode_utf8(name).push(0xff))
}

// --- Tables ---
/// The characters of each label value.
pub open spec fn label_values(labels: Seq<&str>) -> Seq<Seq<char>> {
    Seq::new(labels.len(), |i: int| labels[i]@)
}

/// The table after the series in `slot` takes a value; a new one is shown under
/// `labels`.
pub open spec fn written_at<T>(
    table: Table<T>,
    slot: u64,
    labels: Seq<Seq<char>>,
    value: T,
) -> Table<T> {
    if table.dom().contains(slot) {
        table.insert(slot, (table[slot].0, value))
    } else {
        table.insert(slot, (labels, value))
    }
}

/// The value of the counter in `slot`; one that does not exist yet stands at
/// zero.
pub open spec fn count_at(table: Table<u64>, slot: u64) -> u64 {
    if table.dom().contains(slot) {
        table[slot].1
    } else {
        0
    }
}

/// The next value of a counter; it wraps around at the top of its range.
pub open spec fn next_count(n: u64) -> u64 {
    if n == u64::MAX {
        0
    } else {
        (n + 1) as u64
    }
}

/// The table after a series is written.
pub open spec fn written<T>(table: Table<T>, labels: Seq<Seq<char>>, value: T) -> Table<T> {
    written_at(table, series_slot(labels), labels, value)
}

/// The table after a series is dropped.
pub open spec fn dropped<T>(table: Table<T>, labels: Seq<Seq<char>>) -> Table<T> {
    table.remove(series_slot(labels))
}

/// The table after a counter series is incremented.
pub open spec fn counted(table: Table<u64>, labels: Seq<Seq<char>>) -> Table<u64> {
    written(table, labels, next_count(count_at(table, series_slot(labels))))
}

/// The table after a counter series is incremented `n` times.
pub open spec fn counted_times(table: Table<u64>, labels: Seq<Seq<char>>, n: nat) -> Table<u64>
    decreases n,
{
    if n == 0 {
        table
    } else {
        counted(counted_times(table, labels, (n - 1) as nat), labels)
    }
}

/// Whether the counter of a label tuple went up by `n`, modulo its range, and
/// every other counter of the family stayed as it was.
pub open spec fn grew_by(
    before: Table<u64>,
    after: Table<u64>,
    labels: Seq<Seq<char>>,
    n: nat,
) -> bool {
    let slot = series_slot(labels);
    &&& count_at(after, slot) == (count_at(before, slot) + n) % 0x1_0000_0000_0000_0000
    &&& forall|other: u64|
        other != slot ==> #[trigger] after.dom().contains(other) == before.dom().contains(other)
            && after[other] == before[other]
}

/// Counting `n` times adds `n`, and touches no other counter.
pub proof fn law_counting_adds_up(table: Table<u64>, labels: Seq<Seq<char>>, n: nat)
    ensures
        grew_by(table, counted_times(table, labels, n), labels, n),
    decreases n,
{
    let slot = series_slot(labels);
    if n > 0 {
        let before = counted_times(table, labels, (n - 1) as nat);
        law_counting_adds_up(table, labels, (n - 1) as nat);
        let c = count_at(table, slot) as int;
        let m: int = 0x1_0000_0000_0000_0000;
        assert(next_count(count_at(before, slot)) == (count_at(before, slot) + 1) % m);
        assert(((c + (n - 1)) % m + 1) % m == (c + n) % m) by {
            vstd::arithmetic::div_mod::lemma_add_mod_noop(c + (n - 1), 1, m);
            assert(1int % m == 1);
            vstd::arithmetic::div_mod::lemma_mod_twice(c + (n - 1), m);
        }
        let after = counted_times(table, labels, n);
        assert(after == written(before, labels, next_count(count_at(before, slot))));
        assert(count_at(after, slot) == next_count(count_at(before, slot)));
        assert forall|other: u64| other != slot implies #[trigger] after.dom().contains(other)
            == table.dom().contains(other) && after[other] == table[other] by {
            assert(after.dom().contains(other) == before.dom().contains(other));
            assert(after[other] == before[other]);
        }
    }
}

/// Letters and underscore, the characters a name may start with.
pub open spec fn name_start(c: char, colon: bool) -> bool {
    'a' <= c <= 'z' || 'A' <= c <= 'Z' || c == '_' || colon && c == ':'
}

/// An identifier of the exposition format; metric names may hold colons.
pub open spec fn identifier(name: Seq<char>, colon: bool) -> bool {
    &&& name.len() > 0
    &&& name_start(name[0], colon)
    &&& forall|i: int|
        0 <= i < name.len() ==> name_start(#[trigger] name[i], colon) || '0' <= name[i] <= '9'
}

/// What a family can be created from: a help text, a metric name, and distinct
/// label names.
pub open spec fn describable(name: Seq<char>, help: Seq<char>, labels: Seq<Seq<char>>) -> bool {
    &&& help.len() > 0
    &&& identifier(name, true)
    &&& forall|i: int| 0 <= i < labels.len() ==> identifier(#[trigger] labels[i], false)
    &&& forall|i: int, j: int|
        0 <= i < j < labels.len() ==> #[trigger] labels[i] != #[trigger] labels[j]
}

// --- The board ---
/// An integer gauge family and its series.
#[verifier::ext_equal]
pub struct GaugeSeries {
    pub about: About,
    pub series: Map<u64, (Seq<Seq<char>>, i64)>,
}

/// An integer counter family and its series.
#[verifier::ext_equal]
pub struct CounterSeries {
    pub about: About,
    pub series: Map<u64, (Seq<Seq<char>>, u64)>,
}

/// What a board holds.
#[verifier::ext_equal]
pub struct BoardModel {
    /// The ids of all families.
    pub ids: Set<u64>,
    pub int_gauges: Seq<GaugeSeries>,
    pub int_counters: Seq<CounterSeries>,
    /// The fractional families. Their values are set through handles.
    pub gauges: Seq<About>,
    pub counters: Seq<About>,
    /// The fractional gauges without labels.
    pub scalars: Seq<About>,
    /// The names of the fractional families that handles were given out for:
    /// what these hold from there on is not known here.
    pub shared: Set<Seq<char>>,
}

impl BoardModel {
    /// No family.
    pub open spec fn empty() -> BoardModel {
        BoardModel {
            ids: Set::empty(),
            int_gauges: Seq::empty(),
            int_counters: Seq::empty(),
            gauges: Seq::empty(),
            counters: Seq::empty(),
            scalars: Seq::empty(),
            shared: Set::empty(),
        }
    }

    /// Whether the board takes a family: it can be described, and its id is free.
    pub open spec fn takes(self, about: About) -> bool {
        describable(about.0, about.1, about.2) && !self.ids.contains(descriptor_id(about.0))
    }

    /// With one more id in use.
    pub open spec fn with_id(self, about: About) -> BoardModel {
        BoardModel { ids: self.ids.insert(descriptor_id(about.0)), ..self }
    }

    /// With an integer gauge family more, which has no series yet.
    pub open spec fn with_int_gauges(self, about: About) -> BoardModel {
        BoardModel {
            int_gauges: self.int_gauges.push(GaugeSeries { about, series: Map::empty() }),
            ..self.with_id(about)
        }
    }

    /// With an integer counter family more, which has no series yet.
    pub open spec fn with_int_counters(self, about: About) -> BoardModel {
        BoardModel {
            int_counters: self.int_counters.push(CounterSeries { about, series: Map::empty() }),
            ..self.with_id(about)
        }
    }

    /// With a fractional gauge family more.
    pub open spec fn with_gauges(self, about: About) -> BoardModel {
        BoardModel { gauges: self.gauges.push(about), ..self.with_id(about) }
    }

    /// With a fractional counter family more.
    pub open spec fn with_counters(self, about: About) -> BoardModel {
        BoardModel { counters: self.counters.push(about), ..self.with_id(about) }
    }

    /// With a gauge without labels more.
    pub open spec fn with_scalar(self, about: About) -> BoardModel {
        BoardModel { scalars: self.scalars.push(about), ..self.with_id(about) }
    }

    /// With other series in an integer gauge family.
    pub open spec fn with_gauge_series(self, i: int, series: Table<i64>) -> BoardModel {
        BoardModel {
            int_gauges: self.int_gauges.update(
                i,
                GaugeSeries { about: self.int_gauges[i].about, series },
            ),
            ..self
        }
    }

    /// With other series in an integer counter family.
    pub open spec fn with_counter_series(self, i: int, series: Table<u64>) -> BoardModel {
        BoardModel {
            int_counters: self.int_counters.update(
                i,
                CounterSeries { about: self.int_counters[i].about, series },
            ),
            ..self
        }
    }

    /// With a handle given out for a fractional family.
    pub open spec fn with_handle(self, about: About) -> BoardModel {
        BoardModel { shared: self.shared.insert(about.0), ..self }
    }
}

/// The head of a sample of a family.
pub open spec fn head_of(about: About, values: Seq<Seq<char>>) -> Seq<char> {
    sample_head(about.0, about.2, values)
}

/// The line of a gauge without labels that stands at zero.
pub open spec fn zero_line(about: About) -> Seq<char> {
    about.0 + seq![' ', '0']
}

/// Whether `line` is a sample of an integer gauge family.
pub open spec fn gauge_sample(b: BoardModel, line: Seq<char>) -> bool {
    exists|i: int, slot: u64|
        0 <= i < b.int_gauges.len() && (#[trigger] b.int_gauges[i].series.dom().contains(slot))
            && is_sample(
            line,
            head_of(b.int_gauges[i].about, b.int_gauges[i].series[slot].0),
            b.int_gauges[i].series[slot].1 as int,
        )
}

/// Whether `line` is a sample of an integer counter family.
pub open spec fn counter_sample(b: BoardModel, line: Seq<char>) -> bool {
    exists|i: int, slot: u64|
        0 <= i < b.int_counters.len() && (#[trigger] b.int_counters[i].series.dom().contains(slot))
            && is_sample(
            line,
            head_of(b.int_counters[i].about, b.int_counters[i].series[slot].0),
            b.int_counters[i].series[slot].1 as int,
        )
}

/// Whether `line` is a sample of a fractional family that a handle was given out
/// for.
pub open spec fn shared_sample(b: BoardModel, line: Seq<char>) -> bool {
    exists|name: Seq<char>| #[trigger] b.shared.contains(name) && is_sample_of(line, name)
}

/// Whether `line` is that of a gauge without labels that still stands at zero.
pub open spec fn zero_sample(b: BoardModel, line: Seq<char>) -> bool {
    exists|i: int|
        0 <= i < b.scalars.len() && line == zero_line(#[trigger] b.scalars[i])
            && !b.shared.contains(b.scalars[i].0)
}

/// Whether `text` is an exposition of a board: it shows the heading of every
/// integer family that has a series, every series of these families and every
/// gauge without labels, and it shows no other sample.
pub open spec fn renders(b: BoardModel, text: Seq<char>) -> bool {
    &&& text.len() > 0 ==> text.last() == '\n'
    &&& forall|i: int, slot: u64|
        0 <= i < b.int_gauges.len() && (#[trigger] b.int_gauges[i].series.dom().contains(slot))
            ==> shows_heading(text, b.int_gauges[i].about.0, b.int_gauges[i].about.1, "gauge"@)
            && shows_sample(
            text,
            head_of(b.int_gauges[i].about, b.int_gauges[i].series[slot].0),
            b.int_gauges[i].series[slot].1 as int,
        )
    &&& forall|i: int, slot: u64|
        0 <= i < b.int_counters.len() && (#[trigger] b.int_counters[i].series.dom().contains(slot))
            ==> shows_heading(
            text,
            b.int_counters[i].about.0,
            b.int_counters[i].about.1,
            "counter"@,
        ) && shows_sample(
            text,
            head_of(b.int_counters[i].about, b.int_counters[i].series[slot].0),
            b.int_counters[i].series[slot].1 as int,
        )
    &&& forall|i: int|
        0 <= i < b.scalars.len() ==> shows_heading(
            text,
            (#[trigger] b.scalars[i]).0,
            b.scalars[i].1,
            "gauge"@,
        ) && (!b.shared.contains(b.scalars[i].0) ==> has_line(text, zero_line(b.scalars[i])))
    &&& forall|line: Seq<char>| #[trigger]
        has_line(text, line) ==> is_comment(line) || gauge_sample(b, line) || counter_sample(
            b,
            line,
        ) || shared_sample(b, line) || zero_sample(b, line)
}

/// Metric families together with the registry that renders them. Every family is
/// registered when it is added, and the registry has no other.
#[verifier::external_body]
pub struct Board {
    registry: prometheus::Registry,
    int_gauges: Vec<prometheus::IntGaugeVec>,
    int_counters: Vec<prometheus::IntCounterVec>,
    gauges: Vec<prometheus::GaugeVec>,
    counters: Vec<prometheus::CounterVec>,
    scalars: Vec<prometheus::Gauge>,
}

/// What a board holds.
pub uninterp spec fn board_contents(board: Board) -> BoardModel;

impl View for Board {
    type V = BoardModel;

    open spec fn view(&self) -> BoardModel {
        board_contents(*self)
    }
}

/// A handle of a fractional gauge family. It shares its series with the board.
#[verifier::external_body]
pub struct Gauges {
    pub vec: prometheus::GaugeVec,
}

/// A handle of a fractional counter family. It shares its series with the board.
#[verifier::external_body]
pub struct Counters {
    pub vec: prometheus::CounterVec,
}

/// A handle of a gauge without labels. It shares its value with the board.
#[verifier::external_body]
pub struct Scalar {
    pub gauge: prometheus::Gauge,
}

/// What the family behind a gauge handle was made with.
pub uninterp spec fn gauges_about(handle: Gauges) -> (Seq<char>, Seq<char>, Seq<Seq<char>>);

/// What the family behind a counter handle was made with.
pub uninterp spec fn counters_about(handle: Counters) -> (Seq<char>, Seq<char>, Seq<Seq<char>>);

/// What the gauge behind a handle was made with; it has no labels.
pub uninterp spec fn scalar_about(handle: Scalar) -> (Seq<char>, Seq<char>, Seq<Seq<char>>);

impl Board {
    /// Calls `Registry::new`: a registry that has taken nothing yet.
    #[verifier::external_body]
    pub(crate) fn new() -> (r: Board)
        ensures
            board_contents(r) == BoardModel::empty(),
    {
        Board {
            registry: prometheus::Registry::new(),
            int_gauges: Vec::new(),
            int_counters: Vec::new(),
            gauges: Vec::new(),
            counters: Vec::new(),
            scalars: Vec::new(),
        }
    }

    /// Calls `IntGaugeVec::new` on `Opts::new(name, help)` and `Registry::register` on a
    /// handle of the family it makes. That succeeds exactly when name, help and labels can be
    /// described and no family on the board has the same id: each has one
    /// descriptor without constant labels, so a registry that was filled here
    /// knows a name only together with its id. The new family has no series.
    #[verifier::external_body]
    pub(crate) fn add_int_gauges(&mut self, name: &str, help: &str, labels: &[&str]) -> (r: Result<
        (),
        prometheus::Error,
    >)
        ensures
            r is Ok <==> board_contents(*old(self)).takes((name@, help@, label_values(labels@))),
            r is Ok ==> board_contents(*final(self)) == board_contents(*old(self)).with_int_gauges(
                (name@, help@, label_values(labels@)),
            ),
            r is Err ==> board_contents(*final(self)) == board_contents(*old(self)),
    {
        let family = prometheus::IntGaugeVec::new(prometheus::Opts::new(name, help), labels)?;
        self.registry.register(Box::new(family.clone()))?;
        self.int_gauges.push(family);
        Ok(())
    }

    /// Calls `IntCounterVec::new` on `Opts::new(name, help)` and `Registry::register` on a
    /// handle of the family it makes. That succeeds exactly when name, help and labels can be
    /// described and no family on the board has the same id: each has one
    /// descriptor without constant labels, so a registry that was filled here
    /// knows a name only together with its id. The new family has no series.
    #[verifier::external_body]
    pub(crate) fn add_int_counters(&mut self, name: &str, help: &str, labels: &[&str]) -> (r: Result<
        (),
        prometheus::Error,
    >)
        ensures
            r is Ok <==> board_contents(*old(self)).takes((name@, help@, label_values(labels@))),
            r is Ok ==> board_contents(*final(self)) == board_contents(*old(self)).with_int_counters(
                (name@, help@, label_values(labels@)),
            ),
            r is Err ==> board_contents(*final(self)) == board_contents(*old(self)),
    {
        let family = prometheus::IntCounterVec::new(prometheus::Opts::new(name, help), labels)?;
        self.registry.register(Box::new(family.clone()))?;
        self.int_counters.push(family);
        Ok(())
    }

    /// Calls `GaugeVec::new` on `Opts::new(name, help)` and `Registry::register` on a
    /// handle of the family it makes. That succeeds exactly when name, help and labels can be
    /// described and no family on the board has the same id: each has one
    /// descriptor without constant labels, so a registry that was filled here
    /// knows a name only together with its id. The new family has no series.
    #[verifier::external_body]
    pub(crate) fn add_gauges(&mut self, name: &str, help: &str, labels: &[&str]) -> (r: Result<
        (),
        prometheus::Error,
    >)
        ensures
            r is Ok <==> board_contents(*old(self)).takes((name@, help@, label_values(labels@))),
            r is Ok ==> board_contents(*final(self)) == board_contents(*old(self)).with_gauges(
                (name@, help@, label_values(labels@)),
            ),
            r is Err ==> board_contents(*final(self)) == board_contents(*old(self)),
    {
        let family = prometheus::GaugeVec::new(prometheus::Opts::new(name, help), labels)?;
        self.registry.register(Box::new(family.clone()))?;
        self.gauges.push(family);
        Ok(())
    }

    /// Calls `CounterVec::new` on `Opts::new(name, help)` and `Registry::register` on a
    /// handle of the family it makes. That succeeds exactly when name, help and labels can be
    /// described and no family on the board has the same id: each has one
    /// descriptor without constant labels, so a registry that was filled here
    /// knows a name only together with its id. The new family has no series.
    #[verifier::external_body]
    pub(crate) fn add_counters(&mut self, name: &str, help: &str, labels: &[&str]) -> (r: Result<
        (),
        prometheus::Error,
    >)
        ensures
            r is Ok <==> board_contents(*old(self)).takes((name@, help@, label_values(labels@))),
            r is Ok ==> board_contents(*final(self)) == board_contents(*old(self)).with_counters(
                (name@, help@, label_values(labels@)),
            ),
            r is Err ==> board_contents(*final(self)) == board_contents(*old(self)),
    {
        let family = prometheus::CounterVec::new(prometheus::Opts::new(name, help), labels)?;
        self.registry.register(Box::new(family.clone()))?;
        self.counters.push(family);
        Ok(())
    }

    /// Calls `Gauge::with_opts` on `Opts::new(name, help)` and `Registry::register`
    /// on a handle of the gauge it makes. That succeeds exactly when name and help
    /// can be described and no family on the board has the same id. The new gauge
    /// stands at zero.
    #[verifier::external_body]
    pub(crate) fn add_scalar(&mut self, name: &str, help: &str) -> (r: Result<
        (),
        prometheus::Error,
    >)
        ensures
            r is Ok <==> board_contents(*old(self)).takes((name@, help@, Seq::empty())),
            r is Ok ==> board_contents(*final(self)) == board_contents(*old(self)).with_scalar(
                (name@, help@, Seq::empty()),
            ),
            r is Err ==> board_contents(*final(self)) == board_contents(*old(self)),
    {
        let gauge = prometheus::Gauge::with_opts(prometheus::Opts::new(name, help))?;
        self.registry.register(Box::new(gauge.clone()))?;
        self.scalars.push(gauge);
        Ok(())
    }

    /// Calls `with_label_values(labels).set(value)` on an integer gauge family: the
    /// series in the slot of `labels` takes the value, and is created under
    /// `labels` if the slot was free. The call would panic on a wrong number of
    /// labels.
    #[verifier::external_body]
    pub(crate) fn set(&mut self, i: usize, labels: &[&str], value: i64)
        requires
            i < board_contents(*old(self)).int_gauges.len(),
            labels@.len() == board_contents(*old(self)).int_gauges[i as int].about.2.len(),
        ensures
            board_contents(*final(self)) == board_contents(*old(self)).with_gauge_series(
                i as int,
                written(
                    board_contents(*old(self)).int_gauges[i as int].series,
                    label_values(labels@),
                    value,
                ),
            ),
    {
        self.int_gauges[i].with_label_values(labels).set(value);
    }

    /// Calls `remove_label_values(labels)` on an integer gauge family and ignores
    /// its result: the slot of `labels` is free afterwards, whether or not it was
    /// in use. A wrong number of labels would leave the family unchanged.
    #[verifier::external_body]
    pub(crate) fn remove(&mut self, i: usize, labels: &[&str])
        requires
            i < board_contents(*old(self)).int_gauges.len(),
            labels@.len() == board_contents(*old(self)).int_gauges[i as int].about.2.len(),
        ensures
            board_contents(*final(self)) == board_contents(*old(self)).with_gauge_series(
                i as int,
                dropped(
                    board_contents(*old(self)).int_gauges[i as int].series,
                    label_values(labels@),
                ),
            ),
    {
        let _ = self.int_gauges[i].remove_label_values(labels);
    }

    /// Calls `with_label_values(labels).inc()` on an integer counter family: the
    /// series in the slot of `labels` goes up by one, wrapping around, and is
    /// created under `labels` if the slot was free. The call would panic on a
    /// wrong number of labels.
    #[verifier::external_body]
    pub(crate) fn inc(&mut self, i: usize, labels: &[&str])
        requires
            i < board_contents(*old(self)).int_counters.len(),
            labels@.len() == board_contents(*old(self)).int_counters[i as int].about.2.len(),
        ensures
            board_contents(*final(self)) == board_contents(*old(self)).with_counter_series(
                i as int,
                counted(
                    board_contents(*old(self)).int_counters[i as int].series,
                    label_values(labels@),
                ),
            ),
    {
        self.int_counters[i].with_label_values(labels).inc();
    }

    /// Clones a `GaugeVec`, which gives a second handle of the same family. From
    /// here on the family may change without the board being told.
    #[verifier::external_body]
    pub(crate) fn gauges(&mut self, i: usize) -> (r: Gauges)
        requires
            i < board_contents(*old(self)).gauges.len(),
        ensures
            gauges_about(r) == board_contents(*old(self)).gauges[i as int],
            board_contents(*final(self)) == board_contents(*old(self)).with_handle(
                board_contents(*old(self)).gauges[i as int],
            ),
    {
        Gauges { vec: self.gauges[i].clone() }
    }

    /// Clones a `CounterVec`, which gives a second handle of the same family. From
    /// here on the family may change without the board being told.
    #[verifier::external_body]
    pub(crate) fn counters(&mut self, i: usize) -> (r: Counters)
        requires
            i < board_contents(*old(self)).counters.len(),
        ensures
            counters_about(r) == board_contents(*old(self)).counters[i as int],
            board_contents(*final(self)) == board_contents(*old(self)).with_handle(
                board_contents(*old(self)).counters[i as int],
            ),
    {
        Counters { vec: self.counters[i].clone() }
    }

    /// Clones a `Gauge`, which gives a second handle of the same gauge. From here
    /// on it may change without the board being told.
    #[verifier::external_body]
    pub(crate) fn scalar(&mut self, i: usize) -> (r: Scalar)
        requires
            i < board_contents(*old(self)).scalars.len(),
        ensures
            scalar_about(r) == board_contents(*old(self)).scalars[i as int],
            board_contents(*final(self)) == board_contents(*old(self)).with_handle(
                board_contents(*old(self)).scalars[i as int],
            ),
    {
        Scalar { gauge: self.scalars[i].clone() }
    }

    /// Calls `Registry::gather` and `TextEncoder::encode`. The registry leaves out
    /// families without series; of every other one the encoder writes a heading
    /// and then a line for each series, with its labels in the order of their
    /// names, their values escaped, and the value as a 64-bit floating-point
    /// number in decimal. A fractional family has no series, and a gauge without
    /// labels stands at zero, until a handle of it is used. The order of families
    /// and of series is left unsaid, and so is what a handle wrote.
    #[verifier::external_body]
    pub(crate) fn gather_text(&self) -> (r: String)
        ensures
            renders(board_contents(*self), r@),
    {
        let mut buf = Vec::new();
        let encoder = prometheus::TextEncoder::new();
        let _ = prometheus::Encoder::encode(&encoder, &self.registry.gather(), &mut buf);
        String::from_utf8(buf).unwrap_or_default()
    }
}

/// Calls `TextEncoder::format_type`: the content type of the text format.
#[verifier::external_body]
pub(crate) fn text_format() -> (r: String)
    ensures
        r@ == "text/plain; version=0.0.4"@,
{
    prometheus::Encoder::format_type(&prometheus::TextEncoder::new()).to_string()
}

} // verus!
