//! Metric values: one quantity that an operator records, with its name.
use vstd::prelude::*;
use crate::metrics::cells::{
    add_wrapping, Count, Gauge, PruningMetrics, RatioMetrics, Time, Timestamp, UtcTime,
};
use crate::metrics::readable::{human_readable_count, human_readable_size};
use crate::metrics::{cells, readable};
use crate::text::{owned, push_decimal, same_text};
use crate::text;

verus! {

/// A quantity defined outside the library.
///
/// The executable methods are described through a mathematical model of the
/// quantity: what it is when nothing was recorded, how two are taken together,
/// and what it reads as.
pub trait CustomMetricValue: Sized {
    /// The mathematical value.
    type Model;

    spec fn model(&self) -> Self::Model;

    /// The quantity when nothing was recorded.
    spec fn emptied(m: Self::Model) -> Self::Model;

    /// Two quantities taken together.
    spec fn aggregated(a: Self::Model, b: Self::Model) -> Self::Model;

    /// The quantity as a number.
    spec fn number(m: Self::Model) -> usize;

    /// Whether two quantities count as equal.
    spec fn same(a: Self::Model, b: Self::Model) -> bool;

    /// The text of the quantity.
    spec fn rendered(m: Self::Model) -> Seq<char>;

    /// The quantity when nothing was recorded.
    fn new_empty(&self) -> (r: Self)
        ensures
            r.model() == Self::emptied(self.model()),
    ;

    /// Takes another quantity together with this one.
    fn aggregate(&mut self, other: &Self)
        ensures
            final(self).model() == Self::aggregated(old(self).model(), other.model()),
    ;

    /// The quantity as a number.
    fn as_usize(&self) -> (r: usize)
        ensures
            r == Self::number(self.model()),
    ;

    /// Whether two quantities count as equal.
    fn is_eq(&self, other: &Self) -> (r: bool)
        ensures
            r == Self::same(self.model(), other.model()),
    ;

    /// The quantity as it stands; what is recorded later does not show in it.
    fn duplicate(&self) -> (r: Self)
        ensures
            r.model() == self.model(),
    ;

    /// The text of the quantity.
    fn to_text(&self) -> (r: String)
        ensures
            r@ == Self::rendered(self.model()),
    ;
}

/// The quantity of operators that define none of their own.
#[derive(Clone, Copy, Debug, PartialEq, Eq, Structural)]
pub struct NoCustomMetric;

impl CustomMetricValue for NoCustomMetric {
    type Model = ();

    open spec fn model(&self) -> () {
        ()
    }

    open spec fn emptied(m: ()) -> () {
        ()
    }

    open spec fn aggregated(a: (), b: ()) -> () {
        ()
    }

    open spec fn number(m: ()) -> usize {
        0
    }

    open spec fn same(a: (), b: ()) -> bool {
        true
    }

    open spec fn rendered(m: ()) -> Seq<char> {
        ""@
    }

    fn new_empty(&self) -> (r: Self) {
        NoCustomMetric
    }

    fn aggregate(&mut self, other: &Self) {
    }

    fn as_usize(&self) -> (r: usize) {
        0
    }

    fn is_eq(&self, other: &Self) -> (r: bool) {
        true
    }

    fn duplicate(&self) -> (r: Self) {
        NoCustomMetric
    }

    fn to_text(&self) -> (r: String) {
        owned("")
    }
}

/// A quantity that is counted, and has no number of its own. The count wraps
/// around at the end of its range.
#[derive(Debug, PartialEq, Eq, Structural)]
pub struct CustomCounter {
    pub count: usize,
}

impl CustomMetricValue for CustomCounter {
    type Model = usize;

    open spec fn model(&self) -> usize {
        self.count
    }

    open spec fn emptied(m: usize) -> usize {
        0
    }

    open spec fn aggregated(a: usize, b: usize) -> usize {
        cells::wrapped(a + b) as usize
    }

    open spec fn number(m: usize) -> usize {
        0
    }

    open spec fn same(a: usize, b: usize) -> bool {
        a == b
    }

    open spec fn rendered(m: usize) -> Seq<char> {
        "count: "@ + text::decimal(m as nat)
    }

    fn new_empty(&self) -> (r: Self) {
        CustomCounter { count: 0 }
    }

    fn aggregate(&mut self, other: &Self) {
        self.count = add_wrapping(self.count, other.count);
    }

    fn as_usize(&self) -> (r: usize) {
        0
    }

    fn is_eq(&self, other: &Self) -> (r: bool) {
        self.count == other.count
    }

    fn duplicate(&self) -> (r: Self) {
        CustomCounter { count: self.count }
    }

    fn to_text(&self) -> (r: String) {
        let mut out: String = owned("count: ");
        push_decimal(&mut out, self.count as u128);
        out
    }
}

/// One quantity that an operator records.
#[derive(Debug)]
pub enum MetricValue<C: CustomMetricValue> {
    OutputRows(Count),
    ElapsedCompute(Time),
    SpillCount(Count),
    SpilledBytes(Count),
    OutputBytes(Count),
    OutputBatches(Count),
    SpilledRows(Count),
    CurrentMemoryUsage(Gauge),
    Count { name: String, count: Count },
    Gauge { name: String, gauge: Gauge },
    PeakMemoryUsage { name: String, gauge: Gauge },
    Time { name: String, time: Time },
    StartTimestamp(Timestamp),
    EndTimestamp(Timestamp),
    PruningMetrics { name: String, pruning_metrics: PruningMetrics },
    Ratio { name: String, ratio_metrics: RatioMetrics },
    Custom { name: String, value: C },
}

/// The mathematical value of a metric value.
pub enum Measure<M> {
    OutputRows(Count),
    ElapsedCompute(Time),
    SpillCount(Count),
    SpilledBytes(Count),
    OutputBytes(Count),
    OutputBatches(Count),
    SpilledRows(Count),
    CurrentMemoryUsage(Gauge),
    Count { name: Seq<char>, count: Count },
    Gauge { name: Seq<char>, gauge: Gauge },
    PeakMemoryUsage { name: Seq<char>, gauge: Gauge },
    Time { name: Seq<char>, time: Time },
    StartTimestamp(Timestamp),
    EndTimestamp(Timestamp),
    PruningMetrics { name: Seq<char>, pruning_metrics: PruningMetrics },
    Ratio { name: Seq<char>, ratio_metrics: RatioMetrics },
    Custom { name: Seq<char>, value: M },
}

impl<C: CustomMetricValue> View for MetricValue<C> {
    type V = Measure<C::Model>;

    open spec fn view(&self) -> Measure<C::Model> {
        match *self {
            MetricValue::OutputRows(c) => Measure::OutputRows(c),
            MetricValue::ElapsedCompute(t) => Measure::ElapsedCompute(t),
            MetricValue::SpillCount(c) => Measure::SpillCount(c),
            MetricValue::SpilledBytes(c) => Measure::SpilledBytes(c),
            MetricValue::OutputBytes(c) => Measure::OutputBytes(c),
            MetricValue::OutputBatches(c) => Measure::OutputBatches(c),
            MetricValue::SpilledRows(c) => Measure::SpilledRows(c),
            MetricValue::CurrentMemoryUsage(g) => Measure::CurrentMemoryUsage(g),
            MetricValue::Count { name, count } => Measure::Count { name: name@, count },
            MetricValue::Gauge { name, gauge } => Measure::Gauge { name: name@, gauge },
            MetricValue::PeakMemoryUsage { name, gauge } => Measure::PeakMemoryUsage {
                name: name@,
                gauge,
            },
            MetricValue::Time { name, time } => Measure::Time { name: name@, time },
            MetricValue::StartTimestamp(t) => Measure::StartTimestamp(t),
            MetricValue::EndTimestamp(t) => Measure::EndTimestamp(t),
            MetricValue::PruningMetrics { name, pruning_metrics } => Measure::PruningMetrics {
                name: name@,
                pruning_metrics,
            },
            MetricValue::Ratio { name, ratio_metrics } => Measure::Ratio {
                name: name@,
                ratio_metrics,
            },
            MetricValue::Custom { name, value } => Measure::Custom {
                name: name@,
                value: value.model(),
            },
        }
    }
}

/// The nanoseconds since the Unix epoch of a moment, wrapping around, or zero
/// where they are not known or out of range.
pub open spec fn timestamp_number(t: Option<UtcTime>) -> int {
    match t {
        Some(moment) => match moment.nanos_since_epoch() {
            Some(n) => cells::wrapped(n),
            None => 0,
        },
        None => 0,
    }
}

fn timestamp_usize(t: &Timestamp) -> (r: usize)
    ensures
        r == timestamp_number(t.timestamp),
{
    match t.timestamp {
        Some(moment) => match moment.timestamp_nanos_opt() {
            Some(n) => {
                let range: u128 = usize::MAX as u128 + 1;
                if n >= 0 {
                    (n as u128 % range) as usize
                } else {
                    let below: u128 = (-(n as i128 + 1)) as u128;
                    let r: u128 = range - 1 - below % range;
                    proof {
                        let k = below as int / range as int;
                        let m = below as int % range as int;
                        assert(below == range * k + m) by {
                            vstd::arithmetic::div_mod::lemma_fundamental_div_mod(
                                below as int,
                                range as int,
                            );
                        }
                        assert(n == (-k - 1) * range + (range - 1 - m)) by (nonlinear_arith)
                            requires
                                below == range * k + m,
                                below == -(n + 1),
                        ;
                        vstd::arithmetic::div_mod::lemma_fundamental_div_mod_converse(
                            n as int,
                            range as int,
                            -k - 1,
                            range - 1 - m,
                        );
                    }
                    r as usize
                }
            },
            None => 0,
        },
        None => 0,
    }
}

/// The name under which a metric is shown and added up.
pub open spec fn measure_name<M>(m: Measure<M>) -> Seq<char> {
    match m {
        Measure::OutputRows(_) => "output_rows"@,
        Measure::SpillCount(_) => "spill_count"@,
        Measure::SpilledBytes(_) => "spilled_bytes"@,
        Measure::OutputBytes(_) => "output_bytes"@,
        Measure::OutputBatches(_) => "output_batches"@,
        Measure::SpilledRows(_) => "spilled_rows"@,
        Measure::CurrentMemoryUsage(_) => "mem_used"@,
        Measure::ElapsedCompute(_) => "elapsed_compute"@,
        Measure::Count { name, .. } => name,
        Measure::Gauge { name, .. } => name,
        Measure::PeakMemoryUsage { name, .. } => name,
        Measure::Time { name, .. } => name,
        Measure::StartTimestamp(_) => "start_timestamp"@,
        Measure::EndTimestamp(_) => "end_timestamp"@,
        Measure::PruningMetrics { name, .. } => name,
        Measure::Ratio { name, .. } => name,
        Measure::Custom { name, .. } => name,
    }
}

/// The metric as a number.
pub open spec fn measure_number<C: CustomMetricValue>(m: Measure<C::Model>) -> int {
    match m {
        Measure::OutputRows(c) => c.value as int,
        Measure::SpillCount(c) => c.value as int,
        Measure::SpilledBytes(c) => c.value as int,
        Measure::OutputBytes(c) => c.value as int,
        Measure::OutputBatches(c) => c.value as int,
        Measure::SpilledRows(c) => c.value as int,
        Measure::CurrentMemoryUsage(g) => g.value as int,
        Measure::ElapsedCompute(t) => t.nanos as int,
        Measure::Count { count, .. } => count.value as int,
        Measure::Gauge { gauge, .. } => gauge.value as int,
        Measure::PeakMemoryUsage { gauge, .. } => gauge.value as int,
        Measure::Time { time, .. } => time.nanos as int,
        Measure::StartTimestamp(t) => timestamp_number(t.timestamp),
        Measure::EndTimestamp(t) => timestamp_number(t.timestamp),
        Measure::PruningMetrics { .. } => 0,
        Measure::Ratio { .. } => 0,
        Measure::Custom { value, .. } => C::number(value) as int,
    }
}

/// The metric when nothing was recorded: of the same kind and name, and for a
/// ratio with the same merge strategy and the same way of being shown.
pub open spec fn emptied<C: CustomMetricValue>(m: Measure<C::Model>) -> Measure<C::Model> {
    let zero = Count { value: 0 };
    let level = Gauge { value: 0 };
    let spent = Time { nanos: 0 };
    let unknown = Timestamp { timestamp: None };
    match m {
        Measure::OutputRows(_) => Measure::OutputRows(zero),
        Measure::SpillCount(_) => Measure::SpillCount(zero),
        Measure::SpilledBytes(_) => Measure::SpilledBytes(zero),
        Measure::OutputBytes(_) => Measure::OutputBytes(zero),
        Measure::OutputBatches(_) => Measure::OutputBatches(zero),
        Measure::SpilledRows(_) => Measure::SpilledRows(zero),
        Measure::CurrentMemoryUsage(_) => Measure::CurrentMemoryUsage(level),
        Measure::ElapsedCompute(_) => Measure::ElapsedCompute(spent),
        Measure::Count { name, .. } => Measure::Count { name, count: zero },
        Measure::Gauge { name, .. } => Measure::Gauge { name, gauge: level },
        Measure::PeakMemoryUsage { name, .. } => Measure::PeakMemoryUsage { name, gauge: level },
        Measure::Time { name, .. } => Measure::Time { name, time: spent },
        Measure::StartTimestamp(_) => Measure::StartTimestamp(unknown),
        Measure::EndTimestamp(_) => Measure::EndTimestamp(unknown),
        Measure::PruningMetrics { name, .. } => Measure::PruningMetrics {
            name,
            pruning_metrics: PruningMetrics { pruned: 0, matched: 0, fully_matched: 0 },
        },
        Measure::Ratio { name, ratio_metrics } => Measure::Ratio {
            name,
            ratio_metrics: RatioMetrics { part: 0, total: 0, ..ratio_metrics },
        },
        Measure::Custom { name, value } => Measure::Custom { name, value: C::emptied(value) },
    }
}

/// Whether two metrics are of the same kind, so that they can be taken
/// together.
pub open spec fn same_kind<M>(a: Measure<M>, b: Measure<M>) -> bool {
    match a {
        Measure::OutputRows(_) => b is OutputRows,
        Measure::SpillCount(_) => b is SpillCount,
        Measure::SpilledBytes(_) => b is SpilledBytes,
        Measure::OutputBytes(_) => b is OutputBytes,
        Measure::OutputBatches(_) => b is OutputBatches,
        Measure::SpilledRows(_) => b is SpilledRows,
        Measure::CurrentMemoryUsage(_) => b is CurrentMemoryUsage,
        Measure::ElapsedCompute(_) => b is ElapsedCompute,
        Measure::Count { .. } => b is Count,
        Measure::Gauge { .. } => b is Gauge,
        Measure::PeakMemoryUsage { .. } => b is PeakMemoryUsage,
        Measure::Time { .. } => b is Time,
        Measure::StartTimestamp(_) => b is StartTimestamp,
        Measure::EndTimestamp(_) => b is EndTimestamp,
        Measure::PruningMetrics { .. } => b is PruningMetrics,
        Measure::Ratio { .. } => b is Ratio,
        Measure::Custom { .. } => b is Custom,
    }
}

/// Two counters added up.
pub open spec fn added(a: Count, b: Count) -> Count {
    Count { value: cells::wrapped(a.value + b.value) as usize }
}

/// Two levels added up.
pub open spec fn stacked(a: Gauge, b: Gauge) -> Gauge {
    Gauge { value: cells::wrapped(a.value + b.value) as usize }
}

/// Two times added up.
pub open spec fn spent(a: Time, b: Time) -> Time {
    Time { nanos: cells::time_after(a.nanos, b.nanos as int) as usize }
}

/// The metric `a` with `b` taken together: counters, levels and times add up,
/// the earliest start and the latest end are kept, ratios follow the strategy
/// of `a`. The name of `a` stays.
pub open spec fn aggregated<C: CustomMetricValue>(
    a: Measure<C::Model>,
    b: Measure<C::Model>,
) -> Measure<C::Model> {
    match (a, b) {
        (Measure::OutputRows(x), Measure::OutputRows(y)) => Measure::OutputRows(added(x, y)),
        (Measure::SpillCount(x), Measure::SpillCount(y)) => Measure::SpillCount(added(x, y)),
        (Measure::SpilledBytes(x), Measure::SpilledBytes(y)) => Measure::SpilledBytes(added(x, y)),
        (Measure::OutputBytes(x), Measure::OutputBytes(y)) => Measure::OutputBytes(added(x, y)),
        (Measure::OutputBatches(x), Measure::OutputBatches(y)) => Measure::OutputBatches(
            added(x, y),
        ),
        (Measure::SpilledRows(x), Measure::SpilledRows(y)) => Measure::SpilledRows(added(x, y)),
        (Measure::Count { name, count: x }, Measure::Count { count: y, .. }) => Measure::Count {
            name,
            count: added(x, y),
        },
        (Measure::CurrentMemoryUsage(x), Measure::CurrentMemoryUsage(y)) =>
            Measure::CurrentMemoryUsage(stacked(x, y)),
        (Measure::Gauge { name, gauge: x }, Measure::Gauge { gauge: y, .. }) => Measure::Gauge {
            name,
            gauge: stacked(x, y),
        },
        (
            Measure::PeakMemoryUsage { name, gauge: x },
            Measure::PeakMemoryUsage { gauge: y, .. },
        ) => Measure::PeakMemoryUsage { name, gauge: stacked(x, y) },
        (Measure::ElapsedCompute(x), Measure::ElapsedCompute(y)) => Measure::ElapsedCompute(
            spent(x, y),
        ),
        (Measure::Time { name, time: x }, Measure::Time { time: y, .. }) => Measure::Time {
            name,
            time: spent(x, y),
        },
        (Measure::StartTimestamp(x), Measure::StartTimestamp(y)) => Measure::StartTimestamp(
            Timestamp { timestamp: cells::earlier(x.timestamp, y.timestamp) },
        ),
        (Measure::EndTimestamp(x), Measure::EndTimestamp(y)) => Measure::EndTimestamp(
            Timestamp { timestamp: cells::later(x.timestamp, y.timestamp) },
        ),
        (
            Measure::PruningMetrics { name, pruning_metrics: x },
            Measure::PruningMetrics { pruning_metrics: y, .. },
        ) => Measure::PruningMetrics {
            name,
            pruning_metrics: PruningMetrics {
                pruned: cells::wrapped(x.pruned + y.pruned) as usize,
                matched: cells::wrapped(x.matched + y.matched) as usize,
                fully_matched: cells::wrapped(x.fully_matched + y.fully_matched) as usize,
            },
        },
        (Measure::Ratio { name, ratio_metrics: x }, Measure::Ratio { ratio_metrics: y, .. }) =>
            Measure::Ratio { name, ratio_metrics: cells::merged_ratio(x, y) },
        (Measure::Custom { name, value: x }, Measure::Custom { value: y, .. }) => Measure::Custom {
            name,
            value: C::aggregated(x, y),
        },
        _ => a,
    }
}

/// The place of a metric when metrics are shown: lower comes first.
pub open spec fn sort_key<M>(m: Measure<M>) -> u8 {
    match m {
        Measure::OutputRows(_) => 0,
        Measure::ElapsedCompute(_) => 1,
        Measure::OutputBytes(_) => 2,
        Measure::OutputBatches(_) => 3,
        Measure::PruningMetrics { name, .. } => if name == "files_ranges_pruned_statistics"@ {
            4
        } else if name == "row_groups_pruned_statistics"@ {
            5
        } else if name == "row_groups_pruned_bloom_filter"@ {
            6
        } else if name == "page_index_pages_pruned"@ {
            7
        } else if name == "page_index_rows_pruned"@ {
            8
        } else {
            9
        },
        Measure::SpillCount(_) => 10,
        Measure::SpilledBytes(_) => 11,
        Measure::SpilledRows(_) => 12,
        Measure::CurrentMemoryUsage(_) => 13,
        Measure::Count { name, .. } => if name == "page_index_pages_skipped_by_fully_matched"@ {
            8
        } else {
            14
        },
        Measure::PeakMemoryUsage { .. } => 13,
        Measure::Gauge { .. } => 15,
        Measure::Time { .. } => 16,
        Measure::Ratio { .. } => 17,
        Measure::StartTimestamp(_) => 18,
        Measure::EndTimestamp(_) => 19,
        Measure::Custom { .. } => 20,
    }
}

/// Whether the text of a metric is defined: the figures of pruning metrics must
/// add up within range.
pub open spec fn displayable<M>(m: Measure<M>) -> bool {
    m matches Measure::PruningMetrics { pruning_metrics, .. } ==> pruning_metrics.pruned
        + pruning_metrics.matched <= usize::MAX
}

/// The text of a time; a time of zero was not recorded.
pub open spec fn time_text(t: Time) -> Seq<char> {
    if t.nanos > 0 {
        readable::duration_text(t.nanos as int)
    } else {
        "NOT RECORDED"@
    }
}

/// The text of a metric.
pub open spec fn measure_text<C: CustomMetricValue>(m: Measure<C::Model>) -> Seq<char> {
    match m {
        Measure::OutputRows(c) => readable::count_text(c.value as int),
        Measure::OutputBatches(c) => readable::count_text(c.value as int),
        Measure::SpillCount(c) => readable::count_text(c.value as int),
        Measure::SpilledRows(c) => readable::count_text(c.value as int),
        Measure::Count { count, .. } => readable::count_text(count.value as int),
        Measure::SpilledBytes(c) => readable::size_text(c.value as int),
        Measure::OutputBytes(c) => readable::size_text(c.value as int),
        Measure::CurrentMemoryUsage(g) => readable::size_text(g.value as int),
        Measure::PeakMemoryUsage { gauge, .. } => readable::size_text(gauge.value as int),
        Measure::Gauge { gauge, .. } => readable::count_text(gauge.value as int),
        Measure::ElapsedCompute(t) => time_text(t),
        Measure::Time { time, .. } => time_text(time),
        Measure::StartTimestamp(t) => cells::timestamp_text(t.timestamp),
        Measure::EndTimestamp(t) => cells::timestamp_text(t.timestamp),
        Measure::PruningMetrics { pruning_metrics: p, .. } => cells::pruning_text(
            p.pruned as int,
            p.matched as int,
            p.fully_matched as int,
        ),
        Measure::Ratio { ratio_metrics: x, .. } => cells::ratio_text(
            x.part as int,
            x.total as int,
            x.display_raw_values,
        ),
        Measure::Custom { value, .. } => C::rendered(value),
    }
}

/// Whether two metrics count as equal: of the same kind and name with the same
/// figures. Pruning metrics compare what was pruned and matched; ratios compare
/// the figures and how they are shown, not how they are merged.
pub open spec fn measures_equal<C: CustomMetricValue>(
    a: Measure<C::Model>,
    b: Measure<C::Model>,
) -> bool {
    same_kind(a, b) && measure_name(a) == measure_name(b) && match (a, b) {
        (
            Measure::PruningMetrics { pruning_metrics: p, .. },
            Measure::PruningMetrics { pruning_metrics: q, .. },
        ) => p.pruned == q.pruned && p.matched == q.matched,
        (Measure::Ratio { ratio_metrics: p, .. }, Measure::Ratio { ratio_metrics: q, .. }) =>
            p.part == q.part && p.total == q.total && p.display_raw_values == q.display_raw_values,
        (Measure::Custom { value: p, .. }, Measure::Custom { value: q, .. }) => C::same(p, q),
        (Measure::StartTimestamp(p), Measure::StartTimestamp(q)) => p == q,
        (Measure::EndTimestamp(p), Measure::EndTimestamp(q)) => p == q,
        _ => measure_number::<C>(a) == measure_number::<C>(b),
    }
}

impl<C: CustomMetricValue> PartialEq for MetricValue<C> {
    fn eq(&self, other: &Self) -> (r: bool) {
        match (self, other) {
            (MetricValue::OutputRows(a), MetricValue::OutputRows(b)) => *a == *b,
            (MetricValue::ElapsedCompute(a), MetricValue::ElapsedCompute(b)) => *a == *b,
            (MetricValue::SpillCount(a), MetricValue::SpillCount(b)) => *a == *b,
            (MetricValue::SpilledBytes(a), MetricValue::SpilledBytes(b)) => *a == *b,
            (MetricValue::OutputBytes(a), MetricValue::OutputBytes(b)) => *a == *b,
            (MetricValue::OutputBatches(a), MetricValue::OutputBatches(b)) => *a == *b,
            (MetricValue::SpilledRows(a), MetricValue::SpilledRows(b)) => *a == *b,
            (MetricValue::CurrentMemoryUsage(a), MetricValue::CurrentMemoryUsage(b)) => *a == *b,
            (
                MetricValue::Count { name: n1, count: c1 },
                MetricValue::Count { name: n2, count: c2 },
            ) => same_text(n1, n2) && *c1 == *c2,
            (
                MetricValue::Gauge { name: n1, gauge: g1 },
                MetricValue::Gauge { name: n2, gauge: g2 },
            ) => same_text(n1, n2) && *g1 == *g2,
            (
                MetricValue::PeakMemoryUsage { name: n1, gauge: g1 },
                MetricValue::PeakMemoryUsage { name: n2, gauge: g2 },
            ) => same_text(n1, n2) && *g1 == *g2,
            (MetricValue::Time { name: n1, time: t1 }, MetricValue::Time { name: n2, time: t2 }) =>
                same_text(n1, n2) && *t1 == *t2,
            (MetricValue::StartTimestamp(a), MetricValue::StartTimestamp(b)) => *a == *b,
            (MetricValue::EndTimestamp(a), MetricValue::EndTimestamp(b)) => *a == *b,
            (
                MetricValue::PruningMetrics { name: n1, pruning_metrics: p1 },
                MetricValue::PruningMetrics { name: n2, pruning_metrics: p2 },
            ) => same_text(n1, n2) && p1.pruned == p2.pruned && p1.matched == p2.matched,
            (
                MetricValue::Ratio { name: n1, ratio_metrics: r1 },
                MetricValue::Ratio { name: n2, ratio_metrics: r2 },
            ) => same_text(n1, n2) && *r1 == *r2,
            (
                MetricValue::Custom { name: n1, value: v1 },
                MetricValue::Custom { name: n2, value: v2 },
            ) => same_text(n1, n2) && v1.is_eq(v2),
            _ => false,
        }
    }
}

impl<C: CustomMetricValue> vstd::std_specs::cmp::PartialEqSpecImpl for MetricValue<C> {
    open spec fn obeys_eq_spec() -> bool {
        true
    }

    open spec fn eq_spec(&self, other: &Self) -> bool {
        measures_equal::<C>(self@, other@)
    }
}

fn is_text(a: &String, b: &str) -> (r: bool)
    ensures
        r == (a@ == b@),
{
    let b: String = owned(b);
    same_text(a, &b)
}

fn time_string(t: &Time) -> (r: String)
    ensures
        r@ == time_text(*t),
{
    if t.nanos > 0 {
        t.to_string()
    } else {
        owned("NOT RECORDED")
    }
}

impl<C: CustomMetricValue> MetricValue<C> {
    /// The value as it stands; what is recorded later does not show in it.
    pub fn snapshot(&self) -> (r: Self)
        ensures
            r@ == self@,
    {
        match self {
            MetricValue::OutputRows(c) => MetricValue::OutputRows(c.snapshot()),
            MetricValue::ElapsedCompute(t) => MetricValue::ElapsedCompute(t.snapshot()),
            MetricValue::SpillCount(c) => MetricValue::SpillCount(c.snapshot()),
            MetricValue::SpilledBytes(c) => MetricValue::SpilledBytes(c.snapshot()),
            MetricValue::OutputBytes(c) => MetricValue::OutputBytes(c.snapshot()),
            MetricValue::OutputBatches(c) => MetricValue::OutputBatches(c.snapshot()),
            MetricValue::SpilledRows(c) => MetricValue::SpilledRows(c.snapshot()),
            MetricValue::CurrentMemoryUsage(g) => MetricValue::CurrentMemoryUsage(g.snapshot()),
            MetricValue::Count { name, count } => MetricValue::Count {
                name: name.clone(),
                count: count.snapshot(),
            },
            MetricValue::Gauge { name, gauge } => MetricValue::Gauge {
                name: name.clone(),
                gauge: gauge.snapshot(),
            },
            MetricValue::PeakMemoryUsage { name, gauge } => MetricValue::PeakMemoryUsage {
                name: name.clone(),
                gauge: gauge.snapshot(),
            },
            MetricValue::Time { name, time } => MetricValue::Time {
                name: name.clone(),
                time: time.snapshot(),
            },
            MetricValue::StartTimestamp(t) => MetricValue::StartTimestamp(t.snapshot()),
            MetricValue::EndTimestamp(t) => MetricValue::EndTimestamp(t.snapshot()),
            MetricValue::PruningMetrics { name, pruning_metrics } => MetricValue::PruningMetrics {
                name: name.clone(),
                pruning_metrics: pruning_metrics.snapshot(),
            },
            MetricValue::Ratio { name, ratio_metrics } => MetricValue::Ratio {
                name: name.clone(),
                ratio_metrics: ratio_metrics.snapshot(),
            },
            MetricValue::Custom { name, value } => MetricValue::Custom {
                name: name.clone(),
                value: value.duplicate(),
            },
        }
    }

    /// The name under which the metric is shown and added up.
    pub fn name(&self) -> (r: &str)
        ensures
            r@ == measure_name(self@),
    {
        match self {
            MetricValue::OutputRows(_) => "output_rows",
            MetricValue::SpillCount(_) => "spill_count",
            MetricValue::SpilledBytes(_) => "spilled_bytes",
            MetricValue::OutputBytes(_) => "output_bytes",
            MetricValue::OutputBatches(_) => "output_batches",
            MetricValue::SpilledRows(_) => "spilled_rows",
            MetricValue::CurrentMemoryUsage(_) => "mem_used",
            MetricValue::ElapsedCompute(_) => "elapsed_compute",
            MetricValue::Count { name, .. } => name.as_str(),
            MetricValue::Gauge { name, .. } => name.as_str(),
            MetricValue::PeakMemoryUsage { name, .. } => name.as_str(),
            MetricValue::Time { name, .. } => name.as_str(),
            MetricValue::StartTimestamp(_) => "start_timestamp",
            MetricValue::EndTimestamp(_) => "end_timestamp",
            MetricValue::PruningMetrics { name, .. } => name.as_str(),
            MetricValue::Ratio { name, .. } => name.as_str(),
            MetricValue::Custom { name, .. } => name.as_str(),
        }
    }

    /// The metric as a number.
    pub fn as_usize(&self) -> (r: usize)
        ensures
            r == measure_number::<C>(self@),
    {
        match self {
            MetricValue::OutputRows(c) => c.value,
            MetricValue::SpillCount(c) => c.value,
            MetricValue::SpilledBytes(c) => c.value,
            MetricValue::OutputBytes(c) => c.value,
            MetricValue::OutputBatches(c) => c.value,
            MetricValue::SpilledRows(c) => c.value,
            MetricValue::CurrentMemoryUsage(g) => g.value,
            MetricValue::ElapsedCompute(t) => t.nanos,
            MetricValue::Count { count, .. } => count.value,
            MetricValue::Gauge { gauge, .. } => gauge.value,
            MetricValue::PeakMemoryUsage { gauge, .. } => gauge.value,
            MetricValue::Time { time, .. } => time.nanos,
            MetricValue::StartTimestamp(t) => timestamp_usize(t),
            MetricValue::EndTimestamp(t) => timestamp_usize(t),
            MetricValue::PruningMetrics { .. } => 0,
            MetricValue::Ratio { .. } => 0,
            MetricValue::Custom { value, .. } => value.as_usize(),
        }
    }

    /// The metric when nothing was recorded.
    pub fn new_empty(&self) -> (r: Self)
        ensures
            r@ == emptied::<C>(self@),
    {
        match self {
            MetricValue::OutputRows(_) => MetricValue::OutputRows(Count::new()),
            MetricValue::SpillCount(_) => MetricValue::SpillCount(Count::new()),
            MetricValue::SpilledBytes(_) => MetricValue::SpilledBytes(Count::new()),
            MetricValue::OutputBytes(_) => MetricValue::OutputBytes(Count::new()),
            MetricValue::OutputBatches(_) => MetricValue::OutputBatches(Count::new()),
            MetricValue::SpilledRows(_) => MetricValue::SpilledRows(Count::new()),
            MetricValue::CurrentMemoryUsage(_) => MetricValue::CurrentMemoryUsage(Gauge::new()),
            MetricValue::ElapsedCompute(_) => MetricValue::ElapsedCompute(Time::new()),
            MetricValue::Count { name, .. } => MetricValue::Count {
                name: name.clone(),
                count: Count::new(),
            },
            MetricValue::Gauge { name, .. } => MetricValue::Gauge {
                name: name.clone(),
                gauge: Gauge::new(),
            },
            MetricValue::PeakMemoryUsage { name, .. } => MetricValue::PeakMemoryUsage {
                name: name.clone(),
                gauge: Gauge::new(),
            },
            MetricValue::Time { name, .. } => MetricValue::Time {
                name: name.clone(),
                time: Time::new(),
            },
            MetricValue::StartTimestamp(_) => MetricValue::StartTimestamp(Timestamp::new()),
            MetricValue::EndTimestamp(_) => MetricValue::EndTimestamp(Timestamp::new()),
            MetricValue::PruningMetrics { name, .. } => MetricValue::PruningMetrics {
                name: name.clone(),
                pruning_metrics: PruningMetrics::new(),
            },
            MetricValue::Ratio { name, ratio_metrics } => MetricValue::Ratio {
                name: name.clone(),
                ratio_metrics: RatioMetrics::new().with_merge_strategy(
                    ratio_metrics.merge_strategy,
                ).with_display_raw_values(ratio_metrics.display_raw_values),
            },
            MetricValue::Custom { name, value } => MetricValue::Custom {
                name: name.clone(),
                value: value.new_empty(),
            },
        }
    }

    /// Takes another metric of the same kind together with this one.
    pub fn aggregate(&mut self, other: &Self)
        requires
            same_kind(old(self)@, other@),
        ensures
            final(self)@ == aggregated::<C>(old(self)@, other@),
    {
        match (self, other) {
            (MetricValue::OutputRows(c), MetricValue::OutputRows(o)) => c.add(o.value),
            (MetricValue::SpillCount(c), MetricValue::SpillCount(o)) => c.add(o.value),
            (MetricValue::SpilledBytes(c), MetricValue::SpilledBytes(o)) => c.add(o.value),
            (MetricValue::OutputBytes(c), MetricValue::OutputBytes(o)) => c.add(o.value),
            (MetricValue::OutputBatches(c), MetricValue::OutputBatches(o)) => c.add(o.value),
            (MetricValue::SpilledRows(c), MetricValue::SpilledRows(o)) => c.add(o.value),
            (MetricValue::Count { count: c, .. }, MetricValue::Count { count: o, .. }) => c.add(
                o.value,
            ),
            (MetricValue::CurrentMemoryUsage(g), MetricValue::CurrentMemoryUsage(o)) => g.add(
                o.value,
            ),
            (MetricValue::Gauge { gauge: g, .. }, MetricValue::Gauge { gauge: o, .. }) => g.add(
                o.value,
            ),
            (
                MetricValue::PeakMemoryUsage { gauge: g, .. },
                MetricValue::PeakMemoryUsage { gauge: o, .. },
            ) => g.add(o.value),
            (MetricValue::ElapsedCompute(t), MetricValue::ElapsedCompute(o)) => t.add(o),
            (MetricValue::Time { time: t, .. }, MetricValue::Time { time: o, .. }) => t.add(o),
            (MetricValue::StartTimestamp(t), MetricValue::StartTimestamp(o)) => t.update_to_min(o),
            (MetricValue::EndTimestamp(t), MetricValue::EndTimestamp(o)) => t.update_to_max(o),
            (
                MetricValue::PruningMetrics { pruning_metrics: p, .. },
                MetricValue::PruningMetrics { pruning_metrics: o, .. },
            ) => {
                p.add_pruned(o.pruned);
                p.add_matched(o.matched);
                p.add_fully_matched(o.fully_matched);
            },
            (
                MetricValue::Ratio { ratio_metrics: x, .. },
                MetricValue::Ratio { ratio_metrics: o, .. },
            ) => x.merge(o),
            (MetricValue::Custom { value: v, .. }, MetricValue::Custom { value: o, .. }) =>
                v.aggregate(o),
            _ => {},
        }
    }

    /// The place of the metric when metrics are shown.
    pub fn display_sort_key(&self) -> (r: u8)
        ensures
            r == sort_key(self@),
    {
        match self {
            MetricValue::OutputRows(_) => 0,
            MetricValue::ElapsedCompute(_) => 1,
            MetricValue::OutputBytes(_) => 2,
            MetricValue::OutputBatches(_) => 3,
            MetricValue::PruningMetrics { name, .. } => if is_text(
                name,
                "files_ranges_pruned_statistics",
            ) {
                4
            } else if is_text(name, "row_groups_pruned_statistics") {
                5
            } else if is_text(name, "row_groups_pruned_bloom_filter") {
                6
            } else if is_text(name, "page_index_pages_pruned") {
                7
            } else if is_text(name, "page_index_rows_pruned") {
                8
            } else {
                9
            },
            MetricValue::SpillCount(_) => 10,
            MetricValue::SpilledBytes(_) => 11,
            MetricValue::SpilledRows(_) => 12,
            MetricValue::CurrentMemoryUsage(_) => 13,
            MetricValue::Count { name, .. } => if is_text(
                name,
                "page_index_pages_skipped_by_fully_matched",
            ) {
                8
            } else {
                14
            },
            MetricValue::PeakMemoryUsage { .. } => 13,
            MetricValue::Gauge { .. } => 15,
            MetricValue::Time { .. } => 16,
            MetricValue::Ratio { .. } => 17,
            MetricValue::StartTimestamp(_) => 18,
            MetricValue::EndTimestamp(_) => 19,
            MetricValue::Custom { .. } => 20,
        }
    }

    /// Whether the metric is a start or an end.
    pub fn is_timestamp(&self) -> (r: bool)
        ensures
            r == (self@ is StartTimestamp || self@ is EndTimestamp),
    {
        match self {
            MetricValue::StartTimestamp(_) => true,
            MetricValue::EndTimestamp(_) => true,
            _ => false,
        }
    }

    /// The text of the metric.
    pub fn to_string(&self) -> (r: String)
        requires
            displayable(self@),
        ensures
            r@ == measure_text::<C>(self@),
    {
        match self {
            MetricValue::OutputRows(c) => c.to_string(),
            MetricValue::OutputBatches(c) => c.to_string(),
            MetricValue::SpillCount(c) => c.to_string(),
            MetricValue::SpilledRows(c) => c.to_string(),
            MetricValue::Count { count, .. } => count.to_string(),
            MetricValue::SpilledBytes(c) => human_readable_size(c.value),
            MetricValue::OutputBytes(c) => human_readable_size(c.value),
            MetricValue::CurrentMemoryUsage(g) => human_readable_size(g.value),
            MetricValue::PeakMemoryUsage { gauge, .. } => human_readable_size(gauge.value),
            MetricValue::Gauge { gauge, .. } => human_readable_count(gauge.value),
            MetricValue::ElapsedCompute(t) => time_string(t),
            MetricValue::Time { time, .. } => time_string(time),
            MetricValue::StartTimestamp(t) => t.to_string(),
            MetricValue::EndTimestamp(t) => t.to_string(),
            MetricValue::PruningMetrics { pruning_metrics, .. } => pruning_metrics.to_string(),
            MetricValue::Ratio { ratio_metrics, .. } => ratio_metrics.to_string(),
            MetricValue::Custom { value, .. } => value.to_text(),
        }
    }
}

/// Taking metrics together keeps the kind and the name, so that any number of
/// them can be taken together one after the other.
pub proof fn aggregation_keeps_kind<C: CustomMetricValue>(
    a: Measure<C::Model>,
    b: Measure<C::Model>,
)
    requires
        same_kind(a, b),
    ensures
        same_kind(aggregated::<C>(a, b), a),
        measure_name(aggregated::<C>(a, b)) == measure_name(a),
        same_kind(emptied::<C>(a), a),
        measure_name(emptied::<C>(a)) == measure_name(a),
{
}

/// Any metric but a time, taken together with the empty metric of its kind, is
/// unchanged. A time gains at least a nanosecond.
pub proof fn empty_is_neutral<C: CustomMetricValue>(m: Measure<C::Model>)
    requires
        !(m is ElapsedCompute || m is Time || m is Custom),
    ensures
        aggregated::<C>(emptied::<C>(m), m) == m,
{
    if !(m is StartTimestamp || m is EndTimestamp) {
        cells::wrapped_in_range(measure_number::<C>(m));
    }
    match m {
        Measure::PruningMetrics { pruning_metrics: p, .. } => {
            cells::wrapped_in_range(p.pruned as int);
            cells::wrapped_in_range(p.matched as int);
            cells::wrapped_in_range(p.fully_matched as int);
        },
        Measure::Ratio { ratio_metrics: x, .. } => {
            cells::wrapped_in_range(x.part as int);
            cells::wrapped_in_range(x.total as int);
        },
        _ => {},
    }
}

/// Counters of one name add up, whatever the order.
pub proof fn counters_add_up<C: CustomMetricValue>(name: Seq<char>, a: Count, b: Count)
    ensures
        aggregated::<C>(
            Measure::Count { name, count: a },
            Measure::Count { name, count: b },
        ) == aggregated::<C>(
            Measure::Count { name, count: b },
            Measure::Count { name, count: a },
        ),
        measure_number::<C>(
            aggregated::<C>(Measure::Count { name, count: a }, Measure::Count { name, count: b }),
        ) == cells::wrapped(a.value + b.value),
{
}

} // verus!
