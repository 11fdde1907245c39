//! Handles of registered metrics.
//!
//! Registering a metric with the set of a plan returns its handle. A handle and
//! its clones are the same metric: what is recorded through one of them is read
//! through all of them, and by whoever reads the set.
use vstd::prelude::*;
use crate::metrics::builder::ExecutionPlanMetricsSet;
use crate::metrics::cells;
use crate::metrics::cells::{Count, Gauge, PruningMetrics, RatioMetrics, Time, Timestamp};
use crate::metrics::metrics_set::MetricModel;
use crate::metrics::value::{CustomMetricValue, Measure, MetricValue};

verus! {

/// `m` with another value.
pub open spec fn with_value<M>(m: MetricModel<M>, value: Measure<M>) -> MetricModel<M> {
    MetricModel { value, ..m }
}

/// The metrics after the value in a slot was changed.
pub open spec fn changed<M>(
    metrics: Seq<MetricModel<M>>,
    slot: int,
    value: Measure<M>,
) -> Seq<MetricModel<M>> {
    metrics.update(slot, with_value(metrics[slot], value))
}

/// Whether a metric is a counter.
pub open spec fn is_counter<M>(m: Measure<M>) -> bool {
    m is OutputRows || m is SpillCount || m is SpilledBytes || m is OutputBytes || m is OutputBatches
        || m is SpilledRows || m is Count
}

/// The counter in a metric.
pub open spec fn counter_of<M>(m: Measure<M>) -> Count
    recommends
        is_counter(m),
{
    match m {
        Measure::OutputRows(c) => c,
        Measure::SpillCount(c) => c,
        Measure::SpilledBytes(c) => c,
        Measure::OutputBytes(c) => c,
        Measure::OutputBatches(c) => c,
        Measure::SpilledRows(c) => c,
        Measure::Count { count, .. } => count,
        _ => Count { value: 0 },
    }
}

/// The metric with `c` for the counter.
pub open spec fn with_counter<M>(m: Measure<M>, c: Count) -> Measure<M> {
    match m {
        Measure::OutputRows(_) => Measure::OutputRows(c),
        Measure::SpillCount(_) => Measure::SpillCount(c),
        Measure::SpilledBytes(_) => Measure::SpilledBytes(c),
        Measure::OutputBytes(_) => Measure::OutputBytes(c),
        Measure::OutputBatches(_) => Measure::OutputBatches(c),
        Measure::SpilledRows(_) => Measure::SpilledRows(c),
        Measure::Count { name, .. } => Measure::Count { name, count: c },
        _ => m,
    }
}

/// The handle of a counter that is registered with a set.
#[derive(Clone, Copy, Debug, PartialEq, Eq, Structural)]
pub struct CountHandle {
    pub slot: usize,
}

impl CountHandle {
    /// The slot must hold a counter.
    pub open spec fn wf<M>(self, metrics: Seq<MetricModel<M>>) -> bool {
        self.slot < metrics.len() && is_counter(metrics[self.slot as int].value)
    }

    /// The counter as it stands.
    pub open spec fn reading<M>(self, metrics: Seq<MetricModel<M>>) -> Count {
        counter_of(metrics[self.slot as int].value)
    }

    /// The set with `c` for the counter.
    pub open spec fn recorded<M>(self, metrics: Seq<MetricModel<M>>, c: Count) -> Seq<
        MetricModel<M>,
    > {
        changed(metrics, self.slot as int, with_counter(metrics[self.slot as int].value, c))
    }

    /// The counter, to be read.
    pub fn cell<'a, C: CustomMetricValue>(&self, metrics: &'a ExecutionPlanMetricsSet<C>) -> (r:
        &'a Count)
        requires
            self.wf(metrics@),
        ensures
            *r == self.reading(metrics@),
    {
        match metrics.value(self.slot) {
            MetricValue::OutputRows(c) => c,
            MetricValue::SpillCount(c) => c,
            MetricValue::SpilledBytes(c) => c,
            MetricValue::OutputBytes(c) => c,
            MetricValue::OutputBatches(c) => c,
            MetricValue::SpilledRows(c) => c,
            MetricValue::Count { count, .. } => count,
            _ => vstd::pervasive::unreached(),
        }
    }

    /// The counter, to be recorded.
    pub fn cell_mut<'a, C: CustomMetricValue>(
        &self,
        metrics: &'a mut ExecutionPlanMetricsSet<C>,
    ) -> (r: &'a mut Count)
        requires
            self.wf(old(metrics)@),
        ensures
            *r == self.reading(old(metrics)@),
            final(metrics)@ == self.recorded(old(metrics)@, *final(r)),
    {
        match metrics.value_mut(self.slot) {
            MetricValue::OutputRows(c) => c,
            MetricValue::SpillCount(c) => c,
            MetricValue::SpilledBytes(c) => c,
            MetricValue::OutputBytes(c) => c,
            MetricValue::OutputBatches(c) => c,
            MetricValue::SpilledRows(c) => c,
            MetricValue::Count { count, .. } => count,
            _ => vstd::pervasive::unreached(),
        }
    }
}

/// Whether a metric is a level.
pub open spec fn is_gauge<M>(m: Measure<M>) -> bool {
    m is CurrentMemoryUsage || m is Gauge || m is PeakMemoryUsage
}

/// The level in a metric.
pub open spec fn gauge_of<M>(m: Measure<M>) -> Gauge
    recommends
        is_gauge(m),
{
    match m {
        Measure::CurrentMemoryUsage(c) => c,
        Measure::Gauge { gauge, .. } => gauge,
        Measure::PeakMemoryUsage { gauge, .. } => gauge,
        _ => Gauge { value: 0 },
    }
}

/// The metric with `c` for the level.
pub open spec fn with_gauge<M>(m: Measure<M>, c: Gauge) -> Measure<M> {
    match m {
        Measure::CurrentMemoryUsage(_) => Measure::CurrentMemoryUsage(c),
        Measure::Gauge { name, .. } => Measure::Gauge { name, gauge: c },
        Measure::PeakMemoryUsage { name, .. } => Measure::PeakMemoryUsage { name, gauge: c },
        _ => m,
    }
}

/// The handle of a level that is registered with a set.
#[derive(Clone, Copy, Debug, PartialEq, Eq, Structural)]
pub struct GaugeHandle {
    pub slot: usize,
}

impl GaugeHandle {
    /// The slot must hold a level.
    pub open spec fn wf<M>(self, metrics: Seq<MetricModel<M>>) -> bool {
        self.slot < metrics.len() && is_gauge(metrics[self.slot as int].value)
    }

    /// The level as it stands.
    pub open spec fn reading<M>(self, metrics: Seq<MetricModel<M>>) -> Gauge {
        gauge_of(metrics[self.slot as int].value)
    }

    /// The set with `c` for the level.
    pub open spec fn recorded<M>(self, metrics: Seq<MetricModel<M>>, c: Gauge) -> Seq<
        MetricModel<M>,
    > {
        changed(metrics, self.slot as int, with_gauge(metrics[self.slot as int].value, c))
    }

    /// The level, to be read.
    pub fn cell<'a, C: CustomMetricValue>(&self, metrics: &'a ExecutionPlanMetricsSet<C>) -> (r:
        &'a Gauge)
        requires
            self.wf(metrics@),
        ensures
            *r == self.reading(metrics@),
    {
        match metrics.value(self.slot) {
            MetricValue::CurrentMemoryUsage(c) => c,
            MetricValue::Gauge { gauge, .. } => gauge,
            MetricValue::PeakMemoryUsage { gauge, .. } => gauge,
            _ => vstd::pervasive::unreached(),
        }
    }

    /// The level, to be recorded.
    pub fn cell_mut<'a, C: CustomMetricValue>(
        &self,
        metrics: &'a mut ExecutionPlanMetricsSet<C>,
    ) -> (r: &'a mut Gauge)
        requires
            self.wf(old(metrics)@),
        ensures
            *r == self.reading(old(metrics)@),
            final(metrics)@ == self.recorded(old(metrics)@, *final(r)),
    {
        match metrics.value_mut(self.slot) {
            MetricValue::CurrentMemoryUsage(c) => c,
            MetricValue::Gauge { gauge, .. } => gauge,
            MetricValue::PeakMemoryUsage { gauge, .. } => gauge,
            _ => vstd::pervasive::unreached(),
        }
    }
}

/// Whether a metric is a time spent.
pub open spec fn is_time<M>(m: Measure<M>) -> bool {
    m is ElapsedCompute || m is Time
}

/// The time spent in a metric.
pub open spec fn time_of<M>(m: Measure<M>) -> Time
    recommends
        is_time(m),
{
    match m {
        Measure::ElapsedCompute(c) => c,
        Measure::Time { time, .. } => time,
        _ => Time { nanos: 0 },
    }
}

/// The metric with `c` for the time spent.
pub open spec fn with_time<M>(m: Measure<M>, c: Time) -> Measure<M> {
    match m {
        Measure::ElapsedCompute(_) => Measure::ElapsedCompute(c),
        Measure::Time { name, .. } => Measure::Time { name, time: c },
        _ => m,
    }
}

/// The handle of a time spent that is registered with a set.
#[derive(Clone, Copy, Debug, PartialEq, Eq, Structural)]
pub struct TimeHandle {
    pub slot: usize,
}

impl TimeHandle {
    /// The slot must hold a time spent.
    pub open spec fn wf<M>(self, metrics: Seq<MetricModel<M>>) -> bool {
        self.slot < metrics.len() && is_time(metrics[self.slot as int].value)
    }

    /// The time spent as it stands.
    pub open spec fn reading<M>(self, metrics: Seq<MetricModel<M>>) -> Time {
        time_of(metrics[self.slot as int].value)
    }

    /// The set with `c` for the time spent.
    pub open spec fn recorded<M>(self, metrics: Seq<MetricModel<M>>, c: Time) -> Seq<
        MetricModel<M>,
    > {
        changed(metrics, self.slot as int, with_time(metrics[self.slot as int].value, c))
    }

    /// The time spent, to be read.
    pub fn cell<'a, C: CustomMetricValue>(&self, metrics: &'a ExecutionPlanMetricsSet<C>) -> (r:
        &'a Time)
        requires
            self.wf(metrics@),
        ensures
            *r == self.reading(metrics@),
    {
        match metrics.value(self.slot) {
            MetricValue::ElapsedCompute(c) => c,
            MetricValue::Time { time, .. } => time,
            _ => vstd::pervasive::unreached(),
        }
    }

    /// The time spent, to be recorded.
    pub fn cell_mut<'a, C: CustomMetricValue>(
        &self,
        metrics: &'a mut ExecutionPlanMetricsSet<C>,
    ) -> (r: &'a mut Time)
        requires
            self.wf(old(metrics)@),
        ensures
            *r == self.reading(old(metrics)@),
            final(metrics)@ == self.recorded(old(metrics)@, *final(r)),
    {
        match metrics.value_mut(self.slot) {
            MetricValue::ElapsedCompute(c) => c,
            MetricValue::Time { time, .. } => time,
            _ => vstd::pervasive::unreached(),
        }
    }
}

/// Whether a metric is a start or an end.
pub open spec fn is_timestamp<M>(m: Measure<M>) -> bool {
    m is StartTimestamp || m is EndTimestamp
}

/// The start or the end in a metric.
pub open spec fn timestamp_of<M>(m: Measure<M>) -> Timestamp
    recommends
        is_timestamp(m),
{
    match m {
        Measure::StartTimestamp(c) => c,
        Measure::EndTimestamp(c) => c,
        _ => Timestamp { timestamp: None },
    }
}

/// The metric with `c` for the start or the end.
pub open spec fn with_timestamp<M>(m: Measure<M>, c: Timestamp) -> Measure<M> {
    match m {
        Measure::StartTimestamp(_) => Measure::StartTimestamp(c),
        Measure::EndTimestamp(_) => Measure::EndTimestamp(c),
        _ => m,
    }
}

/// The handle of a start or an end that is registered with a set.
#[derive(Clone, Copy, Debug, PartialEq, Eq, Structural)]
pub struct TimestampHandle {
    pub slot: usize,
}

impl TimestampHandle {
    /// The slot must hold a start or an end.
    pub open spec fn wf<M>(self, metrics: Seq<MetricModel<M>>) -> bool {
        self.slot < metrics.len() && is_timestamp(metrics[self.slot as int].value)
    }

    /// The start or the end as it stands.
    pub open spec fn reading<M>(self, metrics: Seq<MetricModel<M>>) -> Timestamp {
        timestamp_of(metrics[self.slot as int].value)
    }

    /// The set with `c` for the start or the end.
    pub open spec fn recorded<M>(self, metrics: Seq<MetricModel<M>>, c: Timestamp) -> Seq<
        MetricModel<M>,
    > {
        changed(metrics, self.slot as int, with_timestamp(metrics[self.slot as int].value, c))
    }

    /// The start or the end, to be read.
    pub fn cell<'a, C: CustomMetricValue>(&self, metrics: &'a ExecutionPlanMetricsSet<C>) -> (r:
        &'a Timestamp)
        requires
            self.wf(metrics@),
        ensures
            *r == self.reading(metrics@),
    {
        match metrics.value(self.slot) {
            MetricValue::StartTimestamp(c) => c,
            MetricValue::EndTimestamp(c) => c,
            _ => vstd::pervasive::unreached(),
        }
    }

    /// The start or the end, to be recorded.
    pub fn cell_mut<'a, C: CustomMetricValue>(
        &self,
        metrics: &'a mut ExecutionPlanMetricsSet<C>,
    ) -> (r: &'a mut Timestamp)
        requires
            self.wf(old(metrics)@),
        ensures
            *r == self.reading(old(metrics)@),
            final(metrics)@ == self.recorded(old(metrics)@, *final(r)),
    {
        match metrics.value_mut(self.slot) {
            MetricValue::StartTimestamp(c) => c,
            MetricValue::EndTimestamp(c) => c,
            _ => vstd::pervasive::unreached(),
        }
    }
}

/// Whether a metric is pruning figures.
pub open spec fn is_pruning<M>(m: Measure<M>) -> bool {
    m is PruningMetrics
}

/// The pruning figures in a metric.
pub open spec fn pruning_of<M>(m: Measure<M>) -> PruningMetrics
    recommends
        is_pruning(m),
{
    match m {
        Measure::PruningMetrics { pruning_metrics, .. } => pruning_metrics,
        _ => PruningMetrics { pruned: 0, matched: 0, fully_matched: 0 },
    }
}

/// The metric with `c` for the pruning figures.
pub open spec fn with_pruning<M>(m: Measure<M>, c: PruningMetrics) -> Measure<M> {
    match m {
        Measure::PruningMetrics { name, .. } => Measure::PruningMetrics {
            name,
            pruning_metrics: c,
        },
        _ => m,
    }
}

/// The handle of pruning figures that is registered with a set.
#[derive(Clone, Copy, Debug, PartialEq, Eq, Structural)]
pub struct PruningHandle {
    pub slot: usize,
}

impl PruningHandle {
    /// The slot must hold pruning figures.
    pub open spec fn wf<M>(self, metrics: Seq<MetricModel<M>>) -> bool {
        self.slot < metrics.len() && is_pruning(metrics[self.slot as int].value)
    }

    /// The pruning figures as they stand.
    pub open spec fn reading<M>(self, metrics: Seq<MetricModel<M>>) -> PruningMetrics {
        pruning_of(metrics[self.slot as int].value)
    }

    /// The set with `c` for the pruning figures.
    pub open spec fn recorded<M>(self, metrics: Seq<MetricModel<M>>, c: PruningMetrics) -> Seq<
        MetricModel<M>,
    > {
        changed(metrics, self.slot as int, with_pruning(metrics[self.slot as int].value, c))
    }

    /// The pruning figures, to be read.
    pub fn cell<'a, C: CustomMetricValue>(&self, metrics: &'a ExecutionPlanMetricsSet<C>) -> (r:
        &'a PruningMetrics)
        requires
            self.wf(metrics@),
        ensures
            *r == self.reading(metrics@),
    {
        match metrics.value(self.slot) {
            MetricValue::PruningMetrics { pruning_metrics, .. } => pruning_metrics,
            _ => vstd::pervasive::unreached(),
        }
    }

    /// The pruning figures, to be recorded.
    pub fn cell_mut<'a, C: CustomMetricValue>(
        &self,
        metrics: &'a mut ExecutionPlanMetricsSet<C>,
    ) -> (r: &'a mut PruningMetrics)
        requires
            self.wf(old(metrics)@),
        ensures
            *r == self.reading(old(metrics)@),
            final(metrics)@ == self.recorded(old(metrics)@, *final(r)),
    {
        match metrics.value_mut(self.slot) {
            MetricValue::PruningMetrics { pruning_metrics, .. } => pruning_metrics,
            _ => vstd::pervasive::unreached(),
        }
    }
}

/// Whether a metric is a ratio.
pub open spec fn is_ratio<M>(m: Measure<M>) -> bool {
    m is Ratio
}

/// The ratio in a metric.
pub open spec fn ratio_of<M>(m: Measure<M>) -> RatioMetrics
    recommends
        is_ratio(m),
{
    match m {
        Measure::Ratio { ratio_metrics, .. } => ratio_metrics,
        _ => RatioMetrics {
            part: 0,
            total: 0,
            merge_strategy: cells::RatioMergeStrategy::AddPartAddTotal,
            display_raw_values: true,
        },
    }
}

/// The metric with `c` for the ratio.
pub open spec fn with_ratio<M>(m: Measure<M>, c: RatioMetrics) -> Measure<M> {
    match m {
        Measure::Ratio { name, .. } => Measure::Ratio { name, ratio_metrics: c },
        _ => m,
    }
}

/// The handle of a ratio that is registered with a set.
#[derive(Clone, Copy, Debug, PartialEq, Eq, Structural)]
pub struct RatioHandle {
    pub slot: usize,
}

impl RatioHandle {
    /// The slot must hold a ratio.
    pub open spec fn wf<M>(self, metrics: Seq<MetricModel<M>>) -> bool {
        self.slot < metrics.len() && is_ratio(metrics[self.slot as int].value)
    }

    /// The ratio as it stands.
    pub open spec fn reading<M>(self, metrics: Seq<MetricModel<M>>) -> RatioMetrics {
        ratio_of(metrics[self.slot as int].value)
    }

    /// The set with `c` for the ratio.
    pub open spec fn recorded<M>(self, metrics: Seq<MetricModel<M>>, c: RatioMetrics) -> Seq<
        MetricModel<M>,
    > {
        changed(metrics, self.slot as int, with_ratio(metrics[self.slot as int].value, c))
    }

    /// The ratio, to be read.
    pub fn cell<'a, C: CustomMetricValue>(&self, metrics: &'a ExecutionPlanMetricsSet<C>) -> (r:
        &'a RatioMetrics)
        requires
            self.wf(metrics@),
        ensures
            *r == self.reading(metrics@),
    {
        match metrics.value(self.slot) {
            MetricValue::Ratio { ratio_metrics, .. } => ratio_metrics,
            _ => vstd::pervasive::unreached(),
        }
    }

    /// The ratio, to be recorded.
    pub fn cell_mut<'a, C: CustomMetricValue>(
        &self,
        metrics: &'a mut ExecutionPlanMetricsSet<C>,
    ) -> (r: &'a mut RatioMetrics)
        requires
            self.wf(old(metrics)@),
        ensures
            *r == self.reading(old(metrics)@),
            final(metrics)@ == self.recorded(old(metrics)@, *final(r)),
    {
        match metrics.value_mut(self.slot) {
            MetricValue::Ratio { ratio_metrics, .. } => ratio_metrics,
            _ => vstd::pervasive::unreached(),
        }
    }
}

/// `c` with `n` more counted.
pub open spec fn more(c: Count, n: usize) -> Count {
    Count { value: cells::wrapped(c.value + n) as usize }
}

/// The level `n` higher.
pub open spec fn raised(g: Gauge, n: usize) -> Gauge {
    Gauge { value: cells::wrapped(g.value + n) as usize }
}

/// The level `n` lower.
pub open spec fn lowered(g: Gauge, n: usize) -> Gauge {
    Gauge { value: cells::wrapped(g.value - n) as usize }
}

/// A clone of a counter is the same counter: after `n` more were counted through
/// one of them, both show `n` more, and a counter that was registered on its own
/// shows what it did.
pub proof fn a_clone_is_the_same_counter<M>(
    counter: CountHandle,
    clone: CountHandle,
    other: CountHandle,
    metrics: Seq<MetricModel<M>>,
    n: usize,
)
    requires
        counter.wf(metrics),
        cloned(counter, clone),
    ensures
        ({
            let after = counter.recorded(metrics, more(counter.reading(metrics), n));
            &&& counter.wf(after) && clone.wf(after)
            &&& counter.reading(after) == more(counter.reading(metrics), n)
            &&& clone.reading(after) == counter.reading(after)
            &&& clone.reading(metrics).value + n <= usize::MAX ==> clone.reading(after).value
                == clone.reading(metrics).value + n
            &&& clone.recorded(metrics, more(clone.reading(metrics), n)) == after
            &&& other.wf(metrics) && other.slot != counter.slot ==> other.wf(after)
                && other.reading(after) == other.reading(metrics)
        }),
{
    if counter.reading(metrics).value + n <= usize::MAX {
        cells::wrapped_in_range(counter.reading(metrics).value + n);
    }
}

/// Registering one more metric gives it a slot that no handle has yet, and no
/// counter shows anything else for it.
pub proof fn a_new_metric_touches_no_counter<M>(
    counter: CountHandle,
    metrics: Seq<MetricModel<M>>,
    metric: MetricModel<M>,
)
    requires
        counter.wf(metrics),
    ensures
        counter.slot != metrics.len(),
        counter.wf(metrics.push(metric)),
        counter.reading(metrics.push(metric)) == counter.reading(metrics),
{
}

/// A clone of a level is the same level: it shows what was recorded through the
/// other, what one raised the other lowers back, and a level that was registered
/// on its own shows what it did.
pub proof fn a_clone_is_the_same_level<M>(
    level: GaugeHandle,
    clone: GaugeHandle,
    other: GaugeHandle,
    metrics: Seq<MetricModel<M>>,
    n: usize,
    g: Gauge,
)
    requires
        level.wf(metrics),
        cloned(level, clone),
    ensures
        ({
            let after = level.recorded(metrics, g);
            &&& level.wf(after) && clone.wf(after)
            &&& level.reading(after) == g && clone.reading(after) == g
            &&& other.wf(metrics) && other.slot != level.slot ==> other.wf(after)
                && other.reading(after) == other.reading(metrics)
        }),
        ({
            let high = level.recorded(metrics, raised(level.reading(metrics), n));
            let back = clone.recorded(high, lowered(clone.reading(high), n));
            &&& level.reading(metrics).value + n <= usize::MAX ==> clone.reading(high).value
                == level.reading(metrics).value + n
            &&& level.reading(back) == level.reading(metrics)
            &&& back == metrics
        }),
{
    let before = level.reading(metrics);
    cells::raising_and_lowering_cancel(before.value, n);
    if before.value + n <= usize::MAX {
        cells::wrapped_in_range(before.value + n);
    }
    vstd::arithmetic::div_mod::lemma_mod_bound(before.value + n, usize::MAX + 1);
    let high = level.recorded(metrics, raised(before, n));
    let back = clone.recorded(high, lowered(clone.reading(high), n));
    assert(lowered(raised(before, n), n) == before);
    assert(back[level.slot as int] == metrics[level.slot as int]);
    assert(back =~= metrics);
}

/// A clone of a time spent is the same time spent: it shows what was recorded through the
/// other, and one that was registered on its own shows what it did.
pub proof fn a_clone_is_the_same_time<M>(
    time: TimeHandle,
    clone: TimeHandle,
    other: TimeHandle,
    metrics: Seq<MetricModel<M>>,
    c: Time,
)
    requires
        time.wf(metrics),
        cloned(time, clone),
    ensures
        ({
            let after = time.recorded(metrics, c);
            &&& time.wf(after) && clone.wf(after)
            &&& time.reading(after) == c && clone.reading(after) == c
            &&& other.wf(metrics) && other.slot != time.slot ==> other.wf(after)
                && other.reading(after) == other.reading(metrics)
        }),
{
}

/// A clone of a start or end is the same start or end: it shows what was recorded through the
/// other, and one that was registered on its own shows what it did.
pub proof fn a_clone_is_the_same_timestamp<M>(
    moment: TimestampHandle,
    clone: TimestampHandle,
    other: TimestampHandle,
    metrics: Seq<MetricModel<M>>,
    c: Timestamp,
)
    requires
        moment.wf(metrics),
        cloned(moment, clone),
    ensures
        ({
            let after = moment.recorded(metrics, c);
            &&& moment.wf(after) && clone.wf(after)
            &&& moment.reading(after) == c && clone.reading(after) == c
            &&& other.wf(metrics) && other.slot != moment.slot ==> other.wf(after)
                && other.reading(after) == other.reading(metrics)
        }),
{
}

/// A clone of pruning figures is the same pruning figures: it shows what was
/// recorded through the other, and those that were registered on their own show
/// what they did.
pub proof fn a_clone_is_the_same_pruning<M>(
    figures: PruningHandle,
    clone: PruningHandle,
    other: PruningHandle,
    metrics: Seq<MetricModel<M>>,
    c: PruningMetrics,
)
    requires
        figures.wf(metrics),
        cloned(figures, clone),
    ensures
        ({
            let after = figures.recorded(metrics, c);
            &&& figures.wf(after) && clone.wf(after)
            &&& figures.reading(after) == c && clone.reading(after) == c
            &&& other.wf(metrics) && other.slot != figures.slot ==> other.wf(after)
                && other.reading(after) == other.reading(metrics)
        }),
{
}

/// A clone of a ratio is the same ratio: it shows what was recorded through the
/// other, and one that was registered on its own shows what it did.
pub proof fn a_clone_is_the_same_ratio<M>(
    ratio: RatioHandle,
    clone: RatioHandle,
    other: RatioHandle,
    metrics: Seq<MetricModel<M>>,
    c: RatioMetrics,
)
    requires
        ratio.wf(metrics),
        cloned(ratio, clone),
    ensures
        ({
            let after = ratio.recorded(metrics, c);
            &&& ratio.wf(after) && clone.wf(after)
            &&& ratio.reading(after) == c && clone.reading(after) == c
            &&& other.wf(metrics) && other.slot != ratio.slot ==> other.wf(after)
                && other.reading(after) == other.reading(metrics)
        }),
{
}

} // verus!
