//! The metrics that every operator records, and what is derived from them.
use vstd::prelude::*;
use crate::metrics::builder::{ExecutionPlanMetricsSet, MetricBuilder};
use crate::metrics::cells::{
    Count, MetricCategory, MetricType, Time, Timestamp, UtcTime,
};
use crate::metrics::handles::{CountHandle, TimeHandle, TimestampHandle};
use crate::metrics::metrics_set::{MetricModel, MetricsSet};
use crate::metrics::value::{CustomMetricValue, Measure, MetricValue};
use crate::metrics::handles;

verus! {

/// A counter: registered with a set, or on its own.
#[derive(Debug, PartialEq, Eq, Structural)]
pub enum CountCell {
    Registered(CountHandle),
    Detached(Count),
}

/// A timestamp: registered with a set, or on its own.
#[derive(Debug, PartialEq, Eq, Structural)]
pub enum TimestampCell {
    Registered(TimestampHandle),
    Detached(Timestamp),
}

impl CountCell {
    /// A handle must be that of a counter of the set.
    pub open spec fn wf<M>(self, metrics: Seq<MetricModel<M>>) -> bool {
        self matches CountCell::Registered(handle) ==> handle.wf(metrics)
    }

    /// The cell after `n` more were counted.
    pub open spec fn cell_after(self, n: usize) -> CountCell {
        match self {
            CountCell::Registered(handle) => CountCell::Registered(handle),
            CountCell::Detached(c) => CountCell::Detached(handles::more(c, n)),
        }
    }

    /// The set after `n` more were counted.
    pub open spec fn metrics_after<M>(self, metrics: Seq<MetricModel<M>>, n: usize) -> Seq<
        MetricModel<M>,
    > {
        match self {
            CountCell::Registered(handle) => handle.recorded(
                metrics,
                handles::more(handle.reading(metrics), n),
            ),
            CountCell::Detached(_) => metrics,
        }
    }

    /// What has been counted.
    pub open spec fn reading<M>(self, metrics: Seq<MetricModel<M>>) -> usize {
        match self {
            CountCell::Registered(handle) => handle.reading(metrics).value,
            CountCell::Detached(c) => c.value,
        }
    }

    /// What has been counted.
    pub fn value<C: CustomMetricValue>(&self, metrics: &ExecutionPlanMetricsSet<C>) -> (r: usize)
        requires
            self.wf(metrics@),
        ensures
            r == self.reading(metrics@),
    {
        match self {
            CountCell::Registered(handle) => handle.cell(metrics).value(),
            CountCell::Detached(c) => c.value,
        }
    }

    /// Counts `n` more.
    pub fn add<C: CustomMetricValue>(&mut self, metrics: &mut ExecutionPlanMetricsSet<C>, n: usize)
        requires
            old(self).wf(old(metrics)@),
        ensures
            *final(self) == old(self).cell_after(n),
            final(metrics)@ == old(self).metrics_after(old(metrics)@, n),
    {
        match self {
            CountCell::Registered(handle) => handle.cell_mut(metrics).add(n),
            CountCell::Detached(c) => c.add(n),
        }
    }
}

impl TimestampCell {
    /// A handle must be that of a moment of the set.
    pub open spec fn wf<M>(self, metrics: Seq<MetricModel<M>>) -> bool {
        self matches TimestampCell::Registered(handle) ==> handle.wf(metrics)
    }

    /// The moment, if it is known.
    pub open spec fn moment<M>(self, metrics: Seq<MetricModel<M>>) -> Option<UtcTime> {
        match self {
            TimestampCell::Registered(handle) => handle.reading(metrics).timestamp,
            TimestampCell::Detached(t) => t.timestamp,
        }
    }

    /// The cell after the moment was recorded.
    pub open spec fn cell_after(self, now: UtcTime) -> TimestampCell {
        match self {
            TimestampCell::Registered(handle) => TimestampCell::Registered(handle),
            TimestampCell::Detached(_) => TimestampCell::Detached(
                Timestamp { timestamp: Some(now) },
            ),
        }
    }

    /// The set after the moment was recorded.
    pub open spec fn metrics_after<M>(self, metrics: Seq<MetricModel<M>>, now: UtcTime) -> Seq<
        MetricModel<M>,
    > {
        match self {
            TimestampCell::Registered(handle) => handle.recorded(
                metrics,
                Timestamp { timestamp: Some(now) },
            ),
            TimestampCell::Detached(_) => metrics,
        }
    }

    /// Records the moment.
    pub fn set<C: CustomMetricValue>(
        &mut self,
        metrics: &mut ExecutionPlanMetricsSet<C>,
        now: UtcTime,
    )
        requires
            old(self).wf(old(metrics)@),
        ensures
            *final(self) == old(self).cell_after(now),
            final(metrics)@ == old(self).metrics_after(old(metrics)@, now),
    {
        match self {
            TimestampCell::Registered(handle) => handle.cell_mut(metrics).set(now),
            TimestampCell::Detached(t) => t.set(now),
        }
    }

    /// The moment, if it is known.
    pub fn value<C: CustomMetricValue>(&self, metrics: &ExecutionPlanMetricsSet<C>) -> (r: Option<
        UtcTime,
    >)
        requires
            self.wf(metrics@),
        ensures
            r == self.moment(metrics@),
    {
        match self {
            TimestampCell::Registered(handle) => handle.cell(metrics).value(),
            TimestampCell::Detached(t) => t.timestamp,
        }
    }
}

/// What an input stream answered when it was polled.
#[derive(Clone, Copy, Debug, PartialEq, Eq, Structural)]
pub enum PollOutcome {
    /// Nothing is ready yet.
    Pending,
    /// A batch of so many rows, which takes so many bytes of memory.
    Batch { rows: usize, bytes: usize },
    /// An error.
    Failed,
    /// The end of the stream.
    Exhausted,
}

/// The metrics that every operator records for one partition. A baseline that
/// goes out of scope records nothing by itself: whoever holds it calls
/// [`BaselineMetrics::try_done`] first.
#[derive(Debug, PartialEq, Eq, Structural)]
pub struct BaselineMetrics {
    pub end_time: TimestampCell,
    pub elapsed_compute: TimeHandle,
    pub output_rows: CountCell,
    pub output_bytes: CountCell,
    pub output_batches: CountCell,
}

/// A metric of one partition without labels.
pub open spec fn plain_metric<M>(
    value: Measure<M>,
    partition: usize,
    metric_type: MetricType,
    category: MetricCategory,
) -> MetricModel<M> {
    MetricModel {
        value,
        labels: seq![],
        partition: Some(partition),
        metric_type,
        metric_category: Some(category),
    }
}

/// The metrics that a new baseline registers: the start at the given moment,
/// the end not known yet, and nothing counted.
pub open spec fn baseline_metrics<M>(partition: usize, now: UtcTime) -> Seq<MetricModel<M>> {
    seq![
        plain_metric(
            Measure::StartTimestamp(Timestamp { timestamp: Some(now) }),
            partition,
            MetricType::Dev,
            MetricCategory::Timing,
        ),
        plain_metric(
            Measure::EndTimestamp(Timestamp { timestamp: None }),
            partition,
            MetricType::Summary,
            MetricCategory::Timing,
        ),
        plain_metric(
            Measure::ElapsedCompute(Time { nanos: 0 }),
            partition,
            MetricType::Summary,
            MetricCategory::Timing,
        ),
        plain_metric(
            Measure::OutputRows(Count { value: 0 }),
            partition,
            MetricType::Summary,
            MetricCategory::Rows,
        ),
        plain_metric(
            Measure::OutputBytes(Count { value: 0 }),
            partition,
            MetricType::Summary,
            MetricCategory::Bytes,
        ),
        plain_metric(
            Measure::OutputBatches(Count { value: 0 }),
            partition,
            MetricType::Dev,
            MetricCategory::Rows,
        ),
    ]
}

impl BaselineMetrics {
    /// Every handle is that of a metric of its kind, and no counter is used twice.
    pub open spec fn wf<M>(self, metrics: Seq<MetricModel<M>>) -> bool {
        &&& self.end_time.wf(metrics)
        &&& self.elapsed_compute.wf(metrics)
        &&& self.output_rows.wf(metrics)
        &&& self.output_bytes.wf(metrics)
        &&& self.output_batches.wf(metrics)
        &&& self.output_rows is Registered ==> self.output_rows != self.output_bytes
            && self.output_rows != self.output_batches
        &&& self.output_bytes is Registered ==> self.output_bytes != self.output_batches
    }

    /// Registers the baseline metrics of a partition, started now.
    pub fn new<C: CustomMetricValue>(
        metrics: &mut ExecutionPlanMetricsSet<C>,
        partition: usize,
    ) -> (r: Self)
        ensures
            exists|now: UtcTime| #[trigger]
                call_ensures(UtcTime::now, (), now) && final(metrics)@ == old(metrics)@
                    + baseline_metrics(partition, now),
            r.end_time matches TimestampCell::Registered(h) && h.slot == old(metrics)@.len() + 1,
            r.elapsed_compute.slot == old(metrics)@.len() + 2,
            r.output_rows matches CountCell::Registered(h) && h.slot == old(metrics)@.len() + 3,
            r.output_bytes matches CountCell::Registered(h) && h.slot == old(metrics)@.len() + 4,
            r.output_batches matches CountCell::Registered(h) && h.slot == old(metrics)@.len() + 5,
            r.wf(final(metrics)@),
    {
        let now: UtcTime = UtcTime::now();
        assert(call_ensures(UtcTime::now, (), now));
        Self::new_at(metrics, partition, now)
    }

    /// Registers the baseline metrics of a partition, started at the given
    /// moment.
    pub fn new_at<C: CustomMetricValue>(
        metrics: &mut ExecutionPlanMetricsSet<C>,
        partition: usize,
        now: UtcTime,
    ) -> (r: Self)
        ensures
            final(metrics)@ == old(metrics)@ + baseline_metrics(partition, now),
            r.end_time matches TimestampCell::Registered(h) && h.slot == old(metrics)@.len() + 1,
            r.elapsed_compute.slot == old(metrics)@.len() + 2,
            r.output_rows matches CountCell::Registered(h) && h.slot == old(metrics)@.len() + 3,
            r.output_bytes matches CountCell::Registered(h) && h.slot == old(metrics)@.len() + 4,
            r.output_batches matches CountCell::Registered(h) && h.slot == old(metrics)@.len() + 5,
            r.wf(final(metrics)@),
    {
        let ghost before = metrics@;
        let start = MetricBuilder::new().start_timestamp(metrics, partition);
        start.cell_mut(metrics).set(now);
        let end = MetricBuilder::new().with_type(MetricType::Summary).end_timestamp(
            metrics,
            partition,
        );
        let elapsed = MetricBuilder::new().with_type(MetricType::Summary).elapsed_compute(
            metrics,
            partition,
        );
        let rows = MetricBuilder::new().with_type(MetricType::Summary).output_rows(
            metrics,
            partition,
        );
        let bytes = MetricBuilder::new().with_type(MetricType::Summary).output_bytes(
            metrics,
            partition,
        );
        let batches = MetricBuilder::new().with_type(MetricType::Dev).output_batches(
            metrics,
            partition,
        );
        proof {
            assert(metrics@ =~= before + baseline_metrics(partition, now));
        }
        BaselineMetrics {
            end_time: TimestampCell::Registered(end),
            elapsed_compute: elapsed,
            output_rows: CountCell::Registered(rows),
            output_bytes: CountCell::Registered(bytes),
            output_batches: CountCell::Registered(batches),
        }
    }

    /// A baseline for an intermediate step: it shares the time spent and counts
    /// everything else on its own.
    pub fn intermediate(&self) -> (r: BaselineMetrics)
        ensures
            r == (BaselineMetrics {
                end_time: TimestampCell::Detached(Timestamp { timestamp: None }),
                elapsed_compute: self.elapsed_compute,
                output_rows: CountCell::Detached(Count { value: 0 }),
                output_bytes: CountCell::Detached(Count { value: 0 }),
                output_batches: CountCell::Detached(Count { value: 0 }),
            }),
    {
        BaselineMetrics {
            end_time: TimestampCell::Detached(Timestamp::new()),
            elapsed_compute: self.elapsed_compute,
            output_rows: CountCell::Detached(Count::new()),
            output_bytes: CountCell::Detached(Count::new()),
            output_batches: CountCell::Detached(Count::new()),
        }
    }

    /// The time spent.
    pub fn elapsed_compute(&self) -> (r: TimeHandle)
        ensures
            r == self.elapsed_compute,
    {
        self.elapsed_compute
    }

    /// The counter of the rows that come out.
    pub fn output_rows(&self) -> (r: &CountCell)
        ensures
            *r == self.output_rows,
    {
        &self.output_rows
    }

    /// The counter of the batches that come out.
    pub fn output_batches(&self) -> (r: &CountCell)
        ensures
            *r == self.output_batches,
    {
        &self.output_batches
    }

    /// Records that the work ended at the given moment.
    pub fn done_at<C: CustomMetricValue>(
        &mut self,
        metrics: &mut ExecutionPlanMetricsSet<C>,
        now: UtcTime,
    )
        requires
            old(self).wf(old(metrics)@),
        ensures
            *final(self) == (BaselineMetrics {
                end_time: old(self).end_time.cell_after(now),
                ..*old(self)
            }),
            final(metrics)@ == old(self).end_time.metrics_after(old(metrics)@, now),
    {
        self.end_time.set(metrics, now);
    }

    /// Records that the work ended now.
    pub fn done<C: CustomMetricValue>(&mut self, metrics: &mut ExecutionPlanMetricsSet<C>)
        requires
            old(self).wf(old(metrics)@),
        ensures
            exists|now: UtcTime| #[trigger]
                call_ensures(UtcTime::now, (), now) && *final(self) == (BaselineMetrics {
                    end_time: old(self).end_time.cell_after(now),
                    ..*old(self)
                }) && final(metrics)@ == old(self).end_time.metrics_after(old(metrics)@, now),
    {
        let now: UtcTime = UtcTime::now();
        assert(call_ensures(UtcTime::now, (), now));
        self.done_at(metrics, now);
    }

    /// Records `num_rows` rows that come out.
    pub fn record_output<C: CustomMetricValue>(
        &mut self,
        metrics: &mut ExecutionPlanMetricsSet<C>,
        num_rows: usize,
    )
        requires
            old(self).wf(old(metrics)@),
        ensures
            *final(self) == (BaselineMetrics {
                output_rows: old(self).output_rows.cell_after(num_rows),
                ..*old(self)
            }),
            final(metrics)@ == old(self).output_rows.metrics_after(old(metrics)@, num_rows),
    {
        self.output_rows.add(metrics, num_rows);
    }

    /// The set after a batch was recorded: its rows, its bytes, and the batch
    /// itself.
    pub open spec fn batch_recorded<M>(
        self,
        metrics: Seq<MetricModel<M>>,
        rows: usize,
        bytes: usize,
    ) -> Seq<MetricModel<M>> {
        self.output_batches.metrics_after(
            self.output_bytes.metrics_after(self.output_rows.metrics_after(metrics, rows), bytes),
            1,
        )
    }

    /// Records a batch that comes out.
    pub fn record_batch<C: CustomMetricValue>(
        &mut self,
        metrics: &mut ExecutionPlanMetricsSet<C>,
        rows: usize,
        bytes: usize,
    )
        requires
            old(self).wf(old(metrics)@),
        ensures
            *final(self) == (BaselineMetrics {
                output_rows: old(self).output_rows.cell_after(rows),
                output_bytes: old(self).output_bytes.cell_after(bytes),
                output_batches: old(self).output_batches.cell_after(1),
                ..*old(self)
            }),
            final(metrics)@ == old(self).batch_recorded(old(metrics)@, rows, bytes),
    {
        self.output_rows.add(metrics, rows);
        self.output_bytes.add(metrics, bytes);
        self.output_batches.add(metrics, 1);
    }

    /// Records that the work ended now, unless an end was recorded already.
    pub fn try_done<C: CustomMetricValue>(&mut self, metrics: &mut ExecutionPlanMetricsSet<C>)
        requires
            old(self).wf(old(metrics)@),
        ensures
            old(self).end_time.moment(old(metrics)@) is Some ==> *final(self) == *old(self)
                && final(metrics)@ == old(metrics)@,
            old(self).end_time.moment(old(metrics)@) is None ==> exists|now: UtcTime| #[trigger]
                call_ensures(UtcTime::now, (), now) && *final(self) == (BaselineMetrics {
                    end_time: old(self).end_time.cell_after(now),
                    ..*old(self)
                }) && final(metrics)@ == old(self).end_time.metrics_after(old(metrics)@, now),
    {
        if self.end_time.value(metrics).is_none() {
            self.done(metrics);
        }
    }

    /// Records what a poll of the output answered: a batch is counted, an error
    /// or the end of the stream ends the work now, and a stream that is not
    /// ready records nothing.
    pub fn record_poll<C: CustomMetricValue>(
        &mut self,
        metrics: &mut ExecutionPlanMetricsSet<C>,
        poll: PollOutcome,
    )
        requires
            old(self).wf(old(metrics)@),
        ensures
            match poll {
                PollOutcome::Pending => *final(self) == *old(self) && final(metrics)@ == old(
                    metrics,
                )@,
                PollOutcome::Batch { rows, bytes } => *final(self) == (BaselineMetrics {
                    output_rows: old(self).output_rows.cell_after(rows),
                    output_bytes: old(self).output_bytes.cell_after(bytes),
                    output_batches: old(self).output_batches.cell_after(1),
                    ..*old(self)
                }) && final(metrics)@ == old(self).batch_recorded(old(metrics)@, rows, bytes),
                _ => exists|now: UtcTime| #[trigger]
                    call_ensures(UtcTime::now, (), now) && *final(self) == (BaselineMetrics {
                        end_time: old(self).end_time.cell_after(now),
                        ..*old(self)
                    }) && final(metrics)@ == old(self).end_time.metrics_after(old(metrics)@, now),
            },
    {
        match poll {
            PollOutcome::Pending => {},
            PollOutcome::Batch { rows, bytes } => self.record_batch(metrics, rows, bytes),
            PollOutcome::Failed => self.done(metrics),
            PollOutcome::Exhausted => self.done(metrics),
        }
    }
}

/// What is recorded through a baseline is what the set shows: after `n` rows were
/// recorded, the counter of the rows shows `n` more, and every other metric of
/// the set is as it was.
pub proof fn recorded_rows_are_seen<M>(
    baseline: BaselineMetrics,
    metrics: Seq<MetricModel<M>>,
    n: usize,
    rows: CountHandle,
    other: int,
)
    requires
        baseline.wf(metrics),
        baseline.output_rows == CountCell::Registered(rows),
        metrics[rows.slot as int].value is OutputRows,
        0 <= other < metrics.len(),
        other != rows.slot,
    ensures
        ({
            let after = baseline.output_rows.metrics_after(metrics, n);
            &&& after.len() == metrics.len()
            &&& after[rows.slot as int].value == Measure::<M>::OutputRows(
                handles::more(metrics[rows.slot as int].value->OutputRows_0, n),
            )
            &&& after[other] == metrics[other]
        }),
{
}

/// Recording a batch leaves the baseline usable: every handle is still that of a
/// metric of its kind.
pub proof fn recording_keeps_baseline<M>(
    baseline: BaselineMetrics,
    metrics: Seq<MetricModel<M>>,
    rows: usize,
    bytes: usize,
    now: UtcTime,
)
    requires
        baseline.wf(metrics),
    ensures
        baseline.wf(baseline.batch_recorded(metrics, rows, bytes)),
        baseline.wf(baseline.end_time.metrics_after(metrics, now)),
        baseline.end_time is Registered ==> baseline.end_time.moment(
            baseline.end_time.metrics_after(metrics, now),
        ) == Some(now),
{
}

/// The metrics of spilling.
#[derive(Clone, Copy, Debug, PartialEq, Eq, Structural)]
pub struct SpillMetrics {
    pub spill_file_count: CountHandle,
    pub spilled_bytes: CountHandle,
    pub spilled_rows: CountHandle,
}

impl SpillMetrics {
    /// Registers the metrics of spilling.
    pub fn new<C: CustomMetricValue>(
        metrics: &mut ExecutionPlanMetricsSet<C>,
        partition: usize,
    ) -> (r: Self)
        ensures
            final(metrics)@ == old(metrics)@ + seq![
                plain_metric(
                    Measure::SpillCount(Count { value: 0 }),
                    partition,
                    MetricType::Dev,
                    MetricCategory::Rows,
                ),
                plain_metric(
                    Measure::SpilledBytes(Count { value: 0 }),
                    partition,
                    MetricType::Dev,
                    MetricCategory::Bytes,
                ),
                plain_metric(
                    Measure::SpilledRows(Count { value: 0 }),
                    partition,
                    MetricType::Dev,
                    MetricCategory::Rows,
                ),
            ],
            r.spill_file_count.slot == old(metrics)@.len(),
            r.spilled_bytes.slot == old(metrics)@.len() + 1,
            r.spilled_rows.slot == old(metrics)@.len() + 2,
    {
        let spill_file_count = MetricBuilder::new().spill_count(metrics, partition);
        let spilled_bytes = MetricBuilder::new().spilled_bytes(metrics, partition);
        let spilled_rows = MetricBuilder::new().spilled_rows(metrics, partition);
        SpillMetrics { spill_file_count, spilled_bytes, spilled_rows }
    }
}

/// The metric of splitting batches.
#[derive(Clone, Copy, Debug, PartialEq, Eq, Structural)]
pub struct SplitMetrics {
    pub batches_split: CountHandle,
}

impl SplitMetrics {
    /// Registers the metric of splitting batches.
    pub fn new<C: CustomMetricValue>(
        metrics: &mut ExecutionPlanMetricsSet<C>,
        partition: usize,
    ) -> (r: Self)
        ensures
            final(metrics)@ == old(metrics)@.push(
                plain_metric(
                    Measure::Count { name: "batches_split"@, count: Count { value: 0 } },
                    partition,
                    MetricType::Dev,
                    MetricCategory::Rows,
                ),
            ),
            r.batches_split.slot == old(metrics)@.len(),
    {
        let batches_split = MetricBuilder::new().with_category(MetricCategory::Rows).counter(
            metrics,
            "batches_split",
            partition,
        );
        SplitMetrics { batches_split }
    }
}

/// Whether a metric counts output rows of the given partition.
pub open spec fn counts_rows_of<M>(m: MetricModel<M>, partition: usize) -> bool {
    m.value is OutputRows && m.partition == Some(partition)
}

/// The output rows of a partition, over all metrics.
pub open spec fn total_rows<M>(metrics: Seq<MetricModel<M>>, partition: usize) -> int
    decreases metrics.len(),
{
    if metrics.len() == 0 {
        0
    } else {
        total_rows(metrics.drop_last(), partition) + if counts_rows_of(metrics.last(), partition) {
            metrics.last().value->OutputRows_0.value as int
        } else {
            0
        }
    }
}

/// Whether some metric counts output rows of the partition.
pub open spec fn reports_rows<M>(metrics: Seq<MetricModel<M>>, partition: usize) -> bool {
    exists|i: int| 0 <= i < metrics.len() && counts_rows_of(#[trigger] metrics[i], partition)
}

/// Whether `totals` lists the partitions that report output rows, in ascending
/// order, each with its total.
#[verifier::opaque]
pub open spec fn lists_totals<M>(
    totals: Seq<(usize, u128)>,
    metrics: Seq<MetricModel<M>>,
) -> bool {
    &&& forall|i: int, j: int|
        0 <= i < j < totals.len() ==> (#[trigger] totals[i]).0 < (#[trigger] totals[j]).0
    &&& forall|i: int|
        0 <= i < totals.len() ==> reports_rows(metrics, (#[trigger] totals[i]).0) && totals[i].1
            == total_rows(metrics, totals[i].0)
    &&& forall|p: usize| #[trigger]
        reports_rows(metrics, p) ==> exists|i: int|
            0 <= i < totals.len() && (#[trigger] totals[i]).0 == p
}

proof fn total_rows_bound<M>(metrics: Seq<MetricModel<M>>, partition: usize)
    ensures
        0 <= total_rows(metrics, partition) <= metrics.len() * usize::MAX,
        !reports_rows(metrics, partition) ==> total_rows(metrics, partition) == 0,
    decreases metrics.len(),
{
    if metrics.len() > 0 {
        let shorter = metrics.drop_last();
        total_rows_bound(shorter, partition);
        assert(metrics.len() * usize::MAX == shorter.len() * usize::MAX + usize::MAX)
            by (nonlinear_arith)
            requires
                metrics.len() == shorter.len() + 1,
        ;
        if !reports_rows(metrics, partition) {
            assert(!counts_rows_of(metrics[metrics.len() - 1], partition));
            if reports_rows(shorter, partition) {
                let i = choose|i: int|
                    0 <= i < shorter.len() && counts_rows_of(#[trigger] shorter[i], partition);
                assert(counts_rows_of(metrics[i], partition));
            }
        }
    }
}

proof fn reports_rows_step<M>(metrics: Seq<MetricModel<M>>, partition: usize)
    requires
        metrics.len() > 0,
    ensures
        reports_rows(metrics, partition) <==> reports_rows(metrics.drop_last(), partition)
            || counts_rows_of(metrics.last(), partition),
{
    let shorter = metrics.drop_last();
    if reports_rows(metrics, partition) {
        let i = choose|i: int|
            0 <= i < metrics.len() && counts_rows_of(#[trigger] metrics[i], partition);
        if i < shorter.len() {
            assert(counts_rows_of(shorter[i], partition));
        }
    }
    if reports_rows(shorter, partition) {
        let i = choose|i: int|
            0 <= i < shorter.len() && counts_rows_of(#[trigger] shorter[i], partition);
        assert(counts_rows_of(metrics[i], partition));
    }
    if counts_rows_of(metrics.last(), partition) {
        assert(counts_rows_of(metrics[metrics.len() - 1], partition));
    }
}

/// Whether `after` is `before` with `rows` more for `partition`, at position
/// `k`.
spec fn totals_step(
    before: Seq<(usize, u128)>,
    after: Seq<(usize, u128)>,
    k: int,
    partition: usize,
    rows: int,
) -> bool {
    &&& 0 <= k <= before.len()
    &&& forall|j: int| 0 <= j < k ==> (#[trigger] before[j]).0 < partition
    &&& if k < before.len() && before[k].0 == partition {
        after.len() == before.len() && (forall|j: int|
            0 <= j < before.len() && j != k ==> #[trigger] after[j] == before[j]) && after[k].0
            == partition && after[k].1 == before[k].1 + rows
    } else {
        &&& k < before.len() ==> partition < before[k].0
        &&& after.len() == before.len() + 1
        &&& after[k].0 == partition
        &&& after[k].1 == rows
        &&& forall|j: int| 0 <= j < k ==> #[trigger] after[j] == before[j]
        &&& forall|j: int| k < j < after.len() ==> #[trigger] after[j] == before[j - 1]
    }
}

proof fn totals_step_lists<M>(
    earlier: Seq<(usize, u128)>,
    totals: Seq<(usize, u128)>,
    k: int,
    metrics: Seq<MetricModel<M>>,
    partition: usize,
)
    requires
        metrics.len() > 0,
        lists_totals(earlier, metrics.drop_last()),
        counts_rows_of(metrics.last(), partition),
        totals_step(
            earlier,
            totals,
            k,
            partition,
            metrics.last().value->OutputRows_0.value as int,
        ),
    ensures
        lists_totals(totals, metrics),
{
    reveal(lists_totals);
    let before = metrics.drop_last();
    assert forall|p: usize| reports_rows(metrics, p) <==> reports_rows(before, p) || p
        == partition by {
        reports_rows_step(metrics, p);
    }
    let updated = k < earlier.len() && earlier[k].0 == partition;
    if !updated && reports_rows(before, partition) {
        let j = choose|j: int| 0 <= j < earlier.len() && (#[trigger] earlier[j]).0 == partition;
        assert(j >= k);
        assert(j != k);
        assert(earlier[k].0 < earlier[j].0);
    }
    total_rows_bound(before, partition);
    assert forall|i: int, j: int| 0 <= i < j < totals.len() implies (#[trigger] totals[i]).0 < (
    #[trigger] totals[j]).0 by {
        if updated {
            assert(totals[i].0 == earlier[i].0 && totals[j].0 == earlier[j].0);
        } else {
            if j < k {
                assert(totals[i] == earlier[i] && totals[j] == earlier[j]);
            } else if j == k {
                assert(totals[i] == earlier[i]);
            } else {
                assert(totals[j] == earlier[j - 1]);
                if i < k {
                    assert(totals[i] == earlier[i]);
                } else if i == k {
                    if j - 1 > k {
                        assert(earlier[k].0 < earlier[j - 1].0);
                    }
                } else {
                    assert(totals[i] == earlier[i - 1]);
                }
            }
        }
    }
    assert forall|i: int| 0 <= i < totals.len() implies reports_rows(
        metrics,
        (#[trigger] totals[i]).0,
    ) && totals[i].1 == total_rows(metrics, totals[i].0) by {
        if i != k {
            let e = if updated || i < k {
                earlier[i]
            } else {
                earlier[i - 1]
            };
            assert(totals[i] == e);
            assert(reports_rows(before, e.0));
            if e.0 == partition {
                if updated {
                    assert(earlier[i].0 == earlier[k].0);
                }
            }
        }
    }
    assert forall|p: usize| #[trigger] reports_rows(metrics, p) implies exists|i: int|
        0 <= i < totals.len() && (#[trigger] totals[i]).0 == p by {
        if p == partition {
            assert(totals[k].0 == p);
        } else {
            let j = choose|j: int| 0 <= j < earlier.len() && (#[trigger] earlier[j]).0 == p;
            if updated || j < k {
                assert(totals[j].0 == p);
            } else {
                assert(totals[j + 1].0 == p);
            }
        }
    }
}

proof fn no_rows_lists<M>(totals: Seq<(usize, u128)>, metrics: Seq<MetricModel<M>>)
    requires
        metrics.len() > 0,
        lists_totals(totals, metrics.drop_last()),
        forall|p: usize| !counts_rows_of(metrics.last(), p),
    ensures
        lists_totals(totals, metrics),
{
    reveal(lists_totals);
    assert forall|p: usize| reports_rows(metrics, p) <==> reports_rows(metrics.drop_last(), p) by {
        reports_rows_step(metrics, p);
    }
}

fn add_total(totals: &mut Vec<(usize, u128)>, partition: usize, rows: usize) -> (k: usize)
    requires
        forall|j: int|
            0 <= j < old(totals)@.len() ==> (#[trigger] old(totals)@[j]).1 <= u128::MAX
                - usize::MAX,
    ensures
        totals_step(old(totals)@, final(totals)@, k as int, partition, rows as int),
{
    let mut k: usize = 0;
    while k < totals.len() && totals[k].0 < partition
        invariant
            k <= totals.len(),
            *totals == *old(totals),
            forall|j: int| 0 <= j < k ==> (#[trigger] totals@[j]).0 < partition,
        decreases totals.len() - k,
    {
        k += 1;
    }
    if k < totals.len() && totals[k].0 == partition {
        let before: u128 = totals[k].1;
        totals[k] = (partition, before + rows as u128);
    } else {
        totals.insert(k, (partition, rows as u128));
    }
    k
}

/// The output rows of each partition that reports any, in ascending order of
/// the partitions.
pub fn output_rows_by_partition<C: CustomMetricValue>(metrics: &MetricsSet<C>) -> (r: Vec<
    (usize, u128),
>)
    ensures
        lists_totals(r@, metrics@),
{
    let mut totals: Vec<(usize, u128)> = Vec::new();
    let mut i: usize = 0;
    assert(lists_totals(totals@, metrics@.take(0))) by {
        reveal(lists_totals);
    }
    while i < metrics.metrics.len()
        invariant
            i <= metrics.metrics.len(),
            lists_totals(totals@, metrics@.take(i as int)),
        decreases metrics.metrics.len() - i,
    {
        let ghost after = metrics@.take(i + 1);
        let ghost earlier = totals@;
        assert(after.drop_last() == metrics@.take(i as int));
        let metric = &metrics.metrics[i];
        assert(after.last() == metric@);
        match (metric.partition, &metric.value) {
            (Some(partition), MetricValue::OutputRows(count)) => {
                proof {
                    assert forall|j: int| 0 <= j < earlier.len() implies (#[trigger] earlier[j]).1
                        <= u128::MAX - usize::MAX by {
                        reveal(lists_totals);
                        total_rows_bound(after.drop_last(), earlier[j].0);
                        assert(after.drop_last().len() * usize::MAX <= usize::MAX * usize::MAX)
                            by (nonlinear_arith)
                            requires
                                after.drop_last().len() <= usize::MAX,
                        ;
                        assert(usize::MAX * usize::MAX + usize::MAX <= u128::MAX) by (
                        nonlinear_arith)
                            requires
                                usize::MAX <= 0xffff_ffff_ffff_ffff,
                        ;
                    }
                }
                let k: usize = add_total(&mut totals, partition, count.value);
                proof {
                    totals_step_lists(earlier, totals@, k as int, after, partition);
                }
            },
            _ => {
                proof {
                    no_rows_lists(totals@, after);
                }
            },
        }
        i += 1;
    }
    assert(metrics@.take(i as int) == metrics@);
    totals
}

} // verus!
