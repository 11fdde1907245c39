//! Registering metrics, and the metrics that every operator records.
//!
//! The set of an execution plan owns the metrics registered with it. What
//! registration returns is the handle of the metric: operators record through the
//! handle and its clones, and whoever reads the set sees what was recorded.
use vstd::prelude::*;
use crate::metrics::cells::{
    Count, Gauge, MetricCategory, MetricType, PruningMetrics, RatioMergeStrategy, RatioMetrics,
    Time, Timestamp,
};
use crate::metrics::handles::{
    CountHandle, GaugeHandle, PruningHandle, RatioHandle, TimeHandle, TimestampHandle,
};
use crate::metrics::metrics_set::{Label, LabelValue, Metric, MetricModel, MetricsSet};
use crate::metrics::value::{CustomMetricValue, Measure, MetricValue};
use crate::metrics::{handles, metrics_set};
use crate::text::owned;

verus! {

/// The metrics of one execution plan.
#[derive(Debug)]
pub struct ExecutionPlanMetricsSet<C: CustomMetricValue> {
    pub inner: MetricsSet<C>,
}

impl<C: CustomMetricValue> View for ExecutionPlanMetricsSet<C> {
    type V = Seq<MetricModel<C::Model>>;

    open spec fn view(&self) -> Seq<MetricModel<C::Model>> {
        self.inner@
    }
}

impl<C: CustomMetricValue> Default for ExecutionPlanMetricsSet<C> {
    fn default() -> (r: Self)
        ensures
            r@.len() == 0,
    {
        ExecutionPlanMetricsSet { inner: MetricsSet::new() }
    }
}

impl<C: CustomMetricValue> From<MetricsSet<C>> for ExecutionPlanMetricsSet<C> {
    fn from(v: MetricsSet<C>) -> (r: Self) {
        ExecutionPlanMetricsSet { inner: v }
    }
}

impl<C: CustomMetricValue> vstd::std_specs::convert::FromSpecImpl<MetricsSet<C>> for ExecutionPlanMetricsSet<C> {
    open spec fn obeys_from_spec() -> bool {
        true
    }

    open spec fn from_spec(v: MetricsSet<C>) -> Self {
        ExecutionPlanMetricsSet { inner: v }
    }
}

impl<C: CustomMetricValue> ExecutionPlanMetricsSet<C> {
    /// A set without metrics.
    pub fn new() -> (r: Self)
        ensures
            r@.len() == 0,
    {
        ExecutionPlanMetricsSet { inner: MetricsSet::new() }
    }

    /// Adds a metric and returns its slot.
    pub fn register(&mut self, metric: Metric<C>) -> (slot: usize)
        ensures
            slot == old(self)@.len(),
            final(self)@ == old(self)@.push(metric@),
    {
        let slot: usize = self.inner.metrics.len();
        self.inner.push(metric);
        slot
    }

    /// What has been recorded so far; what is recorded later does not show in it.
    pub fn clone_inner(&self) -> (r: MetricsSet<C>)
        ensures
            r@ == self@,
    {
        self.inner.snapshot()
    }

    /// The value in a slot.
    pub fn value(&self, slot: usize) -> (r: &MetricValue<C>)
        requires
            slot < self@.len(),
        ensures
            r@ == self@[slot as int].value,
    {
        &self.inner.metrics[slot].value
    }

    /// The value in a slot, to be changed.
    pub fn value_mut(&mut self, slot: usize) -> (r: &mut MetricValue<C>)
        requires
            slot < old(self)@.len(),
        ensures
            r@ == old(self)@[slot as int].value,
            final(self)@ == handles::changed(old(self)@, slot as int, final(r)@),
    {
        self.inner.metrics[slot].value_mut()
    }
}

/// What a metric is registered with.
#[derive(Debug)]
pub struct MetricBuilder {
    pub partition: Option<usize>,
    pub labels: Vec<Label>,
    pub metric_type: MetricType,
    pub metric_category: Option<MetricCategory>,
}

impl MetricBuilder {
    /// The metric that this builder registers for `value`.
    pub open spec fn built<M>(&self, value: Measure<M>) -> MetricModel<M> {
        MetricModel {
            value,
            labels: metrics_set::labels_of(self.labels@),
            partition: self.partition,
            metric_type: self.metric_type,
            metric_category: self.metric_category,
        }
    }

    /// The metric that this builder registers for `value` of `partition` under
    /// `category`.
    pub open spec fn built_for<M>(
        &self,
        value: Measure<M>,
        category: MetricCategory,
        partition: usize,
    ) -> MetricModel<M> {
        MetricModel {
            partition: Some(partition),
            metric_category: Some(category),
            ..self.built(value)
        }
    }

    /// No partition, no labels and no category; meant for developers.
    pub fn new() -> (r: Self)
        ensures
            r.partition is None,
            metrics_set::labels_of(r.labels@) == Seq::<(Seq<char>, Seq<char>)>::empty(),
            r.metric_type == MetricType::Dev,
            r.metric_category is None,
    {
        let r = MetricBuilder {
            partition: None,
            labels: Vec::new(),
            metric_type: MetricType::Dev,
            metric_category: None,
        };
        assert(metrics_set::labels_of(r.labels@) == Seq::<(Seq<char>, Seq<char>)>::empty());
        r
    }

    /// With one more label.
    pub fn with_label(self, label: Label) -> (r: Self)
        ensures
            r.labels@ == self.labels@.push(label),
            r.partition == self.partition,
            r.metric_type == self.metric_type,
            r.metric_category == self.metric_category,
    {
        let mut labels = self.labels;
        labels.push(label);
        MetricBuilder {
            partition: self.partition,
            labels,
            metric_type: self.metric_type,
            metric_category: self.metric_category,
        }
    }

    /// Meant for the given reader.
    pub fn with_type(self, metric_type: MetricType) -> (r: Self)
        ensures
            r == (MetricBuilder { metric_type, ..self }),
    {
        MetricBuilder { metric_type, ..self }
    }

    /// Of the given category.
    pub fn with_category(self, category: MetricCategory) -> (r: Self)
        ensures
            r == (MetricBuilder { metric_category: Some(category), ..self }),
    {
        MetricBuilder { metric_category: Some(category), ..self }
    }

    /// With one more label, of the given name and value.
    pub fn with_new_label(self, name: &str, value: &str) -> (r: Self)
        ensures
            metrics_set::labels_of(r.labels@) == metrics_set::labels_of(self.labels@).push((name@, value@)),
            r.partition == self.partition,
            r.metric_type == self.metric_type,
            r.metric_category == self.metric_category,
    {
        let label = Label {
            name: LabelValue::Owned(owned(name)),
            value: LabelValue::Owned(owned(value)),
        };
        let r = self.with_label(label);
        assert(metrics_set::labels_of(r.labels@) == metrics_set::labels_of(self.labels@).push((name@, value@)));
        r
    }

    /// For the given partition.
    pub fn with_partition(self, partition: usize) -> (r: Self)
        ensures
            r == (MetricBuilder { partition: Some(partition), ..self }),
    {
        MetricBuilder { partition: Some(partition), ..self }
    }

    /// Registers a metric of the given value.
    pub fn build<C: CustomMetricValue>(
        self,
        metrics: &mut ExecutionPlanMetricsSet<C>,
        value: MetricValue<C>,
    ) -> (slot: usize)
        ensures
            slot == old(metrics)@.len(),
            final(metrics)@ == old(metrics)@.push(self.built(value@)),
    {
        let metric = Metric {
            value,
            labels: self.labels,
            partition: self.partition,
            metric_type: self.metric_type,
            metric_category: self.metric_category,
        };
        metrics.register(metric)
    }

    /// Registers a metric of the given value, category and partition.
    fn build_for<C: CustomMetricValue>(
        self,
        metrics: &mut ExecutionPlanMetricsSet<C>,
        value: MetricValue<C>,
        category: MetricCategory,
        partition: usize,
    ) -> (slot: usize)
        ensures
            slot == old(metrics)@.len(),
            final(metrics)@ == old(metrics)@.push(self.built_for(value@, category, partition)),
    {
        self.with_category(category).with_partition(partition).build(metrics, value)
    }

    /// Registers a counter of the rows that come out.
    pub fn output_rows<C: CustomMetricValue>(
        self,
        metrics: &mut ExecutionPlanMetricsSet<C>,
        partition: usize,
    ) -> (r: CountHandle)
        ensures
            r.slot == old(metrics)@.len(),
            final(metrics)@ == old(metrics)@.push(
                self.built_for(
                    Measure::OutputRows(Count { value: 0 }),
                    MetricCategory::Rows,
                    partition,
                ),
            ),
    {
        let slot: usize = self.build_for(
            metrics,
            MetricValue::OutputRows(Count::new()),
            MetricCategory::Rows,
            partition,
        );
        CountHandle { slot }
    }

    /// Registers a counter of the spills.
    pub fn spill_count<C: CustomMetricValue>(
        self,
        metrics: &mut ExecutionPlanMetricsSet<C>,
        partition: usize,
    ) -> (r: CountHandle)
        ensures
            r.slot == old(metrics)@.len(),
            final(metrics)@ == old(metrics)@.push(
                self.built_for(
                    Measure::SpillCount(Count { value: 0 }),
                    MetricCategory::Rows,
                    partition,
                ),
            ),
    {
        let slot: usize = self.build_for(
            metrics,
            MetricValue::SpillCount(Count::new()),
            MetricCategory::Rows,
            partition,
        );
        CountHandle { slot }
    }

    /// Registers a counter of the bytes spilled.
    pub fn spilled_bytes<C: CustomMetricValue>(
        self,
        metrics: &mut ExecutionPlanMetricsSet<C>,
        partition: usize,
    ) -> (r: CountHandle)
        ensures
            r.slot == old(metrics)@.len(),
            final(metrics)@ == old(metrics)@.push(
                self.built_for(
                    Measure::SpilledBytes(Count { value: 0 }),
                    MetricCategory::Bytes,
                    partition,
                ),
            ),
    {
        let slot: usize = self.build_for(
            metrics,
            MetricValue::SpilledBytes(Count::new()),
            MetricCategory::Bytes,
            partition,
        );
        CountHandle { slot }
    }

    /// Registers a counter of the rows spilled.
    pub fn spilled_rows<C: CustomMetricValue>(
        self,
        metrics: &mut ExecutionPlanMetricsSet<C>,
        partition: usize,
    ) -> (r: CountHandle)
        ensures
            r.slot == old(metrics)@.len(),
            final(metrics)@ == old(metrics)@.push(
                self.built_for(
                    Measure::SpilledRows(Count { value: 0 }),
                    MetricCategory::Rows,
                    partition,
                ),
            ),
    {
        let slot: usize = self.build_for(
            metrics,
            MetricValue::SpilledRows(Count::new()),
            MetricCategory::Rows,
            partition,
        );
        CountHandle { slot }
    }

    /// Registers a counter of the bytes that come out.
    pub fn output_bytes<C: CustomMetricValue>(
        self,
        metrics: &mut ExecutionPlanMetricsSet<C>,
        partition: usize,
    ) -> (r: CountHandle)
        ensures
            r.slot == old(metrics)@.len(),
            final(metrics)@ == old(metrics)@.push(
                self.built_for(
                    Measure::OutputBytes(Count { value: 0 }),
                    MetricCategory::Bytes,
                    partition,
                ),
            ),
    {
        let slot: usize = self.build_for(
            metrics,
            MetricValue::OutputBytes(Count::new()),
            MetricCategory::Bytes,
            partition,
        );
        CountHandle { slot }
    }

    /// Registers a counter of the batches that come out.
    pub fn output_batches<C: CustomMetricValue>(
        self,
        metrics: &mut ExecutionPlanMetricsSet<C>,
        partition: usize,
    ) -> (r: CountHandle)
        ensures
            r.slot == old(metrics)@.len(),
            final(metrics)@ == old(metrics)@.push(
                self.built_for(
                    Measure::OutputBatches(Count { value: 0 }),
                    MetricCategory::Rows,
                    partition,
                ),
            ),
    {
        let slot: usize = self.build_for(
            metrics,
            MetricValue::OutputBatches(Count::new()),
            MetricCategory::Rows,
            partition,
        );
        CountHandle { slot }
    }

    /// Registers the level of the memory in use.
    pub fn mem_used<C: CustomMetricValue>(
        self,
        metrics: &mut ExecutionPlanMetricsSet<C>,
        partition: usize,
    ) -> (r: GaugeHandle)
        ensures
            r.slot == old(metrics)@.len(),
            final(metrics)@ == old(metrics)@.push(
                self.built_for(
                    Measure::CurrentMemoryUsage(Gauge { value: 0 }),
                    MetricCategory::Bytes,
                    partition,
                ),
            ),
    {
        let slot: usize = self.build_for(
            metrics,
            MetricValue::CurrentMemoryUsage(Gauge::new()),
            MetricCategory::Bytes,
            partition,
        );
        GaugeHandle { slot }
    }

    /// Registers a counter of the given name for one partition.
    pub fn counter<C: CustomMetricValue>(
        self,
        metrics: &mut ExecutionPlanMetricsSet<C>,
        counter_name: &str,
        partition: usize,
    ) -> (r: CountHandle)
        ensures
            r.slot == old(metrics)@.len(),
            final(metrics)@ == old(metrics)@.push(
                MetricModel {
                    partition: Some(partition),
                    ..self.built(
                        Measure::Count { name: counter_name@, count: Count { value: 0 } },
                    )
                },
            ),
    {
        self.with_partition(partition).global_counter(metrics, counter_name)
    }

    /// Registers a level of the given name for one partition.
    pub fn gauge<C: CustomMetricValue>(
        self,
        metrics: &mut ExecutionPlanMetricsSet<C>,
        gauge_name: &str,
        partition: usize,
    ) -> (r: GaugeHandle)
        ensures
            r.slot == old(metrics)@.len(),
            final(metrics)@ == old(metrics)@.push(
                MetricModel {
                    partition: Some(partition),
                    ..self.built(Measure::Gauge { name: gauge_name@, gauge: Gauge { value: 0 } })
                },
            ),
    {
        self.with_partition(partition).global_gauge(metrics, gauge_name)
    }

    /// Registers a counter of the given name.
    pub fn global_counter<C: CustomMetricValue>(
        self,
        metrics: &mut ExecutionPlanMetricsSet<C>,
        counter_name: &str,
    ) -> (r: CountHandle)
        ensures
            r.slot == old(metrics)@.len(),
            final(metrics)@ == old(metrics)@.push(
                self.built(Measure::Count { name: counter_name@, count: Count { value: 0 } }),
            ),
    {
        let slot: usize = self.build(
            metrics,
            MetricValue::Count { name: owned(counter_name), count: Count::new() },
        );
        CountHandle { slot }
    }

    /// Registers a level of the given name.
    pub fn global_gauge<C: CustomMetricValue>(
        self,
        metrics: &mut ExecutionPlanMetricsSet<C>,
        gauge_name: &str,
    ) -> (r: GaugeHandle)
        ensures
            r.slot == old(metrics)@.len(),
            final(metrics)@ == old(metrics)@.push(
                self.built(Measure::Gauge { name: gauge_name@, gauge: Gauge { value: 0 } }),
            ),
    {
        let slot: usize = self.build(
            metrics,
            MetricValue::Gauge { name: owned(gauge_name), gauge: Gauge::new() },
        );
        GaugeHandle { slot }
    }

    /// Registers the highest level of memory in use, under the given name.
    pub fn peak_memory_usage<C: CustomMetricValue>(
        self,
        metrics: &mut ExecutionPlanMetricsSet<C>,
        gauge_name: &str,
        partition: usize,
    ) -> (r: GaugeHandle)
        ensures
            r.slot == old(metrics)@.len(),
            final(metrics)@ == old(metrics)@.push(
                self.built_for(
                    Measure::PeakMemoryUsage { name: gauge_name@, gauge: Gauge { value: 0 } },
                    MetricCategory::Bytes,
                    partition,
                ),
            ),
    {
        let slot: usize = self.build_for(
            metrics,
            MetricValue::PeakMemoryUsage { name: owned(gauge_name), gauge: Gauge::new() },
            MetricCategory::Bytes,
            partition,
        );
        GaugeHandle { slot }
    }

    /// Registers the time spent.
    pub fn elapsed_compute<C: CustomMetricValue>(
        self,
        metrics: &mut ExecutionPlanMetricsSet<C>,
        partition: usize,
    ) -> (r: TimeHandle)
        ensures
            r.slot == old(metrics)@.len(),
            final(metrics)@ == old(metrics)@.push(
                self.built_for(
                    Measure::ElapsedCompute(Time { nanos: 0 }),
                    MetricCategory::Timing,
                    partition,
                ),
            ),
    {
        let slot: usize = self.build_for(
            metrics,
            MetricValue::ElapsedCompute(Time::new()),
            MetricCategory::Timing,
            partition,
        );
        TimeHandle { slot }
    }

    /// Registers the time spent on a part of the work.
    pub fn subset_time<C: CustomMetricValue>(
        self,
        metrics: &mut ExecutionPlanMetricsSet<C>,
        subset_name: &str,
        partition: usize,
    ) -> (r: TimeHandle)
        ensures
            r.slot == old(metrics)@.len(),
            final(metrics)@ == old(metrics)@.push(
                self.built_for(
                    Measure::Time { name: subset_name@, time: Time { nanos: 0 } },
                    MetricCategory::Timing,
                    partition,
                ),
            ),
    {
        let slot: usize = self.build_for(
            metrics,
            MetricValue::Time { name: owned(subset_name), time: Time::new() },
            MetricCategory::Timing,
            partition,
        );
        TimeHandle { slot }
    }

    /// Registers when the work started.
    pub fn start_timestamp<C: CustomMetricValue>(
        self,
        metrics: &mut ExecutionPlanMetricsSet<C>,
        partition: usize,
    ) -> (r: TimestampHandle)
        ensures
            r.slot == old(metrics)@.len(),
            final(metrics)@ == old(metrics)@.push(
                self.built_for(
                    Measure::StartTimestamp(Timestamp { timestamp: None }),
                    MetricCategory::Timing,
                    partition,
                ),
            ),
    {
        let slot: usize = self.build_for(
            metrics,
            MetricValue::StartTimestamp(Timestamp::new()),
            MetricCategory::Timing,
            partition,
        );
        TimestampHandle { slot }
    }

    /// Registers when the work ended.
    pub fn end_timestamp<C: CustomMetricValue>(
        self,
        metrics: &mut ExecutionPlanMetricsSet<C>,
        partition: usize,
    ) -> (r: TimestampHandle)
        ensures
            r.slot == old(metrics)@.len(),
            final(metrics)@ == old(metrics)@.push(
                self.built_for(
                    Measure::EndTimestamp(Timestamp { timestamp: None }),
                    MetricCategory::Timing,
                    partition,
                ),
            ),
    {
        let slot: usize = self.build_for(
            metrics,
            MetricValue::EndTimestamp(Timestamp::new()),
            MetricCategory::Timing,
            partition,
        );
        TimestampHandle { slot }
    }

    /// Registers pruning figures under the given name.
    pub fn pruning_metrics<C: CustomMetricValue>(
        self,
        metrics: &mut ExecutionPlanMetricsSet<C>,
        name: &str,
        partition: usize,
    ) -> (r: PruningHandle)
        ensures
            r.slot == old(metrics)@.len(),
            final(metrics)@ == old(metrics)@.push(
                self.built_for(
                    Measure::PruningMetrics {
                        name: name@,
                        pruning_metrics: PruningMetrics { pruned: 0, matched: 0, fully_matched: 0 },
                    },
                    MetricCategory::Rows,
                    partition,
                ),
            ),
    {
        let slot: usize = self.build_for(
            metrics,
            MetricValue::PruningMetrics {
                name: owned(name),
                pruning_metrics: PruningMetrics::new(),
            },
            MetricCategory::Rows,
            partition,
        );
        PruningHandle { slot }
    }

    /// Registers a ratio under the given name; ratios add up.
    pub fn ratio_metrics<C: CustomMetricValue>(
        self,
        metrics: &mut ExecutionPlanMetricsSet<C>,
        name: &str,
        partition: usize,
    ) -> (r: RatioHandle)
        ensures
            r.slot == old(metrics)@.len(),
            final(metrics)@ == old(metrics)@.push(
                self.built_for(
                    Measure::Ratio {
                        name: name@,
                        ratio_metrics: RatioMetrics {
                            part: 0,
                            total: 0,
                            merge_strategy: RatioMergeStrategy::AddPartAddTotal,
                            display_raw_values: true,
                        },
                    },
                    MetricCategory::Rows,
                    partition,
                ),
            ),
    {
        self.ratio_metrics_with_strategy(
            metrics,
            name,
            partition,
            RatioMergeStrategy::AddPartAddTotal,
        )
    }

    /// Registers a ratio under the given name, to be taken together by the given
    /// strategy.
    pub fn ratio_metrics_with_strategy<C: CustomMetricValue>(
        self,
        metrics: &mut ExecutionPlanMetricsSet<C>,
        name: &str,
        partition: usize,
        merge_strategy: RatioMergeStrategy,
    ) -> (r: RatioHandle)
        ensures
            r.slot == old(metrics)@.len(),
            final(metrics)@ == old(metrics)@.push(
                self.built_for(
                    Measure::Ratio {
                        name: name@,
                        ratio_metrics: RatioMetrics {
                            part: 0,
                            total: 0,
                            merge_strategy,
                            display_raw_values: true,
                        },
                    },
                    MetricCategory::Rows,
                    partition,
                ),
            ),
    {
        let slot: usize = self.build_for(
            metrics,
            MetricValue::Ratio {
                name: owned(name),
                ratio_metrics: RatioMetrics::new().with_merge_strategy(merge_strategy),
            },
            MetricCategory::Rows,
            partition,
        );
        RatioHandle { slot }
    }
}

} // verus!
