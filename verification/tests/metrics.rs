use fdapquery::metrics::baseline::{output_rows_by_partition, BaselineMetrics, PollOutcome};
use fdapquery::metrics::builder::{ExecutionPlanMetricsSet, MetricBuilder};
use fdapquery::metrics::cells::{
    Count, Gauge, MetricCategory, MetricType, PruningMetrics, RatioMergeStrategy, RatioMetrics,
    ScopedTimerGuard, Time, Timestamp, UtcTime,
};
use fdapquery::metrics::metrics_set::{Label, LabelValue, Metric, MetricsSet};
use fdapquery::metrics::readable::{
    human_readable_count, human_readable_duration, human_readable_size, GB, KB, MB, TB,
};
use fdapquery::metrics::value::{CustomCounter, MetricValue, NoCustomMetric};
use std::borrow::Cow;
use std::collections::hash_map::DefaultHasher;
use std::hash::{Hash, Hasher};
use std::sync::Arc;
use std::time::{Duration, Instant};

type Value = MetricValue<NoCustomMetric>;
type Metrics = MetricsSet<NoCustomMetric>;

fn count(n: usize) -> Count {
    let mut c = Count::new();
    c.add(n);
    c
}

fn nanos(n: i64) -> UtcTime {
    UtcTime { secs: n.div_euclid(1_000_000_000), nanos: n.rem_euclid(1_000_000_000) as u32 }
}

fn stamp(n: i64) -> Timestamp {
    let mut t = Timestamp::new();
    t.set(nanos(n));
    t
}

fn sample_set() -> Metrics {
    let mut s = MetricsSet::new();
    s.push(
        Metric::new(Value::OutputRows(count(10)), Some(0))
            .with_type(MetricType::Summary)
            .with_category(MetricCategory::Rows),
    );
    s.push(
        Metric::new(Value::OutputRows(count(20)), Some(1))
            .with_type(MetricType::Summary)
            .with_category(MetricCategory::Rows),
    );
    let mut t = Time::new();
    t.add_duration(100);
    s.push(
        Metric::new(Value::ElapsedCompute(t), None)
            .with_type(MetricType::Summary)
            .with_category(MetricCategory::Timing),
    );
    s.push(
        Metric::new(
            Value::Count { name: "spill_buffer_size".to_string(), count: count(4096) },
            None,
        )
        .with_type(MetricType::Dev)
        .with_category(MetricCategory::Bytes),
    );
    s.push(
        Metric::new(Value::StartTimestamp(stamp(1_700_000_000_000_000_000)), None)
            .with_type(MetricType::Summary),
    );
    s.push(
        Metric::new(Value::EndTimestamp(stamp(1_700_000_500_000_000_000)), None)
            .with_type(MetricType::Summary),
    );
    s
}

#[test]
fn filter_by_metric_types_keeps_only_listed_types() {
    let s = sample_set().filter_by_metric_types(&[MetricType::Summary]);
    assert_eq!(s.iter().iter().count(), 5);

    let s = sample_set().filter_by_metric_types(&[MetricType::Dev]);
    assert_eq!(s.iter().iter().count(), 1);
    assert_eq!(s.iter()[0].value().name(), "spill_buffer_size");

    assert!(sample_set().filter_by_metric_types(&[]).is_empty());
}

#[test]
fn filter_by_categories_routes_uncategorised_through_uncategorized_bucket() {
    let s = sample_set().filter_by_categories(&[MetricCategory::Rows]);
    assert_eq!(s.iter().iter().count(), 2);

    let s = sample_set().filter_by_categories(&[MetricCategory::Uncategorized]);
    assert_eq!(s.iter().iter().count(), 2);

    assert!(sample_set().filter_by_categories(&[]).is_empty());
}

#[test]
fn aggregate_by_name_sums_counters_and_takes_min_max_of_timestamps() {
    let s = sample_set().aggregate_by_name();
    assert_eq!(s.iter().iter().count(), 5);
    let row = s.iter().iter().find(|m| m.value().name() == "output_rows").unwrap();
    assert_eq!(row.value().as_usize(), 30);
    assert!(row.partition().is_none());

    let elapsed = s.iter().iter().find(|m| m.value().name() == "elapsed_compute").unwrap();
    assert_eq!(elapsed.value().as_usize(), 100);
}

#[test]
fn timestamps_removed_drops_start_and_end() {
    let s = sample_set().timestamps_removed();
    assert_eq!(s.iter().iter().count(), 4);
    assert!(s.iter().iter().all(|m| !m.value().is_timestamp()));
}

#[test]
fn sorted_for_display_uses_display_sort_key() {
    let s = sample_set().aggregate_by_name().sorted_for_display();
    let names: Vec<&str> = s.iter().iter().map(|m| m.value().name()).collect();
    assert_eq!(
        names,
        vec![
            "output_rows",
            "elapsed_compute",
            "spill_buffer_size",
            "start_timestamp",
            "end_timestamp",
        ]
    );
}

#[test]
fn metric_display_includes_partition_label() {
    let metric = Metric::new(Value::OutputRows(count(42)), Some(1))
        .with_label(Label::new("region", "us-west"));
    assert_eq!(metric.to_string(), "output_rows{partition=1, region=us-west}=42");
}

#[test]
fn metric_value_display_uses_human_readable_for_bytes() {
    let v = Value::SpilledBytes(count(MB as usize * 2));
    assert_eq!(v.to_string(), "2.0 MB");
}

#[test]
fn full_pipeline_chain_matches_display_path() {
    let s = sample_set()
        .filter_by_metric_types(&[MetricType::Summary, MetricType::Dev])
        .aggregate_by_name()
        .sorted_for_display()
        .timestamps_removed();

    assert!(s.iter().iter().all(|m| !m.value().is_timestamp()));
    let rendered = s.to_string();
    assert!(rendered.contains("output_rows="));
    assert!(rendered.contains("elapsed_compute="));
    assert!(rendered.contains("spill_buffer_size="));
}

fn new_custom_counter(name: &str, value: usize) -> MetricValue<CustomCounter> {
    MetricValue::Custom { name: name.to_string(), value: CustomCounter { count: value } }
}

#[test]
fn test_custom_metric_with_mismatching_names() {
    let mut custom_val = new_custom_counter("Hi", 1);
    let other_custom_val = new_custom_counter("Hello", 1);
    assert!(other_custom_val != custom_val);
    custom_val.aggregate(&other_custom_val);
    let expected_val = new_custom_counter("Hi", 2);
    assert!(expected_val == custom_val);
}

#[test]
fn test_custom_metric() {
    let mut custom_val = new_custom_counter("hi", 11);
    let other_custom_val = new_custom_counter("hi", 20);
    custom_val.aggregate(&other_custom_val);
    assert!(custom_val != other_custom_val);
    if let MetricValue::Custom { value, .. } = custom_val {
        assert_eq!(value.count, 31);
    } else {
        panic!("Unexpected value");
    }
}

#[test]
fn test_display_custom_metric() {
    let custom_val = new_custom_counter("hi", 11);
    assert_eq!(custom_val.to_string(), "count: 11");
}

#[test]
fn test_custom_metric_display_sort_key() {
    let v = new_custom_counter("hi", 0);
    assert_eq!(v.display_sort_key(), 20);
}

#[test]
fn test_display_timestamp() {
    let timestamp = Timestamp::new();
    for value in [Value::StartTimestamp(timestamp.snapshot()), Value::EndTimestamp(timestamp)] {
        assert_eq!("NONE", value.to_string(), "value {value:?}");
    }
    let timestamp = stamp(1_431_648_000_000_000);
    for value in [Value::StartTimestamp(timestamp.snapshot()), Value::EndTimestamp(timestamp)] {
        assert_eq!("1970-01-17 13:40:48 UTC", value.to_string(), "value {value:?}");
    }
}

#[test]
fn test_label_owned_and_borrowed_values_are_equal() {
    let borrowed = Label::new("foo", "bar");
    let owned = Label::new("foo".to_string(), "bar".to_string());
    let shared = Label::new("foo", Arc::<str>::from("bar"));

    assert_eq!(borrowed, owned);
    assert_eq!(borrowed, shared);
    assert_eq!(borrowed.to_string(), owned.to_string());
    assert_eq!(borrowed.to_string(), shared.to_string());
}

type Registry = ExecutionPlanMetricsSet<NoCustomMetric>;

#[test]
fn test_output_rows_via_builder() {
    let mut metrics = Registry::new();
    assert!(metrics.clone_inner().output_rows().is_none());

    let partition = 1;
    let output_rows = MetricBuilder::new().output_rows(&mut metrics, partition);
    output_rows.cell_mut(&mut metrics).add(13);

    let output_rows = MetricBuilder::new().output_rows(&mut metrics, partition + 1);
    output_rows.cell_mut(&mut metrics).add(7);
    assert_eq!(metrics.clone_inner().output_rows().unwrap(), 20);
}

#[test]
fn test_elapsed_compute_via_builder() {
    let mut metrics = Registry::new();
    assert!(metrics.clone_inner().elapsed_compute().is_none());

    let partition = 1;
    let elapsed_compute = MetricBuilder::new().elapsed_compute(&mut metrics, partition);
    elapsed_compute.cell_mut(&mut metrics).add_duration(1234);

    let elapsed_compute = MetricBuilder::new().elapsed_compute(&mut metrics, partition + 1);
    elapsed_compute.cell_mut(&mut metrics).add_duration(6);
    assert_eq!(metrics.clone_inner().elapsed_compute().unwrap(), 1240);
}

#[test]
fn test_sum_via_builder() {
    let mut metrics = Registry::new();
    let counter = MetricBuilder::new()
        .with_new_label("foo", "bar")
        .counter(&mut metrics, "my_counter", 1);
    counter.cell_mut(&mut metrics).add(1);

    let counter = MetricBuilder::new().counter(&mut metrics, "my_counter", 2);
    counter.cell_mut(&mut metrics).add(2);

    let metrics = metrics.clone_inner();
    assert!(metrics.sum(|_| false).is_none());

    let expected_sum = Value::Count { name: "my_counter".into(), count: count(3) };
    assert_eq!(metrics.sum(|_| true), Some(expected_sum));
}

fn end_timestamp_recorded(snap: &Metrics) -> bool {
    snap.iter().iter().any(|m| match m.value() {
        MetricValue::EndTimestamp(ts) => ts.value().is_some(),
        _ => false,
    })
}

fn output_batches_count(snap: &Metrics) -> usize {
    snap.iter()
        .iter()
        .filter_map(|m| match m.value() {
            MetricValue::OutputBatches(c) => Some(c.value()),
            _ => None,
        })
        .sum()
}

fn output_bytes_count(snap: &Metrics) -> usize {
    snap.iter()
        .iter()
        .filter_map(|m| match m.value() {
            MetricValue::OutputBytes(c) => Some(c.value()),
            _ => None,
        })
        .sum()
}

#[test]
fn test_baseline_metrics_done_records_end_time() {
    let mut metrics = Registry::new();
    let mut bm = BaselineMetrics::new(&mut metrics, 0);
    bm.record_output(&mut metrics, 7);
    bm.done(&mut metrics);

    let snap = metrics.clone_inner();
    assert_eq!(snap.output_rows(), Some(7));
    assert!(end_timestamp_recorded(&snap), "BaselineMetrics::done must record end_timestamp");
}

#[test]
fn record_output_for_record_batch_updates_rows_bytes_and_batches() {
    let mut metrics = Registry::new();
    let mut bm = BaselineMetrics::new(&mut metrics, 0);
    bm.record_batch(&mut metrics, 5, 64);

    let snap = metrics.clone_inner();
    assert_eq!(snap.output_rows(), Some(5));
    assert_eq!(output_batches_count(&snap), 1);
    assert!(output_bytes_count(&snap) > 0, "output_bytes should track buffer memory");
}

#[test]
fn record_poll_ready_some_ok_records_batch() {
    let mut metrics = Registry::new();
    let mut bm = BaselineMetrics::new(&mut metrics, 0);
    bm.record_poll(&mut metrics, PollOutcome::Batch { rows: 5, bytes: 64 });

    let snap = metrics.clone_inner();
    assert_eq!(snap.output_rows(), Some(5));
    assert_eq!(output_batches_count(&snap), 1);
    assert!(!end_timestamp_recorded(&snap));
}

#[test]
fn record_poll_ready_none_calls_done() {
    let mut metrics = Registry::new();
    let mut bm = BaselineMetrics::new(&mut metrics, 0);
    bm.record_poll(&mut metrics, PollOutcome::Exhausted);

    let snap = metrics.clone_inner();
    assert!(end_timestamp_recorded(&snap));
    assert_eq!(snap.output_rows(), Some(0));
}

#[test]
fn record_poll_ready_some_err_calls_done() {
    let mut metrics = Registry::new();
    let mut bm = BaselineMetrics::new(&mut metrics, 0);
    bm.record_poll(&mut metrics, PollOutcome::Failed);
    assert!(end_timestamp_recorded(&metrics.clone_inner()));
}

#[test]
fn record_poll_pending_is_passthrough() {
    let mut metrics = Registry::new();
    let mut bm = BaselineMetrics::new(&mut metrics, 0);
    bm.record_poll(&mut metrics, PollOutcome::Pending);

    let snap = metrics.clone_inner();
    assert_eq!(snap.output_rows(), Some(0));
    assert!(!end_timestamp_recorded(&snap));
}

#[test]
fn an_end_is_recorded_once() {
    let mut metrics = Registry::new();
    let mut bm = BaselineMetrics::new_at(&mut metrics, 0, nanos(5));
    bm.done_at(&mut metrics, nanos(9));
    bm.try_done(&mut metrics);
    let snap = metrics.clone_inner();
    let end = snap.iter().iter().find_map(|m| match m.value() {
        MetricValue::EndTimestamp(ts) => ts.value(),
        _ => None,
    });
    assert_eq!(end, Some(nanos(9)));
}

#[test]
fn a_timer_counts_the_time_until_it_is_stopped() {
    let mut time = Time::new();
    let mut guard = time.timer();
    guard.stop();
    let first = recorded(&guard);
    assert!(first > 0);
    guard.stop();
    assert_eq!(recorded(&guard), first);
    guard.restart();
    guard.done();
    assert!(time.value() > first);
}

fn recorded(guard: &ScopedTimerGuard) -> usize {
    guard.inner.as_ref().unwrap().value()
}

#[test]
fn a_timer_that_goes_out_of_scope_records_its_interval() {
    let start = Instant::now() - Duration::from_millis(1);
    let mut time = Time::new();
    {
        let _guard = time.timer_with(start);
    }
    let first = time.value();
    assert!(first >= 1_000_000);
    {
        let mut guard = time.timer();
        guard.stop_with(&start);
    }
    assert_eq!(time.value(), first + 1);
}

#[test]
fn an_elapsed_time_is_never_zero() {
    let mut time = Time::new();
    time.add_duration(0);
    assert_eq!(time.value(), 1);
    time.add_elapsed(&std::time::Instant::now());
    assert!(time.value() >= 2);
}

#[test]
fn counters_wrap_around() {
    let mut c = count(usize::MAX);
    c.add(2);
    assert_eq!(c.value(), 1);
    let mut g = Gauge::new();
    g.sub(1);
    assert_eq!(g.value(), usize::MAX);
    g.set(3);
    g.set_max(2);
    assert_eq!(g.value(), 3);
    g.set_max(9);
    assert_eq!(g.value(), 9);
}

#[test]
fn pruning_figures_are_shown() {
    let mut p = PruningMetrics::new();
    p.add_pruned(3);
    p.add_matched(7);
    assert_eq!(p.to_string(), "10 total \u{2192} 7 matched");
    p.add_fully_matched(2);
    assert_eq!(p.to_string(), "10 total \u{2192} 7 matched -> 2 fully matched");
    p.subtract_matched(4);
    assert_eq!(p.matched(), 3);
}

#[test]
fn ratios_are_merged_by_their_strategy() {
    let mut a = RatioMetrics::new();
    a.add_part(1);
    a.add_total(4);
    let mut b = RatioMetrics::new();
    b.add_part(1);
    b.add_total(4);
    a.merge(&b);
    assert_eq!((a.part(), a.total()), (2, 8));
    assert_eq!(a.to_string(), "25% (2/8)");
    let mut c = RatioMetrics::new().with_merge_strategy(RatioMergeStrategy::AddPartSetTotal);
    c.set_part(1);
    c.set_total(3);
    c.merge(&b);
    assert_eq!((c.part(), c.total()), (2, 4));
    let mut d = RatioMetrics::new().with_merge_strategy(RatioMergeStrategy::SetPartAddTotal);
    d.set_part(5);
    d.set_total(6);
    d.merge(&b);
    assert_eq!((d.part(), d.total()), (1, 10));
}

fn size_reference(size: usize) -> String {
    let size = size as u64;
    let (value, unit) = if size >= 2 * TB {
        (size as f64 / TB as f64, "TB")
    } else if size >= 2 * GB {
        (size as f64 / GB as f64, "GB")
    } else if size >= 2 * MB {
        (size as f64 / MB as f64, "MB")
    } else if size >= 2 * KB {
        (size as f64 / KB as f64, "KB")
    } else {
        (size as f64, "B")
    };
    format!("{:.1} {}", value, unit)
}

fn numbers() -> Vec<u64> {
    let mut out: Vec<u64> = (0..5000).collect();
    let mut seed: u64 = 0x9e37_79b9_7f4a_7c15;
    for i in 0..20_000u64 {
        seed ^= seed << 13;
        seed ^= seed >> 7;
        seed ^= seed << 17;
        out.push(seed >> (i % 64));
    }
    for p in 0..64 {
        let n = 1u64 << p;
        for d in 0..4 {
            out.push(n.saturating_sub(d));
            out.push(n.saturating_add(d));
        }
    }
    let mut n: u64 = 1;
    for _ in 0..19 {
        for m in [1u64, 5, 25, 95, 105, 125, 135, 145, 155, 995, 1005] {
            out.push(n.wrapping_mul(m));
            out.push(n.wrapping_mul(m).wrapping_add(1));
            out.push(n.wrapping_mul(m).wrapping_sub(1));
        }
        n *= 10;
    }
    out.push(u64::MAX);
    out
}

#[test]
fn sizes_are_shown_as_floating_point_would() {
    for n in numbers() {
        assert_eq!(human_readable_size(n as usize), size_reference(n as usize), "{}", n);
    }
}

#[test]
fn labels_keep_their_order() {
    let m = Metric::new(Value::OutputRows(count(1)), None)
        .with_label(Label::new("b", "2"))
        .with_label(Label::new("a", "1"));
    assert_eq!(m.to_string(), "output_rows{b=2, a=1}=1");
}

#[test]
fn empty_metrics_are_neutral() {
    let v = Value::OutputRows(count(5));
    let mut e = v.new_empty();
    e.aggregate(&v);
    assert!(e == v);
}

fn count_reference(count: usize) -> String {
    let count = count as u64;
    let (value, unit) = if count >= 1_000_000_000_000 {
        (count as f64 / 1_000_000_000_000.0, " T")
    } else if count >= 1_000_000_000 {
        (count as f64 / 1_000_000_000.0, " B")
    } else if count >= 1_000_000 {
        (count as f64 / 1_000_000.0, " M")
    } else if count >= 1_000 {
        (count as f64 / 1_000.0, " K")
    } else {
        return count.to_string();
    };
    if value >= 100.0 {
        format!("{value:.1}{unit}")
    } else {
        format!("{value:.2}{unit}")
    }
}

fn duration_reference(nanos: u64) -> String {
    let n = nanos as f64;
    if nanos >= 1_000_000_000 {
        format!("{:.2} s", n / 1_000_000_000.0)
    } else if nanos >= 1_000_000 {
        format!("{:.2} ms", n / 1_000_000.0)
    } else if nanos >= 1_000 {
        format!("{:.2} \u{b5}s", n / 1_000.0)
    } else {
        format!("{nanos} ns")
    }
}

#[test]
fn counts_are_shown_as_floating_point_would() {
    for n in numbers() {
        assert_eq!(human_readable_count(n as usize), count_reference(n as usize), "{}", n);
    }
}

#[test]
fn durations_are_shown_as_floating_point_would() {
    for n in numbers() {
        assert_eq!(human_readable_duration(n), duration_reference(n), "{}", n);
    }
}

#[test]
fn small_counts_and_durations_are_shown_plainly() {
    assert_eq!(human_readable_count(42), "42");
    assert_eq!(human_readable_duration(42), "42 ns");
    assert_eq!(human_readable_duration(3_240_000), "3.24 ms");
}

#[test]
fn output_rows_are_totalled_by_partition() {
    let mut s = sample_set();
    s.push(Metric::new(Value::OutputRows(count(5)), Some(0)));
    s.push(Metric::new(Value::OutputRows(count(7)), None));
    assert_eq!(output_rows_by_partition(&s), vec![(0, 15), (1, 20)]);
}

fn rows_of_partitions(rows: &[(usize, usize)]) -> Metrics {
    MetricsSet::from_iter(
        rows.iter()
            .map(|(p, n)| Metric::new(Value::OutputRows(count(*n)), Some(*p)))
            .collect(),
    )
}

fn skew(rows: &[(usize, usize)], score: usize) -> (usize, usize) {
    let metric =
        BaselineMetrics::output_rows_skew_metric(&rows_of_partitions(rows), score).unwrap();
    assert!(metric.partition().is_none());
    match metric.value() {
        Value::Ratio { ratio_metrics, .. } => (ratio_metrics.part(), ratio_metrics.total()),
        other => panic!("{other:?}"),
    }
}

#[test]
fn a_skew_score_becomes_a_ratio() {
    let metric = BaselineMetrics::output_rows_skew_metric(&sample_set(), 2_500).unwrap();
    assert_eq!(metric.value().name(), "output_rows_skew");
    assert_eq!(metric.value().to_string(), "25%");
    let empty: Metrics = MetricsSet::new();
    assert!(BaselineMetrics::output_rows_skew_metric(&empty, 2_500).is_none());
}

#[test]
fn plain_spreads_need_no_score() {
    assert_eq!(skew(&[(3, 9)], 77), (0, 10_000));
    assert_eq!(skew(&[(3, 0)], 77), (0, 10_000));
    assert_eq!(skew(&[(0, 0), (1, 0)], 77), (0, 0));
    assert_eq!(skew(&[(0, 0), (1, 5), (2, 0)], 77), (10_000, 10_000));
    assert_eq!(skew(&[(0, 2), (1, 5), (0, 3)], 77), (0, 10_000));
    assert_eq!(skew(&[(0, 1), (1, 5)], 77), (77, 10_000));
    assert_eq!(skew(&[(1, 5), (0, 1)], 77), (77, 10_000));
    assert_eq!(skew(&[(0, 1), (1, 5)], 20_000), (10_000, 10_000));
}

#[test]
fn a_clone_of_a_counter_is_the_same_counter() {
    let mut metrics = Registry::new();
    let mine = MetricBuilder::new().counter(&mut metrics, "reads", 0);
    let yours = mine.clone();
    let other = MetricBuilder::new().counter(&mut metrics, "reads", 0);
    mine.cell_mut(&mut metrics).add(3);
    yours.cell_mut(&mut metrics).add(4);
    assert_eq!(mine.cell(&metrics).value(), 7);
    assert_eq!(yours.cell(&metrics).value(), 7);
    assert_eq!(other.cell(&metrics).value(), 0);

    let before = metrics.clone_inner();
    mine.cell_mut(&mut metrics).add(1);
    assert_eq!(before.iter()[mine.slot].value().as_usize(), 7);
    assert_eq!(yours.cell(&metrics).value(), 8);
}

#[test]
fn a_clone_of_a_level_is_the_same_level() {
    let mut metrics = Registry::new();
    let mine = MetricBuilder::new().gauge(&mut metrics, "depth", 0);
    let yours = mine.clone();
    let other = MetricBuilder::new().mem_used(&mut metrics, 0);
    mine.cell_mut(&mut metrics).add(9);
    yours.cell_mut(&mut metrics).sub(9);
    assert_eq!(mine.cell(&metrics).value(), 0);
    assert_eq!(yours.cell_mut(&mut metrics).set(5), 0);
    mine.cell_mut(&mut metrics).set_max(3);
    assert_eq!((mine.cell(&metrics).value(), yours.cell(&metrics).value()), (5, 5));
    assert_eq!(other.cell(&metrics).value(), 0);
}

#[test]
fn clones_of_the_other_metrics_are_the_same_metrics() {
    let mut metrics = Registry::new();
    let time = MetricBuilder::new().subset_time(&mut metrics, "scan", 0);
    time.clone().cell_mut(&mut metrics).add_duration(12);
    assert_eq!(time.cell(&metrics).value(), 12);

    let end = MetricBuilder::new().end_timestamp(&mut metrics, 0);
    end.clone().cell_mut(&mut metrics).set(nanos(4));
    assert_eq!(end.cell(&metrics).value(), Some(nanos(4)));

    let files = MetricBuilder::new().pruning_metrics(&mut metrics, "files", 0);
    files.clone().cell_mut(&mut metrics).add_pruned(2);
    assert_eq!(files.cell(&metrics).pruned(), 2);

    let ratio = MetricBuilder::new().ratio_metrics(&mut metrics, "hits", 0);
    ratio.clone().cell_mut(&mut metrics).add_part(1);
    ratio.cell_mut(&mut metrics).add_total(8);
    assert_eq!((ratio.cell(&metrics).part(), ratio.cell(&metrics).total()), (1, 8));
}

#[test]
fn snapshots_do_not_change() {
    let mut c = count(2);
    let kept = c.snapshot();
    c.add(5);
    assert_eq!((kept.value(), c.value()), (2, 7));
    let mut t = stamp(3);
    let kept = t.snapshot();
    t.set(nanos(9));
    assert_eq!(kept.value(), Some(nanos(3)));
    let mut p = PruningMetrics::new();
    p.add_pruned(4);
    let kept = p.snapshot();
    p.add_pruned(1);
    assert_eq!((kept.pruned(), p.pruned()), (4, 5));
}

#[test]
fn a_restarted_timer_forgets_what_passed_before() {
    let start = Instant::now();
    let later = start + Duration::from_nanos(500);
    let end = later + Duration::from_nanos(30);
    let mut time = Time::new();
    let mut guard = time.timer_with(start);
    guard.restart_with(later);
    guard.stop_with(&end);
    assert_eq!(recorded(&guard), 30);
    guard.stop_with(&(end + Duration::from_nanos(7)));
    guard.stop();
    assert_eq!(recorded(&guard), 30);
    guard.restart();
    guard.stop();
    drop(guard);
    assert!(time.value() > 30);
}

fn label_hash(label: &LabelValue) -> u64 {
    let mut state = DefaultHasher::new();
    label.hash(&mut state);
    state.finish()
}

#[test]
fn labels_are_equal_and_hash_alike_by_their_text() {
    let labels = [
        LabelValue::from("side"),
        LabelValue::from("side".to_string()),
        LabelValue::from(Arc::<str>::from("side")),
        LabelValue::from(Cow::Borrowed("side")),
        LabelValue::from(Cow::<'static, str>::Owned("side".to_string())),
    ];
    let mut expected = DefaultHasher::new();
    Hash::hash("side", &mut expected);
    let expected = expected.finish();
    for a in &labels {
        assert_eq!(a.as_str(), "side");
        assert_eq!(label_hash(a), expected);
        for b in &labels {
            assert_eq!(a, b);
        }
        assert_ne!(*a, LabelValue::from("stage"));
    }
    assert_ne!(label_hash(&LabelValue::from("stage")), expected);
}

#[test]
fn a_timer_adds_the_time_between_two_readings() {
    let start = Instant::now();
    let end = start + Duration::from_nanos(1_250);
    let mut time = Time::new();
    time.timer_with(start).done_with(&end);
    assert_eq!(time.value(), 1_250);

    let mut guard = time.timer_with(end);
    guard.stop_with(&start);
    assert_eq!(recorded(&guard), 1_251);
    guard.stop_with(&end);
    drop(guard);
    assert_eq!(time.value(), 1_251);
}

#[test]
fn builders_register_named_memory_and_times() {
    let mut metrics: ExecutionPlanMetricsSet<NoCustomMetric> = ExecutionPlanMetricsSet::new();
    let memory = MetricBuilder::new().peak_memory_usage(&mut metrics, "buffers", 2);
    let time = MetricBuilder::new().subset_time(&mut metrics, "merging", 2);
    let all = metrics.clone_inner();
    assert_eq!(all.metrics[memory.slot].value().name(), "buffers");
    assert_eq!(all.metrics[time.slot].value().name(), "merging");
    assert_eq!(all.metrics[time.slot].partition(), Some(2));
    assert_eq!(all.metrics[memory.slot].metric_category(), Some(MetricCategory::Bytes));
    assert_eq!(all.metrics[time.slot].metric_category(), Some(MetricCategory::Timing));
}

#[test]
fn labels_are_shown_after_the_name() {
    let metric = Metric::new_with_labels(
        Value::Count { name: "reads".to_string(), count: count(3) },
        Some(1),
        vec![Label::new("file", "a.csv".to_string())],
    );
    assert_eq!(metric.to_string(), "reads{partition=1, file=a.csv}=3");
}

#[test]
fn metrics_of_one_name_are_summed() {
    let mut s: Metrics = MetricsSet::new();
    s.push(Metric::new(Value::Count { name: "reads".to_string(), count: count(3) }, Some(0)));
    s.push(Metric::new(Value::Count { name: "reads".to_string(), count: count(4) }, Some(1)));
    s.push(Metric::new(Value::Count { name: "writes".to_string(), count: count(9) }, Some(1)));
    assert_eq!(s.sum_by_name("reads").unwrap().as_usize(), 7);
    assert!(s.sum_by_name("seeks").is_none());
}

#[test]
fn sets_are_made_of_metrics_and_taken_apart() {
    let rows = |n: usize| Metric::new(Value::OutputRows(count(n)), None);
    let mut s: Metrics = MetricsSet::from_iter(vec![rows(1), rows(2)]);
    s.extend(vec![rows(3)]);
    assert_eq!(s.output_rows(), Some(6));
    let values: Vec<usize> = s.into_iter().iter().map(|m| m.value().as_usize()).collect();
    assert_eq!(values, vec![1, 2, 3]);
}
