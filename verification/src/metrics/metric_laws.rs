//! What metrics taken together amount to, in terms of their figures.
use vstd::prelude::*;
use std::time::Instant;
use crate::metrics::baseline::{BaselineMetrics, CountCell, TimestampCell};
use crate::metrics::builder::MetricBuilder;
use crate::metrics::cells::{
    Count, Gauge, MetricCategory, MetricType, PruningMetrics, RatioMergeStrategy, RatioMetrics,
    Time, Timestamp, UtcTime,
};
use crate::metrics::handles::{CountHandle, GaugeHandle};
use crate::metrics::metrics_set::MetricModel;
use crate::metrics::value::{CustomMetricValue, Measure};
use crate::metrics::{baseline, cells, handles, metrics_set, readable, skew, value};
use crate::text;

verus! {

/// How many numbers a figure can hold.
pub open spec fn range() -> int {
    usize::MAX + 1
}

/// The figure of a metric that adds up: a counter or a level.
pub open spec fn figure<M>(m: Measure<M>) -> Option<usize> {
    match m {
        Measure::OutputRows(c) => Some(c.value),
        Measure::SpillCount(c) => Some(c.value),
        Measure::SpilledBytes(c) => Some(c.value),
        Measure::OutputBytes(c) => Some(c.value),
        Measure::OutputBatches(c) => Some(c.value),
        Measure::SpilledRows(c) => Some(c.value),
        Measure::Count { count, .. } => Some(count.value),
        Measure::CurrentMemoryUsage(g) => Some(g.value),
        Measure::Gauge { gauge, .. } => Some(gauge.value),
        Measure::PeakMemoryUsage { gauge, .. } => Some(gauge.value),
        _ => None,
    }
}

/// The number of the variant of a metric.
pub open spec fn variant<M>(m: Measure<M>) -> int {
    match m {
        Measure::OutputRows(_) => 0,
        Measure::ElapsedCompute(_) => 1,
        Measure::SpillCount(_) => 2,
        Measure::SpilledBytes(_) => 3,
        Measure::OutputBytes(_) => 4,
        Measure::OutputBatches(_) => 5,
        Measure::SpilledRows(_) => 6,
        Measure::CurrentMemoryUsage(_) => 7,
        Measure::Count { .. } => 8,
        Measure::Gauge { .. } => 9,
        Measure::PeakMemoryUsage { .. } => 10,
        Measure::Time { .. } => 11,
        Measure::StartTimestamp(_) => 12,
        Measure::EndTimestamp(_) => 13,
        Measure::PruningMetrics { .. } => 14,
        Measure::Ratio { .. } => 15,
        Measure::Custom { .. } => 16,
    }
}

/// Metrics are of one kind exactly where they are of one variant.
pub proof fn kinds_are_variants<M>(a: Measure<M>, b: Measure<M>)
    ensures
        value::same_kind(a, b) <==> variant(a) == variant(b),
{
}

/// Two counters or levels of one kind taken together show the sum of both,
/// wrapping around, and stay what they are.
pub proof fn figures_add_up<C: CustomMetricValue>(a: Measure<C::Model>, b: Measure<C::Model>)
    requires
        figure(a) is Some,
        variant(a) == variant(b),
    ensures
        figure(value::aggregated::<C>(a, b)) is Some,
        figure(value::aggregated::<C>(a, b)).unwrap() == (figure(a).unwrap() + figure(b).unwrap())
            % range(),
        variant(value::aggregated::<C>(a, b)) == variant(a),
        value::measure_name(value::aggregated::<C>(a, b)) == value::measure_name(a),
{
    vstd::arithmetic::div_mod::lemma_mod_bound(figure(a).unwrap() + figure(b).unwrap(), range());
}

/// The number of a counter, a level or a time is what it has counted.
pub proof fn numbers_are_figures<C: CustomMetricValue>(m: Measure<C::Model>)
    ensures
        figure(m) is Some ==> value::measure_number::<C>(m) == figure(m).unwrap(),
        m matches Measure::ElapsedCompute(t) ==> value::measure_number::<C>(m) == t.nanos,
        m matches Measure::Time { time, .. } ==> value::measure_number::<C>(m) == time.nanos,
        m is PruningMetrics || m is Ratio ==> value::measure_number::<C>(m) == 0,
{
}

/// Two times taken together are the sum of both, wrapping around, where a time of
/// nothing counts as one nanosecond.
pub proof fn times_add_up<C: CustomMetricValue>(a: Time, b: Time, x: Seq<char>, y: Seq<char>)
    ensures
        ({
            let more = if b.nanos == 0 {
                1
            } else {
                b.nanos as int
            };
            let sum = (a.nanos + more) % range();
            &&& value::aggregated::<C>(
                Measure::ElapsedCompute(a),
                Measure::ElapsedCompute(b),
            ) matches Measure::ElapsedCompute(t) && t.nanos == sum
            &&& value::aggregated::<C>(
                Measure::Time { name: x, time: a },
                Measure::Time { name: y, time: b },
            ) matches Measure::Time { name, time } && name == x && time.nanos == sum
        }),
{
    let more = if b.nanos == 0 {
        1
    } else {
        b.nanos as int
    };
    vstd::arithmetic::div_mod::lemma_small_mod(b.nanos as nat, range() as nat);
    vstd::arithmetic::div_mod::lemma_mod_bound(a.nanos + more, range());
}

/// The place of a moment on the time line, in nanoseconds.
pub open spec fn place(t: UtcTime) -> int {
    t.secs * 1_000_000_000 + t.nanos
}

/// Of two starts taken together the earlier one is kept, and of two ends the
/// later one; a moment that is not known does not count.
pub proof fn the_first_start_and_the_last_end_stay<C: CustomMetricValue>(a: Timestamp, b: Timestamp)
    requires
        a.timestamp matches Some(t) ==> t.nanos < 1_000_000_000,
        b.timestamp matches Some(t) ==> t.nanos < 1_000_000_000,
    ensures
        ({
            let start = value::aggregated::<C>(
                Measure::StartTimestamp(a),
                Measure::StartTimestamp(b),
            );
            &&& start is StartTimestamp
            &&& match (a.timestamp, b.timestamp, start->StartTimestamp_0.timestamp) {
                (None, None, r) => r is None,
                (Some(x), None, r) => r == Some(x),
                (None, Some(y), r) => r == Some(y),
                (Some(x), Some(y), r) => r matches Some(z) && (z == x || z == y) && place(z)
                    <= place(x) && place(z) <= place(y),
            }
        }),
        ({
            let end = value::aggregated::<C>(Measure::EndTimestamp(a), Measure::EndTimestamp(b));
            &&& end is EndTimestamp
            &&& match (a.timestamp, b.timestamp, end->EndTimestamp_0.timestamp) {
                (None, None, r) => r is None,
                (Some(x), None, r) => r == Some(x),
                (None, Some(y), r) => r == Some(y),
                (Some(x), Some(y), r) => r matches Some(z) && (z == x || z == y) && place(z)
                    >= place(x) && place(z) >= place(y),
            }
        }),
{
}

/// Pruning figures add up figure by figure, and a ratio takes each of its figures
/// from the sum or from the other ratio, as its strategy says; how it is merged
/// and shown stays.
pub proof fn pruning_figures_and_ratios_add_up<C: CustomMetricValue>(
    name: Seq<char>,
    other: Seq<char>,
    a: PruningMetrics,
    b: PruningMetrics,
    x: RatioMetrics,
    y: RatioMetrics,
)
    ensures
        value::aggregated::<C>(
            Measure::PruningMetrics { name, pruning_metrics: a },
            Measure::PruningMetrics { name: other, pruning_metrics: b },
        ) matches Measure::PruningMetrics { name: n, pruning_metrics: p } && n == name && p.pruned
            == (a.pruned + b.pruned) % range() && p.matched == (a.matched + b.matched) % range()
            && p.fully_matched == (a.fully_matched + b.fully_matched) % range(),
        value::aggregated::<C>(
            Measure::Ratio { name, ratio_metrics: x },
            Measure::Ratio { name: other, ratio_metrics: y },
        ) matches Measure::Ratio { name: n, ratio_metrics: r } && n == name && r.merge_strategy
            == x.merge_strategy && r.display_raw_values == x.display_raw_values && match x.merge_strategy {
            RatioMergeStrategy::AddPartAddTotal => r.part == (x.part + y.part) % range() && r.total
                == (x.total + y.total) % range(),
            RatioMergeStrategy::AddPartSetTotal => r.part == (x.part + y.part) % range() && r.total
                == y.total,
            RatioMergeStrategy::SetPartAddTotal => r.part == y.part && r.total == (x.total
                + y.total) % range(),
        },
{
    vstd::arithmetic::div_mod::lemma_mod_bound(a.pruned + b.pruned, range());
    vstd::arithmetic::div_mod::lemma_mod_bound(a.matched + b.matched, range());
    vstd::arithmetic::div_mod::lemma_mod_bound(a.fully_matched + b.fully_matched, range());
    vstd::arithmetic::div_mod::lemma_mod_bound(x.part + y.part, range());
    vstd::arithmetic::div_mod::lemma_mod_bound(x.total + y.total, range());
}

/// Metrics of different kinds are not taken together: the first stays as it is.
pub proof fn other_kinds_are_left_alone<C: CustomMetricValue>(
    a: Measure<C::Model>,
    b: Measure<C::Model>,
)
    requires
        variant(a) != variant(b),
    ensures
        value::aggregated::<C>(a, b) == a,
{
}

/// An emptied metric is of the same kind and name and has counted nothing.
pub proof fn an_emptied_metric_has_counted_nothing<C: CustomMetricValue>(m: Measure<C::Model>)
    ensures
        variant(value::emptied::<C>(m)) == variant(m),
        value::measure_name(value::emptied::<C>(m)) == value::measure_name(m),
        figure(m) is Some ==> figure(value::emptied::<C>(m)) == Some(0usize),
        value::emptied::<C>(m) matches Measure::ElapsedCompute(t) ==> t.nanos == 0,
        value::emptied::<C>(m) matches Measure::Time { time, .. } ==> time.nanos == 0,
        value::emptied::<C>(m) matches Measure::StartTimestamp(t) ==> t.timestamp is None,
        value::emptied::<C>(m) matches Measure::EndTimestamp(t) ==> t.timestamp is None,
        value::emptied::<C>(m) matches Measure::PruningMetrics { pruning_metrics: p, .. }
            ==> p.pruned == 0 && p.matched == 0 && p.fully_matched == 0,
        value::emptied::<C>(m) matches Measure::Ratio { ratio_metrics: r, .. } ==> r.part == 0
            && r.total == 0 && r.merge_strategy == m->Ratio_ratio_metrics.merge_strategy,
{
}

/// The sum of the figures of the metrics that satisfy `keep`.
pub open spec fn total<M>(
    metrics: Seq<MetricModel<M>>,
    keep: spec_fn(MetricModel<M>) -> bool,
) -> int {
    metrics.filter(keep).map_values(
        |m: MetricModel<M>|
            match figure(m.value) {
                Some(n) => n as int,
                None => 0,
            },
    ).fold_left(0, |sum: int, n: int| sum + n)
}

proof fn total_grows<M>(metrics: Seq<MetricModel<M>>, keep: spec_fn(MetricModel<M>) -> bool)
    requires
        metrics.len() > 0,
    ensures
        total(metrics, keep) == total(metrics.drop_last(), keep) + if keep(metrics.last()) {
            match figure(metrics.last().value) {
                Some(n) => n as int,
                None => 0,
            }
        } else {
            0
        },
{
    reveal(Seq::filter);
    let number = |m: MetricModel<M>|
        match figure(m.value) {
            Some(n) => n as int,
            None => 0,
        };
    let plus = |sum: int, n: int| sum + n;
    let kept = metrics.drop_last().filter(keep);
    if keep(metrics.last()) {
        let all = kept.push(metrics.last());
        assert(all.map_values(number) =~= kept.map_values(number).push(number(metrics.last())));
        assert(all.map_values(number).drop_last() =~= kept.map_values(number));
        reveal_with_fuel(Seq::fold_left, 2);
    }
}

proof fn none_to_sum<M>(keep: spec_fn(MetricModel<M>) -> bool)
    ensures
        total(Seq::<MetricModel<M>>::empty(), keep) == 0,
{
    reveal(Seq::filter);
    let none = Seq::<MetricModel<M>>::empty();
    assert(none.filter(keep).len() == 0);
    reveal_with_fuel(Seq::fold_left, 1);
}

proof fn wrapping_sums(a: int, b: int)
    ensures
        (a % range() + b) % range() == (a + b) % range(),
{
    vstd::arithmetic::div_mod::lemma_add_mod_noop(a, b, range());
    vstd::arithmetic::div_mod::lemma_add_mod_noop(a % range(), b, range());
    vstd::arithmetic::div_mod::lemma_mod_twice(a, range());
}

/// Summing the metrics that satisfy a condition, all counters or levels of one
/// kind, gives one metric of that kind with the sum of their figures, wrapping
/// around; where no metric satisfies it, there is no sum.
pub proof fn a_sum_is_the_sum_of_the_figures<C: CustomMetricValue>(
    metrics: Seq<MetricModel<C::Model>>,
    keep: spec_fn(MetricModel<C::Model>) -> bool,
    kind: int,
)
    requires
        forall|i: int|
            0 <= i < metrics.len() && keep(#[trigger] metrics[i]) ==> figure(metrics[i].value)
                is Some && variant(metrics[i].value) == kind,
    ensures
        match metrics_set::summed::<C>(metrics, keep) {
            Some(sum) => {
                &&& variant(sum) == kind
                &&& figure(sum) is Some
                &&& figure(sum).unwrap() == total(metrics, keep) % range()
                &&& exists|i: int| 0 <= i < metrics.len() && keep(#[trigger] metrics[i])
            },
            None => forall|i: int| 0 <= i < metrics.len() ==> !keep(#[trigger] metrics[i]),
        },
        metrics_set::summed::<C>(metrics, keep) is None ==> total(metrics, keep) == 0,
    decreases metrics.len(),
{
    if metrics.len() == 0 {
        assert(metrics =~= Seq::<MetricModel<C::Model>>::empty());
        none_to_sum(keep);
    } else {
        let fewer = metrics.drop_last();
        let last = metrics.last();
        assert forall|i: int| 0 <= i < fewer.len() && keep(#[trigger] fewer[i]) implies figure(
            fewer[i].value,
        ) is Some && variant(fewer[i].value) == kind by {
            assert(fewer[i] == metrics[i]);
        }
        a_sum_is_the_sum_of_the_figures::<C>(fewer, keep, kind);
        total_grows(metrics, keep);
        assert(metrics[metrics.len() - 1] == last);
        let before = metrics_set::summed::<C>(fewer, keep);
        if keep(last) {
            match before {
                None => {
                    an_emptied_metric_has_counted_nothing::<C>(last.value);
                    figures_add_up::<C>(value::emptied::<C>(last.value), last.value);
                },
                Some(sum) => {
                    figures_add_up::<C>(sum, last.value);
                    wrapping_sums(
                        total(fewer, keep),
                        figure(last.value).unwrap() as int,
                    );
                },
            }
        } else {
            if before is Some {
                let i = choose|i: int| 0 <= i < fewer.len() && keep(#[trigger] fewer[i]);
                assert(metrics[i] == fewer[i]);
            } else {
                assert forall|i: int| 0 <= i < metrics.len() implies !keep(
                    #[trigger] metrics[i],
                ) by {
                    if i < fewer.len() {
                        assert(fewer[i] == metrics[i]);
                    }
                }
            }
        }
    }
}

/// Whether a metric is of the given name.
pub open spec fn named<M>(name: Seq<char>) -> spec_fn(MetricModel<M>) -> bool {
    |m: MetricModel<M>| value::measure_name(m.value) == name
}

proof fn position_is_exact<M>(metrics: Seq<MetricModel<M>>, name: Seq<char>)
    ensures
        match metrics_set::position_of_name(metrics, name) {
            Some(i) => 0 <= i < metrics.len() && value::measure_name(metrics[i].value) == name,
            None => forall|i: int|
                0 <= i < metrics.len() ==> value::measure_name((#[trigger] metrics[i]).value)
                    != name,
        },
    decreases metrics.len(),
{
    if metrics.len() > 0 {
        position_is_exact(metrics.drop_last(), name);
        if metrics_set::position_of_name(metrics, name) is None {
            assert forall|i: int| 0 <= i < metrics.len() implies value::measure_name(
                (#[trigger] metrics[i]).value,
            ) != name by {
                if i < metrics.len() - 1 {
                    assert(metrics.drop_last()[i] == metrics[i]);
                }
            }
        }
    }
}

/// Aggregating by name gives, for a name under which metrics that are counters or
/// levels of one kind were recorded, one metric of that kind and name with the
/// sum of all their figures, wrapping around, of no partition and without labels.
/// For a name that was not recorded it gives none.
pub proof fn aggregating_by_name_sums_each_name<C: CustomMetricValue>(
    metrics: Seq<MetricModel<C::Model>>,
    name: Seq<char>,
    kind: int,
)
    requires
        forall|i: int|
            0 <= i < metrics.len() && value::measure_name((#[trigger] metrics[i]).value) == name
                ==> figure(metrics[i].value) is Some && variant(metrics[i].value) == kind,
    ensures
        ({
            let all = metrics_set::by_name::<C>(metrics);
            match metrics_set::position_of_name(all, name) {
                Some(at) => {
                    &&& 0 <= at < all.len()
                    &&& value::measure_name(all[at].value) == name
                    &&& variant(all[at].value) == kind
                    &&& figure(all[at].value) is Some
                    &&& figure(all[at].value).unwrap() == total(metrics, named(name)) % range()
                    &&& all[at].partition is None
                    &&& all[at].labels.len() == 0
                    &&& forall|j: int|
                        0 <= j < all.len() && j != at ==> value::measure_name(
                            (#[trigger] all[j]).value,
                        ) != name
                    &&& exists|i: int|
                        0 <= i < metrics.len() && value::measure_name((#[trigger] metrics[i]).value)
                            == name
                },
                None => {
                    &&& forall|i: int|
                        0 <= i < metrics.len() ==> value::measure_name(
                            (#[trigger] metrics[i]).value,
                        ) != name
                    &&& total(metrics, named(name)) == 0
                    &&& forall|j: int|
                        0 <= j < all.len() ==> value::measure_name((#[trigger] all[j]).value)
                            != name
                },
            }
        }),
    decreases metrics.len(),
{
    let keep = named::<C::Model>(name);
    let all = metrics_set::by_name::<C>(metrics);
    if metrics.len() == 0 {
        assert(metrics =~= Seq::<MetricModel<C::Model>>::empty());
        none_to_sum(keep);
    } else {
        let fewer = metrics.drop_last();
        let last = metrics.last();
        assert(metrics[metrics.len() - 1] == last);
        assert forall|i: int|
            0 <= i < fewer.len() && value::measure_name((#[trigger] fewer[i]).value)
                == name implies figure(fewer[i].value) is Some && variant(fewer[i].value)
            == kind by {
            assert(fewer[i] == metrics[i]);
        }
        aggregating_by_name_sums_each_name::<C>(fewer, name, kind);
        total_grows(metrics, keep);
        let before = metrics_set::by_name::<C>(fewer);
        let last_name = value::measure_name(last.value);
        position_is_exact(before, last_name);
        position_is_exact(before, name);
        position_is_exact(all, name);
        let at = metrics_set::position_of_name(before, last_name);
        if last_name == name {
            match at {
                Some(i) => {
                    figures_add_up::<C>(before[i].value, last.value);
                    wrapping_sums(
                        total(fewer, keep),
                        figure(last.value).unwrap() as int,
                    );
                    assert forall|j: int| 0 <= j < all.len() && j != i implies value::measure_name(
                        (#[trigger] all[j]).value,
                    ) != name by {
                        assert(all[j] == before[j]);
                    }
                    assert(value::measure_name(all[i].value) == name);
                    assert(metrics_set::position_of_name(all, name) == Some(i));
                },
                None => {
                    an_emptied_metric_has_counted_nothing::<C>(last.value);
                    figures_add_up::<C>(value::emptied::<C>(last.value), last.value);
                    assert(all[before.len() as int].value == value::aggregated::<C>(
                        value::emptied::<C>(last.value),
                        last.value,
                    ));
                    assert forall|j: int| 0 <= j < before.len() implies value::measure_name(
                        (#[trigger] all[j]).value,
                    ) != name by {
                        assert(all[j] == before[j]);
                    }
                    assert(value::measure_name(all[before.len() as int].value) == name);
                    assert(metrics_set::position_of_name(all, name) == Some(before.len() as int));
                },
            }
        } else {
            match at {
                Some(i) => {
                    names_stay::<C>(before[i].value, last.value);
                },
                None => {
                    an_emptied_metric_has_counted_nothing::<C>(last.value);
                    names_stay::<C>(value::emptied::<C>(last.value), last.value);
                },
            }
            assert forall|j: int| 0 <= j < before.len() implies value::measure_name(
                (#[trigger] all[j]).value,
            ) == value::measure_name(before[j].value) by {}
            assert forall|j: int| 0 <= j < before.len() && value::measure_name(
                (#[trigger] before[j]).value,
            ) == name implies all[j] == before[j] by {}
            if all.len() > before.len() {
                assert(value::measure_name(all[before.len() as int].value) == last_name);
            }
            match metrics_set::position_of_name(before, name) {
                Some(q) => {
                    assert(all[q] == before[q]);
                    assert forall|j: int| 0 <= j < all.len() && j != q implies value::measure_name(
                        (#[trigger] all[j]).value,
                    ) != name by {
                        if j < before.len() {
                            assert(value::measure_name(before[j].value) != name);
                        }
                    }
                    assert(metrics_set::position_of_name(all, name) == Some(q));
                },
                None => {
                    assert forall|j: int| 0 <= j < all.len() implies value::measure_name(
                        (#[trigger] all[j]).value,
                    ) != name by {
                        if j < before.len() {
                            assert(value::measure_name(before[j].value) != name);
                        }
                    }
                    assert(metrics_set::position_of_name(all, name) is None);
                },
            }
            if exists|i: int|
                0 <= i < fewer.len() && value::measure_name((#[trigger] fewer[i]).value) == name {
                let i = choose|i: int|
                    0 <= i < fewer.len() && value::measure_name((#[trigger] fewer[i]).value)
                        == name;
                assert(metrics[i] == fewer[i]);
            } else {
                assert forall|i: int| 0 <= i < metrics.len() implies value::measure_name(
                    (#[trigger] metrics[i]).value,
                ) != name by {
                    if i < fewer.len() {
                        assert(fewer[i] == metrics[i]);
                    }
                }
            }
        }
    }
}

proof fn names_stay<C: CustomMetricValue>(a: Measure<C::Model>, b: Measure<C::Model>)
    ensures
        value::measure_name(value::aggregated::<C>(a, b)) == value::measure_name(a),
        value::measure_name(value::emptied::<C>(a)) == value::measure_name(a),
{
}

/// Keeping the metrics that satisfy a condition keeps exactly those, in order.
pub proof fn kept_metrics_are_filtered<M>(
    metrics: Seq<MetricModel<M>>,
    keep: spec_fn(MetricModel<M>) -> bool,
)
    ensures
        metrics_set::kept_metrics(metrics, keep) == metrics.filter(keep),
    decreases metrics.len(),
{
    reveal(Seq::filter);
    if metrics.len() > 0 {
        kept_metrics_are_filtered(metrics.drop_last(), keep);
    } else {
        assert(metrics_set::kept_metrics(metrics, keep) =~= metrics.filter(keep));
    }
}

/// A metric is shown under some categories exactly where one of them is its own,
/// or where it has none and any category is asked for.
pub proof fn metrics_are_shown_under_their_category<M>(
    m: MetricModel<M>,
    categories: Seq<MetricCategory>,
)
    ensures
        metrics_set::shown_under(m, categories) <==> exists|i: int|
            0 <= i < categories.len() && (m.metric_category is None || m.metric_category == Some(
                #[trigger] categories[i],
            )),
{
    if metrics_set::shown_under(m, categories) {
        match m.metric_category {
            Some(c) => {
                let i = choose|i: int| 0 <= i < categories.len() && categories[i] == c;
                assert(m.metric_category == Some(categories[i]));
            },
            None => {
                assert(0 <= 0 < categories.len());
                let first = categories[0];
            },
        }
    }
}

/// The order in which kinds of metrics are shown.
pub proof fn kinds_are_shown_in_their_order<M>(
    c: Count,
    g: Gauge,
    t: Time,
    s: Timestamp,
    p: PruningMetrics,
    r: RatioMetrics,
    v: M,
    name: Seq<char>,
)
    requires
        name != "page_index_pages_skipped_by_fully_matched"@,
    ensures
        value::sort_key(Measure::<M>::OutputRows(c)) < value::sort_key(
            Measure::<M>::ElapsedCompute(t),
        ) < value::sort_key(Measure::<M>::OutputBytes(c)) < value::sort_key(
            Measure::<M>::OutputBatches(c),
        ) < value::sort_key(
            Measure::<M>::PruningMetrics { name, pruning_metrics: p },
        ) < value::sort_key(Measure::<M>::SpillCount(c)) < value::sort_key(
            Measure::<M>::SpilledBytes(c),
        ) < value::sort_key(Measure::<M>::SpilledRows(c)) < value::sort_key(
            Measure::<M>::CurrentMemoryUsage(g),
        ) == value::sort_key(
            Measure::<M>::PeakMemoryUsage { name, gauge: g },
        ) < value::sort_key(Measure::<M>::Count { name, count: c }) < value::sort_key(
            Measure::<M>::Gauge { name, gauge: g },
        ) < value::sort_key(Measure::<M>::Time { name, time: t }) < value::sort_key(
            Measure::<M>::Ratio { name, ratio_metrics: r },
        ) < value::sort_key(Measure::<M>::StartTimestamp(s)) < value::sort_key(
            Measure::<M>::EndTimestamp(s),
        ) < value::sort_key(Measure::<M>::Custom { name, value: v }),
{
}

/// Whether two metrics differ in their figures alone.
pub open spec fn same_but_figures<M>(a: MetricModel<M>, b: MetricModel<M>) -> bool {
    &&& variant(a.value) == variant(b.value)
    &&& value::measure_name(a.value) == value::measure_name(b.value)
    &&& a.labels == b.labels
    &&& a.partition == b.partition
    &&& a.metric_type == b.metric_type
    &&& a.metric_category == b.metric_category
}

/// Counting `n` more through a handle makes the counter in the set show `n` more,
/// wrapping around, and changes nothing else in the set.
pub proof fn what_a_handle_counts_shows_in_the_set<M>(
    handle: CountHandle,
    metrics: Seq<MetricModel<M>>,
    n: usize,
)
    requires
        handle.wf(metrics),
    ensures
        ({
            let at = handle.slot as int;
            let after = handle.recorded(metrics, handles::more(handle.reading(metrics), n));
            &&& after.len() == metrics.len()
            &&& figure(metrics[at].value) is Some && figure(after[at].value) is Some
            &&& figure(after[at].value).unwrap() == (figure(metrics[at].value).unwrap() + n)
                % range()
            &&& same_but_figures(metrics[at], after[at])
            &&& forall|i: int| 0 <= i < metrics.len() && i != at ==> #[trigger] after[i]
                == metrics[i]
        }),
{
    let at = handle.slot as int;
    vstd::arithmetic::div_mod::lemma_mod_bound(figure(metrics[at].value).unwrap() + n, range());
}

/// Raising or lowering a level through a handle makes the level in the set show
/// it, wrapping around, and changes nothing else in the set.
pub proof fn what_a_handle_raises_shows_in_the_set<M>(
    handle: GaugeHandle,
    metrics: Seq<MetricModel<M>>,
    n: usize,
)
    requires
        handle.wf(metrics),
    ensures
        ({
            let at = handle.slot as int;
            let before = figure(metrics[at].value);
            let high = handle.recorded(metrics, handles::raised(handle.reading(metrics), n));
            let low = handle.recorded(metrics, handles::lowered(handle.reading(metrics), n));
            &&& before is Some
            &&& figure(high[at].value) is Some && figure(high[at].value).unwrap() == (
            before.unwrap() + n) % range()
            &&& figure(low[at].value) is Some && figure(low[at].value).unwrap() == (before.unwrap()
                - n) % range()
            &&& same_but_figures(metrics[at], high[at]) && same_but_figures(metrics[at], low[at])
            &&& forall|i: int| 0 <= i < metrics.len() && i != at ==> #[trigger] high[i]
                == metrics[i]
            &&& forall|i: int| 0 <= i < metrics.len() && i != at ==> #[trigger] low[i]
                == metrics[i]
        }),
{
    let at = handle.slot as int;
    let before = figure(metrics[at].value).unwrap();
    vstd::arithmetic::div_mod::lemma_mod_bound(before + n, range());
    vstd::arithmetic::div_mod::lemma_mod_bound(before - n, range());
}

/// Recording a batch through a registered baseline makes its counters show so
/// many more rows and bytes and one more batch, wrapping around, and changes
/// nothing else in the set.
pub proof fn a_recorded_batch_shows_in_the_set<M>(
    b: BaselineMetrics,
    metrics: Seq<MetricModel<M>>,
    rows: usize,
    bytes: usize,
    x: CountHandle,
    y: CountHandle,
    z: CountHandle,
)
    requires
        b.output_rows == CountCell::Registered(x),
        b.output_bytes == CountCell::Registered(y),
        b.output_batches == CountCell::Registered(z),
        x.wf(metrics),
        y.wf(metrics),
        z.wf(metrics),
        x.slot != y.slot,
        x.slot != z.slot,
        y.slot != z.slot,
    ensures
        ({
            let after = b.batch_recorded(metrics, rows, bytes);
            let shown = |s: Seq<MetricModel<M>>, h: CountHandle| figure(s[h.slot as int].value).unwrap();
            &&& after.len() == metrics.len()
            &&& shown(after, x) == (shown(metrics, x) + rows) % range()
            &&& shown(after, y) == (shown(metrics, y) + bytes) % range()
            &&& shown(after, z) == (shown(metrics, z) + 1) % range()
            &&& forall|i: int|
                0 <= i < metrics.len() && i != x.slot && i != y.slot && i != z.slot
                    ==> #[trigger] after[i] == metrics[i]
        }),
{
    what_a_handle_counts_shows_in_the_set(x, metrics, rows);
    let one = x.recorded(metrics, handles::more(x.reading(metrics), rows));
    what_a_handle_counts_shows_in_the_set(y, one, bytes);
    let two = y.recorded(one, handles::more(y.reading(one), bytes));
    what_a_handle_counts_shows_in_the_set(z, two, 1);
}

/// Recording the end through a registered baseline makes the end in the set the
/// given moment, and changes nothing else in the set.
pub proof fn a_recorded_end_shows_in_the_set<M>(
    b: BaselineMetrics,
    metrics: Seq<MetricModel<M>>,
    h: handles::TimestampHandle,
    now: UtcTime,
)
    requires
        b.end_time == TimestampCell::Registered(h),
        h.wf(metrics),
        metrics[h.slot as int].value is EndTimestamp,
    ensures
        ({
            let at = h.slot as int;
            let after = b.end_time.metrics_after(metrics, now);
            &&& after.len() == metrics.len()
            &&& after[at].value == Measure::<M>::EndTimestamp(Timestamp { timestamp: Some(now) })
            &&& same_but_figures(metrics[at], after[at])
            &&& forall|i: int| 0 <= i < metrics.len() && i != at ==> #[trigger] after[i]
                == metrics[i]
        }),
{
}

/// Whether a metric counts output rows of a partition.
pub open spec fn rows_of_partition<M>(p: usize) -> spec_fn(MetricModel<M>) -> bool {
    |m: MetricModel<M>| m.value is OutputRows && m.partition == Some(p)
}

proof fn partition_total<M>(metrics: Seq<MetricModel<M>>, p: usize)
    ensures
        baseline::total_rows(metrics, p) == total(metrics, rows_of_partition(p)),
    decreases metrics.len(),
{
    if metrics.len() == 0 {
        assert(metrics =~= Seq::<MetricModel<M>>::empty());
        none_to_sum(rows_of_partition::<M>(p));
    } else {
        partition_total(metrics.drop_last(), p);
        total_grows(metrics, rows_of_partition(p));
    }
}

/// The totals of output rows list every partition that reports rows once, in
/// ascending order, each with the sum of all its counters of output rows.
pub proof fn totals_are_sums_by_partition<M>(
    totals: Seq<(usize, u128)>,
    metrics: Seq<MetricModel<M>>,
    p: usize,
)
    requires
        baseline::lists_totals(totals, metrics),
    ensures
        forall|i: int, j: int|
            0 <= i < j < totals.len() ==> (#[trigger] totals[i]).0 < (#[trigger] totals[j]).0,
        forall|i: int|
            0 <= i < totals.len() ==> (#[trigger] totals[i]).1 == total(
                metrics,
                rows_of_partition(totals[i].0),
            ),
        (exists|i: int| 0 <= i < totals.len() && (#[trigger] totals[i]).0 == p) <==> exists|k: int|
            0 <= k < metrics.len() && (#[trigger] metrics[k]).value is OutputRows
                && metrics[k].partition == Some(p),
{
    reveal(baseline::lists_totals);
    assert forall|i: int| 0 <= i < totals.len() implies (#[trigger] totals[i]).1 == total(
        metrics,
        rows_of_partition(totals[i].0),
    ) by {
        partition_total(metrics, totals[i].0);
    }
    if exists|i: int| 0 <= i < totals.len() && (#[trigger] totals[i]).0 == p {
        let i = choose|i: int| 0 <= i < totals.len() && (#[trigger] totals[i]).0 == p;
        assert(baseline::reports_rows(metrics, totals[i].0));
        let k = choose|k: int|
            0 <= k < metrics.len() && baseline::counts_rows_of(#[trigger] metrics[k], p);
        assert(metrics[k].value is OutputRows && metrics[k].partition == Some(p));
    }
    if exists|k: int|
        0 <= k < metrics.len() && (#[trigger] metrics[k]).value is OutputRows
            && metrics[k].partition == Some(p) {
        let k = choose|k: int|
            0 <= k < metrics.len() && (#[trigger] metrics[k]).value is OutputRows
                && metrics[k].partition == Some(p);
        assert(baseline::counts_rows_of(metrics[k], p));
        assert(baseline::reports_rows(metrics, p));
    }
}

/// Stopping a timer adds the nanoseconds since its start, but at least one,
/// wrapping around; a timer that does not run adds nothing.
pub proof fn a_stopped_timer_adds_what_has_passed(before: Time, from: Instant, now: Instant)
    ensures
        ({
            let passed = cells::nanos_apart(from, now) as int % range();
            cells::time_stopped(Some(from), before, now).nanos == (before.nanos + if passed > 1 {
                passed
            } else {
                1
            }) % range()
        }),
        cells::time_stopped(None, before, now) == before,
{
    let passed = cells::nanos_apart(from, now) as int % range();
    vstd::arithmetic::div_mod::lemma_mod_bound(cells::nanos_apart(from, now) as int, range());
    vstd::arithmetic::div_mod::lemma_mod_bound(
        before.nanos + if passed > 1 {
            passed
        } else {
            1
        },
        range(),
    );
}

/// One moment is before another exactly where it stands earlier on the time line;
/// its nanoseconds since the epoch are its place there.
pub proof fn moments_are_ordered_by_time(a: UtcTime, b: UtcTime)
    requires
        a.nanos < 1_000_000_000,
        b.nanos < 1_000_000_000,
    ensures
        a.before(b) <==> place(a) < place(b),
        i64::MIN <= place(a) <= i64::MAX ==> a.nanos_since_epoch() == Some(place(a)),
        place(a) < i64::MIN || place(a) > i64::MAX ==> a.nanos_since_epoch() is None,
{
}

/// A ratio is shown to the nearest hundredth of a percent.
pub proof fn a_ratio_is_shown_to_the_nearest_hundredth(part: int, total: int)
    requires
        0 <= part,
        0 < total,
        (part * 10_000 + total / 2) / total <= usize::MAX,
    ensures
        2 * (cells::basis_points(part, total) * total - part * 10_000) <= total,
        2 * (part * 10_000 - cells::basis_points(part, total) * total) <= total,
{
    let n = part * 10_000 + total / 2;
    vstd::arithmetic::div_mod::lemma_fundamental_div_mod(n, total);
    vstd::arithmetic::div_mod::lemma_mod_bound(n, total);
    vstd::arithmetic::div_mod::lemma_div_pos_is_pos(n, total);
    cells::wrapped_in_range(n / total);
    assert(total * (n / total) == (n / total) * total) by (nonlinear_arith);
}

/// A metric takes part in the sum of a name exactly where it is a named counter,
/// time, level, set of pruning figures or ratio of that name.
pub proof fn named_metrics_are_summed_by_name<M>(m: Measure<M>, name: Seq<char>)
    ensures
        metrics_set::summable_as(m, name) <==> (m is Count || m is Time || m is Gauge
            || m is PeakMemoryUsage || m is PruningMetrics || m is Ratio) && value::measure_name(m)
            == name,
{
}

/// Counters and levels count as equal exactly where they are of one kind and name
/// and have counted the same.
pub proof fn equal_metrics_have_counted_the_same<C: CustomMetricValue>(
    a: Measure<C::Model>,
    b: Measure<C::Model>,
)
    requires
        figure(a) is Some,
    ensures
        value::measures_equal::<C>(a, b) <==> variant(a) == variant(b) && value::measure_name(a)
            == value::measure_name(b) && figure(a) == figure(b),
{
}

/// A metric is shown as its name, and behind an equals sign its value; its labels,
/// that of its partition first, stand in braces behind the name.
pub proof fn a_metric_shows_its_name_its_labels_and_its_value<C: CustomMetricValue>(
    m: MetricModel<C::Model>,
    p: usize,
    label: (Seq<char>, Seq<char>),
)
    ensures
        ({
            let name = value::measure_name(m.value);
            let shown = value::measure_text::<C>(m.value);
            let all = metrics_set::metric_text::<C>(m);
            let partition = "partition"@ + seq!['='] + text::decimal(p as nat);
            let own = label.0 + seq!['='] + label.1;
            &&& m.partition is None && m.labels.len() == 0 ==> all == name + seq!['='] + shown
            &&& m.partition == Some(p) && m.labels.len() == 0 ==> all == name + seq!['{']
                + partition + seq!['}', '='] + shown
            &&& m.partition is None && m.labels == seq![label] ==> all == name + seq!['{'] + own
                + seq!['}', '='] + shown
            &&& m.partition == Some(p) && m.labels == seq![label] ==> all == name + seq!['{']
                + partition + seq![',', ' '] + own + seq!['}', '='] + shown
        }),
{
    reveal_strlit("=");
    reveal_strlit("{");
    reveal_strlit("}");
    reveal_strlit(", ");
    assert("="@ =~= seq!['=']);
    assert(", "@ =~= seq![',', ' ']);
    let name = value::measure_name(m.value);
    let shown = value::measure_text::<C>(m.value);
    let all = metrics_set::metric_text::<C>(m);
    let partition = "partition"@ + seq!['='] + text::decimal(p as nat);
    let own = label.0 + seq!['='] + label.1;
    let labels = metrics_set::shown_labels(m);
    reveal_with_fuel(text::join, 3);
    if m.partition == Some(p) && m.labels.len() == 0 {
        assert(labels =~= seq![partition]);
        assert(all =~= name + seq!['{'] + partition + seq!['}', '='] + shown);
    }
    if m.partition is None && m.labels == seq![label] {
        assert(labels =~= seq![own]);
        assert(all =~= name + seq!['{'] + own + seq!['}', '='] + shown);
    }
    if m.partition == Some(p) && m.labels == seq![label] {
        assert(labels =~= seq![partition, own]);
        assert(labels.drop_last() =~= seq![partition]);
        assert(all =~= name + seq!['{'] + partition + seq![',', ' '] + own + seq!['}', '=']
            + shown);
    }
    if m.partition is None && m.labels.len() == 0 {
        assert(labels.len() == 0);
    }
}

/// Metrics are shown one by one, with a comma between them.
pub proof fn metrics_are_shown_one_by_one<C: CustomMetricValue>(
    metrics: Seq<MetricModel<C::Model>>,
    m: MetricModel<C::Model>,
)
    ensures
        metrics_set::metrics_text::<C>(seq![]).len() == 0,
        metrics_set::metrics_text::<C>(seq![m]) == metrics_set::metric_text::<C>(m),
        metrics.len() > 0 ==> metrics_set::metrics_text::<C>(metrics.push(m))
            == metrics_set::metrics_text::<C>(metrics) + seq![',', ' '] + metrics_set::metric_text::<
            C,
        >(m),
{
    reveal_strlit(", ");
    assert(", "@ =~= seq![',', ' ']);
    let all = metrics.push(m);
    let texts = Seq::new(all.len(), |i: int| metrics_set::metric_text::<C>(all[i]));
    let before = Seq::new(metrics.len(), |i: int| metrics_set::metric_text::<C>(metrics[i]));
    assert(texts.drop_last() =~= before);
    assert(texts.last() == metrics_set::metric_text::<C>(m));
}

/// Counters and levels are shown as numbers, memory and bytes as sizes, and times
/// as durations unless nothing was recorded.
pub proof fn values_are_shown_by_kind<C: CustomMetricValue>(m: Measure<C::Model>)
    requires
        figure(m) is Some || m is ElapsedCompute || m is Time,
    ensures
        m is SpilledBytes || m is OutputBytes || m is CurrentMemoryUsage || m is PeakMemoryUsage
            ==> value::measure_text::<C>(m) == readable::size_text(figure(m)->0 as int),
        m is OutputRows || m is OutputBatches || m is SpillCount || m is SpilledRows || m is Count
            || m is Gauge ==> value::measure_text::<C>(m) == readable::count_text(
            figure(m)->0 as int,
        ),
        m matches Measure::ElapsedCompute(t) ==> value::measure_text::<C>(m) == if t.nanos == 0 {
            "NOT RECORDED"@
        } else {
            readable::duration_text(t.nanos as int)
        },
        m matches Measure::Time { time, .. } ==> value::measure_text::<C>(m) == if time.nanos == 0 {
            "NOT RECORDED"@
        } else {
            readable::duration_text(time.nanos as int)
        },
{
}

/// Pruning figures show the total of what was pruned and what was matched, then
/// what was matched, and what was fully matched where there is any.
pub proof fn pruning_figures_show_their_total(pruned: int, matched: int, fully_matched: int)
    ensures
        fully_matched == 0 ==> cells::pruning_text(pruned, matched, fully_matched)
            == readable::count_text(matched + pruned) + " total → "@ + readable::count_text(matched)
            + " matched"@,
        fully_matched != 0 ==> cells::pruning_text(pruned, matched, fully_matched)
            == cells::pruning_text(pruned, matched, 0) + " -> "@ + readable::count_text(
            fully_matched,
        ) + " fully matched"@,
{
}

/// Hundredths of a percent are shown as whole percents and, behind a point, as
/// many decimals as are needed.
pub proof fn a_percentage_has_the_decimals_it_needs(whole: nat, tenths: nat, hundredths: nat)
    requires
        tenths < 10,
        hundredths < 10,
    ensures
        ({
            let shown = cells::percent_text(
                (100 * whole + 10 * tenths + hundredths) as int,
            );
            let head = text::decimal(whole);
            &&& tenths == 0 && hundredths == 0 ==> shown == head + seq!['%']
            &&& tenths > 0 && hundredths == 0 ==> shown == head + seq!['.'] + text::decimal(tenths)
                + seq!['%']
            &&& hundredths > 0 ==> shown == head + seq!['.'] + text::decimal(tenths)
                + text::decimal(hundredths) + seq!['%']
        }),
{
    reveal_strlit("%");
    reveal_strlit(".");
    assert("%"@ =~= seq!['%']);
    assert("."@ =~= seq!['.']);
    let points = 100 * whole + 10 * tenths + hundredths;
    assert(points / 100 == whole);
    assert(points % 100 == 10 * tenths + hundredths);
}

/// A ratio without a whole is not available; elsewhere its percentage is shown,
/// and behind it, where they are wanted, the part and the whole.
pub proof fn a_ratio_shows_its_percentage(part: int, total: int)
    ensures
        total == 0 ==> cells::ratio_text(part, total, false) == "N/A"@,
        total == 0 && part == 0 ==> cells::ratio_text(part, total, true) == "N/A"@ + " (0/0)"@,
        total == 0 && part != 0 ==> cells::ratio_text(part, total, true) == "N/A"@ + " ("@
            + readable::count_text(part) + "/0)"@,
        total != 0 ==> cells::ratio_text(part, total, false) == cells::percent_text(
            cells::basis_points(part, total),
        ),
        total != 0 ==> cells::ratio_text(part, total, true) == cells::ratio_text(part, total, false)
            + " ("@ + readable::count_text(part) + "/"@ + readable::count_text(total) + ")"@,
{
}

/// Whether some metric counts output rows of a partition.
pub open spec fn has_rows_counter<M>(metrics: Seq<MetricModel<M>>, p: usize) -> bool {
    exists|k: int|
        0 <= k < metrics.len() && (#[trigger] metrics[k]).value is OutputRows
            && metrics[k].partition == Some(p)
}

proof fn reports<M>(metrics: Seq<MetricModel<M>>, p: usize)
    ensures
        baseline::reports_rows(metrics, p) <==> has_rows_counter(metrics, p),
        baseline::total_rows(metrics, p) == total(metrics, rows_of_partition(p)),
{
    partition_total(metrics, p);
    if baseline::reports_rows(metrics, p) {
        let k = choose|k: int|
            0 <= k < metrics.len() && baseline::counts_rows_of(#[trigger] metrics[k], p);
        assert(metrics[k].value is OutputRows && metrics[k].partition == Some(p));
    }
    if has_rows_counter(metrics, p) {
        let k = choose|k: int|
            0 <= k < metrics.len() && (#[trigger] metrics[k]).value is OutputRows
                && metrics[k].partition == Some(p);
        assert(baseline::counts_rows_of(metrics[k], p));
    }
}

/// Rows of a single partition are not skewed at all, and neither are rows that all
/// partitions have the same number of; without rows there is no skew.
pub proof fn an_even_spread_is_not_skewed<M>(metrics: Seq<MetricModel<M>>, score: usize, rows: int)
    requires
        forall|p: usize| #[trigger]
            has_rows_counter(metrics, p) ==> total(metrics, rows_of_partition(p)) == rows,
    ensures
        rows > 0 ==> skew::skew_points(metrics, score) == Some(0usize),
        rows == 0 && (exists|p: usize, q: usize| #[trigger]
            has_rows_counter(metrics, p) && #[trigger] has_rows_counter(metrics, q) && p != q)
            ==> skew::skew_points(metrics, score) is None,
{
    reveal(skew::single_partition);
    reveal(skew::no_rows);
    reveal(skew::one_has_all);
    reveal(skew::evenly_spread);
    assert forall|p: usize| #[trigger] baseline::reports_rows(metrics, p) implies
        baseline::total_rows(metrics, p) == rows && has_rows_counter(metrics, p) by {
        reports(metrics, p);
    }
    assert forall|p: usize| #[trigger] has_rows_counter(metrics, p) implies baseline::reports_rows(
        metrics,
        p,
    ) by {
        reports(metrics, p);
    }
    if rows > 0 && !skew::single_partition(metrics) {
        let (p, q) = choose|p: usize, q: usize| #[trigger]
            baseline::reports_rows(metrics, p) && #[trigger] baseline::reports_rows(metrics, q)
                && p != q;
        assert(baseline::total_rows(metrics, p) > 0 && baseline::total_rows(metrics, q) > 0);
        assert(!skew::no_rows(metrics));
        if skew::one_has_all(metrics) {
            let o = choose|o: usize| #[trigger]
                baseline::reports_rows(metrics, o) && baseline::total_rows(metrics, o) > 0
                    && forall|q: usize| #[trigger]
                    baseline::reports_rows(metrics, q) && q != o ==> baseline::total_rows(
                        metrics,
                        q,
                    ) == 0;
            assert(p == o && q == o);
        }
    }
    if rows == 0 && exists|p: usize, q: usize| #[trigger]
        has_rows_counter(metrics, p) && #[trigger] has_rows_counter(metrics, q) && p != q {
        let (p, q) = choose|p: usize, q: usize| #[trigger]
            has_rows_counter(metrics, p) && #[trigger] has_rows_counter(metrics, q) && p != q;
        assert(baseline::reports_rows(metrics, p) && baseline::reports_rows(metrics, q));
    }
}

/// Where one of several partitions has all the rows, they are wholly skewed.
pub proof fn all_rows_in_one_place_are_skewed<M>(
    metrics: Seq<MetricModel<M>>,
    score: usize,
    p: usize,
    other: usize,
)
    requires
        p != other,
        has_rows_counter(metrics, p),
        has_rows_counter(metrics, other),
        total(metrics, rows_of_partition(p)) > 0,
        forall|q: usize| #[trigger]
            has_rows_counter(metrics, q) && q != p ==> total(metrics, rows_of_partition(q)) == 0,
    ensures
        skew::skew_points(metrics, score) == Some(10_000usize),
{
    reveal(skew::single_partition);
    reveal(skew::no_rows);
    reveal(skew::one_has_all);
    reports(metrics, p);
    reports(metrics, other);
    assert forall|q: usize| #[trigger] baseline::reports_rows(metrics, q) && q != p implies
        baseline::total_rows(metrics, q) == 0 by {
        reports(metrics, q);
        assert(has_rows_counter(metrics, q));
    }
}

/// Any other spread is as skewed as it is scored, up to the whole.
pub proof fn an_uneven_spread_is_skewed_as_scored<M>(
    metrics: Seq<MetricModel<M>>,
    score: usize,
    p: usize,
    q: usize,
    r: usize,
)
    requires
        p != q,
        has_rows_counter(metrics, p),
        has_rows_counter(metrics, q),
        has_rows_counter(metrics, r),
        total(metrics, rows_of_partition(p)) > 0,
        total(metrics, rows_of_partition(q)) > 0,
        total(metrics, rows_of_partition(r)) != total(metrics, rows_of_partition(p)),
    ensures
        skew::skew_points(metrics, score) == Some(
            if score < 10_000 {
                score
            } else {
                10_000
            },
        ),
{
    reveal(skew::single_partition);
    reveal(skew::no_rows);
    reveal(skew::one_has_all);
    reveal(skew::evenly_spread);
    reports(metrics, p);
    reports(metrics, q);
    reports(metrics, r);
    if skew::one_has_all(metrics) {
        let o = choose|o: usize| #[trigger]
            baseline::reports_rows(metrics, o) && baseline::total_rows(metrics, o) > 0 && forall|
                q: usize,
            | #[trigger]
                baseline::reports_rows(metrics, q) && q != o ==> baseline::total_rows(metrics, q)
                    == 0;
        assert(baseline::reports_rows(metrics, p) && baseline::reports_rows(metrics, q));
    }
}

/// Changing a value in a set changes that value alone: the metric keeps its labels
/// and its place, and the other metrics stay as they are.
pub proof fn a_change_in_a_set_is_one_value<M>(
    metrics: Seq<MetricModel<M>>,
    slot: int,
    value: Measure<M>,
    other: int,
)
    requires
        0 <= slot < metrics.len(),
        0 <= other < metrics.len(),
        other != slot,
    ensures
        handles::changed(metrics, slot, value).len() == metrics.len(),
        handles::changed(metrics, slot, value)[slot].value == value,
        handles::changed(metrics, slot, value)[slot].labels == metrics[slot].labels,
        handles::changed(metrics, slot, value)[slot].partition == metrics[slot].partition,
        handles::changed(metrics, slot, value)[slot].metric_type == metrics[slot].metric_type,
        handles::changed(metrics, slot, value)[slot].metric_category
            == metrics[slot].metric_category,
        handles::changed(metrics, slot, value)[other] == metrics[other],
{
}

/// A time, a moment, pruning figures or a ratio put into a metric of its kind is
/// what the metric then holds, under the name it had.
pub proof fn what_is_put_into_a_metric_is_in_it<M>(
    name: Seq<char>,
    t: Time,
    t0: Time,
    s: Timestamp,
    s0: Timestamp,
    p: PruningMetrics,
    p0: PruningMetrics,
    r: RatioMetrics,
    r0: RatioMetrics,
)
    ensures
        handles::with_time(Measure::<M>::ElapsedCompute(t0), t) == Measure::<M>::ElapsedCompute(t),
        handles::with_time(Measure::<M>::Time { name, time: t0 }, t) == (Measure::<M>::Time {
            name,
            time: t,
        }),
        handles::time_of(Measure::<M>::ElapsedCompute(t)) == t,
        handles::time_of(Measure::<M>::Time { name, time: t }) == t,
        handles::with_timestamp(Measure::<M>::StartTimestamp(s0), s) == Measure::<
            M,
        >::StartTimestamp(s),
        handles::with_timestamp(Measure::<M>::EndTimestamp(s0), s) == Measure::<M>::EndTimestamp(
            s,
        ),
        handles::timestamp_of(Measure::<M>::StartTimestamp(s)) == s,
        handles::timestamp_of(Measure::<M>::EndTimestamp(s)) == s,
        handles::with_pruning(Measure::<M>::PruningMetrics { name, pruning_metrics: p0 }, p) == (
        Measure::<M>::PruningMetrics { name, pruning_metrics: p }),
        handles::pruning_of(Measure::<M>::PruningMetrics { name, pruning_metrics: p }) == p,
        handles::with_ratio(Measure::<M>::Ratio { name, ratio_metrics: r0 }, r) == (Measure::<
            M,
        >::Ratio { name, ratio_metrics: r }),
        handles::ratio_of(Measure::<M>::Ratio { name, ratio_metrics: r }) == r,
{
}

/// The kinds that have no name of their own go by fixed names, which no two of
/// them share.
pub proof fn kinds_have_fixed_names<M>(
    c: Count,
    g: Gauge,
    t: Time,
    s: Timestamp,
    a: Measure<M>,
    b: Measure<M>,
)
    requires
        fixed(a) && fixed(b),
    ensures
        value::measure_name(Measure::<M>::OutputRows(c)) == "output_rows"@,
        value::measure_name(Measure::<M>::SpillCount(c)) == "spill_count"@,
        value::measure_name(Measure::<M>::SpilledBytes(c)) == "spilled_bytes"@,
        value::measure_name(Measure::<M>::OutputBytes(c)) == "output_bytes"@,
        value::measure_name(Measure::<M>::OutputBatches(c)) == "output_batches"@,
        value::measure_name(Measure::<M>::SpilledRows(c)) == "spilled_rows"@,
        value::measure_name(Measure::<M>::CurrentMemoryUsage(g)) == "mem_used"@,
        value::measure_name(Measure::<M>::ElapsedCompute(t)) == "elapsed_compute"@,
        value::measure_name(Measure::<M>::StartTimestamp(s)) == "start_timestamp"@,
        value::measure_name(Measure::<M>::EndTimestamp(s)) == "end_timestamp"@,
        value::measure_name(a) == value::measure_name(b) ==> variant(a) == variant(b),
{
    reveal_strlit("output_rows");
    reveal_strlit("spill_count");
    reveal_strlit("spilled_bytes");
    reveal_strlit("output_bytes");
    reveal_strlit("output_batches");
    reveal_strlit("spilled_rows");
    reveal_strlit("mem_used");
    reveal_strlit("elapsed_compute");
    reveal_strlit("start_timestamp");
    reveal_strlit("end_timestamp");
    let x = value::measure_name(a);
    let y = value::measure_name(b);
    if x == y {
        assert(x.len() == y.len());
        assert(x[0] == y[0] && x[5] == y[5] && x[6] == y[6] && x[7] == y[7]);
        assert(x.len() > 8 ==> x[8] == y[8]);
    }
}

/// Whether a metric goes by the name of its kind.
pub open spec fn fixed<M>(m: Measure<M>) -> bool {
    m is OutputRows || m is SpillCount || m is SpilledBytes || m is OutputBytes || m is OutputBatches
        || m is SpilledRows || m is CurrentMemoryUsage || m is ElapsedCompute || m is StartTimestamp
        || m is EndTimestamp
}

/// A named metric goes by its name.
pub proof fn named_metrics_go_by_their_names<M>(m: Measure<M>)
    ensures
        m matches Measure::Count { name, .. } ==> value::measure_name(m) == name,
        m matches Measure::Gauge { name, .. } ==> value::measure_name(m) == name,
        m matches Measure::PeakMemoryUsage { name, .. } ==> value::measure_name(m) == name,
        m matches Measure::Time { name, .. } ==> value::measure_name(m) == name,
        m matches Measure::PruningMetrics { name, .. } ==> value::measure_name(m) == name,
        m matches Measure::Ratio { name, .. } ==> value::measure_name(m) == name,
        m matches Measure::Custom { name, .. } ==> value::measure_name(m) == name,
{
}

/// A new baseline has a metric of each of its kinds for its partition: the work
/// starts now, has no end yet, and nothing is counted.
pub proof fn a_baseline_starts_from_nothing<M>(partition: usize, now: UtcTime, i: int)
    requires
        0 <= i < 6,
    ensures
        ({
            let all = baseline::baseline_metrics::<M>(partition, now);
            &&& all.len() == 6
            &&& all[i].partition == Some(partition)
            &&& all[i].labels.len() == 0
            &&& all[0].value == Measure::<M>::StartTimestamp(Timestamp { timestamp: Some(now) })
            &&& all[1].value == Measure::<M>::EndTimestamp(Timestamp { timestamp: None })
            &&& all[2].value == Measure::<M>::ElapsedCompute(Time { nanos: 0 })
            &&& all[3].value is OutputRows && all[4].value is OutputBytes
                && all[5].value is OutputBatches
            &&& i >= 3 ==> figure(all[i].value) == Some(0usize)
            &&& all[i].metric_category == Some(
                if i < 3 {
                    MetricCategory::Timing
                } else if i == 4 {
                    MetricCategory::Bytes
                } else {
                    MetricCategory::Rows
                },
            )
            &&& all[i].metric_type == if i == 0 || i == 5 {
                MetricType::Dev
            } else {
                MetricType::Summary
            }
        }),
{
}

/// A metric is registered with all that its builder was given, and one of a
/// partition and a category under these.
pub proof fn a_metric_is_built_as_asked_for<M>(
    b: MetricBuilder,
    value: Measure<M>,
    category: MetricCategory,
    partition: usize,
)
    ensures
        b.built(value).value == value,
        b.built(value).partition == b.partition,
        b.built(value).metric_type == b.metric_type,
        b.built(value).metric_category == b.metric_category,
        b.built(value).labels.len() == b.labels@.len(),
        forall|i: int| 0 <= i < b.labels@.len() ==> #[trigger] b.built(value).labels[i] == b.labels@[i]@,
        b.built_for(value, category, partition).value == value,
        b.built_for(value, category, partition).partition == Some(partition),
        b.built_for(value, category, partition).metric_category == Some(category),
        b.built_for(value, category, partition).metric_type == b.metric_type,
        b.built_for(value, category, partition).labels == b.built(value).labels,
{
}

/// What is counted is read back, whether the counter is registered with a set or
/// stands alone, and so is a moment that is recorded.
pub proof fn what_a_cell_counts_is_read_back<M>(
    c: CountCell,
    t: TimestampCell,
    metrics: Seq<MetricModel<M>>,
    n: usize,
    now: UtcTime,
)
    requires
        c.wf(metrics),
        t.wf(metrics),
    ensures
        c.cell_after(n).reading(c.metrics_after(metrics, n)) == (c.reading(metrics) + n) % range(),
        t.cell_after(now).moment(t.metrics_after(metrics, now)) == Some(now),
        c.cell_after(n) is Detached <==> c is Detached,
        t.cell_after(now) is Detached <==> t is Detached,
        c is Detached ==> c.metrics_after(metrics, n) == metrics,
        t is Detached ==> t.metrics_after(metrics, now) == metrics,
{
    vstd::arithmetic::div_mod::lemma_mod_bound(c.reading(metrics) + n, range());
    if let CountCell::Registered(handle) = c {
        what_a_handle_counts_shows_in_the_set(handle, metrics, n);
    }
}

proof fn every_name_is_there<C: CustomMetricValue>(
    metrics: Seq<MetricModel<C::Model>>,
    i: int,
) -> (k: int)
    requires
        0 <= i < metrics.len(),
    ensures
        0 <= k < metrics_set::by_name::<C>(metrics).len(),
        value::measure_name(metrics_set::by_name::<C>(metrics)[k].value) == value::measure_name(
            metrics[i].value,
        ),
    decreases metrics.len(),
{
    let before = metrics_set::by_name::<C>(metrics.drop_last());
    let last = metrics.last();
    let name = value::measure_name(last.value);
    let all = metrics_set::by_name::<C>(metrics);
    position_is_exact(before, name);
    names_stay::<C>(last.value, last.value);
    names_stay::<C>(value::emptied::<C>(last.value), last.value);
    match metrics_set::position_of_name(before, name) {
        Some(at) => {
            names_stay::<C>(before[at].value, last.value);
            if i < metrics.len() - 1 {
                assert(metrics.drop_last()[i] == metrics[i]);
                every_name_is_there::<C>(metrics.drop_last(), i)
            } else {
                at
            }
        },
        None => {
            if i < metrics.len() - 1 {
                assert(metrics.drop_last()[i] == metrics[i]);
                every_name_is_there::<C>(metrics.drop_last(), i)
            } else {
                before.len() as int
            }
        },
    }
}

/// Metrics taken together by name keep the type and the category of the first
/// metric of their name.
pub proof fn the_first_metric_of_a_name_decides<C: CustomMetricValue>(
    metrics: Seq<MetricModel<C::Model>>,
    k: int,
) -> (i: int)
    requires
        0 <= k < metrics_set::by_name::<C>(metrics).len(),
    ensures
        ({
            let together = metrics_set::by_name::<C>(metrics)[k];
            let name = value::measure_name(together.value);
            &&& 0 <= i < metrics.len()
            &&& value::measure_name(metrics[i].value) == name
            &&& forall|j: int|
                0 <= j < i ==> value::measure_name((#[trigger] metrics[j]).value) != name
            &&& together.metric_type == metrics[i].metric_type
            &&& together.metric_category == metrics[i].metric_category
        }),
    decreases metrics.len(),
{
    let fewer = metrics.drop_last();
    let before = metrics_set::by_name::<C>(fewer);
    let last = metrics.last();
    let name = value::measure_name(last.value);
    let all = metrics_set::by_name::<C>(metrics);
    position_is_exact(before, name);
    names_stay::<C>(last.value, last.value);
    names_stay::<C>(value::emptied::<C>(last.value), last.value);
    if k < before.len() {
        names_stay::<C>(before[k].value, last.value);
        let i = the_first_metric_of_a_name_decides::<C>(fewer, k);
        assert(value::measure_name(all[k].value) == value::measure_name(before[k].value));
        assert forall|j: int| 0 <= j < i implies value::measure_name((#[trigger] metrics[j]).value)
            != value::measure_name(all[k].value) by {
            assert(fewer[j] == metrics[j]);
        }
        assert(fewer[i] == metrics[i]);
        i
    } else {
        assert(k == before.len());
        assert forall|j: int| 0 <= j < metrics.len() - 1 implies value::measure_name(
            (#[trigger] metrics[j]).value,
        ) != name by {
            assert(fewer[j] == metrics[j]);
            let at = every_name_is_there::<C>(fewer, j);
            assert(value::measure_name(before[at].value) != name);
        }
        metrics.len() - 1
    }
}

/// Times, moments, pruning figures and ratios count as equal exactly where all that
/// is compared of them is the same.
pub proof fn equal_metrics_hold_the_same<C: CustomMetricValue>(
    name: Seq<char>,
    other: Seq<char>,
    s: Timestamp,
    t: Timestamp,
    v: Time,
    w: Time,
    p: PruningMetrics,
    q: PruningMetrics,
    x: RatioMetrics,
    y: RatioMetrics,
)
    ensures
        value::measures_equal::<C>(Measure::StartTimestamp(s), Measure::StartTimestamp(t)) <==> s
            == t,
        value::measures_equal::<C>(Measure::EndTimestamp(s), Measure::EndTimestamp(t)) <==> s == t,
        !value::measures_equal::<C>(Measure::StartTimestamp(s), Measure::EndTimestamp(t)),
        value::measures_equal::<C>(Measure::ElapsedCompute(v), Measure::ElapsedCompute(w)) <==> v
            == w,
        value::measures_equal::<C>(
            Measure::Time { name, time: v },
            Measure::Time { name: other, time: w },
        ) <==> name == other && v == w,
        value::measures_equal::<C>(
            Measure::PruningMetrics { name, pruning_metrics: p },
            Measure::PruningMetrics { name: other, pruning_metrics: q },
        ) <==> name == other && p.pruned == q.pruned && p.matched == q.matched,
        value::measures_equal::<C>(
            Measure::Ratio { name, ratio_metrics: x },
            Measure::Ratio { name: other, ratio_metrics: y },
        ) <==> name == other && x.part == y.part && x.total == y.total && x.display_raw_values
            == y.display_raw_values,
{
}

/// As a number, a moment is its place on the time line, wrapping around, and zero
/// where it is not known or out of range.
pub proof fn a_moment_is_its_place_as_a_number<C: CustomMetricValue>(t: Timestamp)
    ensures
        ({
            let start = value::measure_number::<C>(Measure::StartTimestamp(t));
            let end = value::measure_number::<C>(Measure::EndTimestamp(t));
            &&& t.timestamp is None ==> start == 0 && end == 0
            &&& t.timestamp matches Some(m) ==> (if i64::MIN <= place(m) <= i64::MAX {
                start == place(m) % range() && end == place(m) % range()
            } else {
                start == 0 && end == 0
            })
        }),
{
}

/// The skew is shown as a ratio to the whole, and as none where it is undefined.
pub proof fn a_skew_is_a_ratio_to_the_whole<M>(points: usize)
    ensures
        skew::skew_metric::<M>(Some(points)).value matches Measure::Ratio { name, ratio_metrics }
            && name == "output_rows_skew"@ && ratio_metrics.part == points && ratio_metrics.total
            == 10_000 && !ratio_metrics.display_raw_values,
        skew::skew_metric::<M>(None).value matches Measure::Ratio { ratio_metrics, .. }
            && ratio_metrics.part == 0 && ratio_metrics.total == 0,
        skew::skew_metric::<M>(Some(points)).partition is None,
        skew::skew_metric::<M>(Some(points)).labels.len() == 0,
{
}

/// A metric is filtered under its own category, and under that of the
/// uncategorized ones exactly where it has none or that one.
pub proof fn a_metric_is_filtered_under_its_category<M>(m: MetricModel<M>, c: MetricCategory)
    ensures
        metrics_set::filter_category(m) == c <==> m.metric_category == Some(c) || (
        m.metric_category is None && c == MetricCategory::Uncategorized),
{
}

} // verus!
