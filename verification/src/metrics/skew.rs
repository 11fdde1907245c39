//! How unevenly the output rows of an operator are spread over its partitions.
use vstd::prelude::*;
use crate::metrics::baseline::{output_rows_by_partition, BaselineMetrics};
use crate::metrics::cells::{MetricType, RatioMergeStrategy, RatioMetrics};
use crate::metrics::metrics_set::{Metric, MetricModel, MetricsSet};
use crate::metrics::value::{CustomMetricValue, Measure, MetricValue};
use crate::metrics::{baseline, metrics_set};
use crate::text::owned;

verus! {

/// What stands for a whole: a hundred percent in hundredths of a percent.
pub const WHOLE: usize = 10_000;

/// Whether no more than one partition reports rows.
#[verifier::opaque]
pub open spec fn single_partition<M>(metrics: Seq<MetricModel<M>>) -> bool {
    forall|p: usize, q: usize| #[trigger]
        baseline::reports_rows(metrics, p) && #[trigger] baseline::reports_rows(metrics, q) ==> p
            == q
}

/// Whether every partition reports zero rows.
#[verifier::opaque]
pub open spec fn no_rows<M>(metrics: Seq<MetricModel<M>>) -> bool {
    forall|p: usize| #[trigger]
        baseline::reports_rows(metrics, p) ==> baseline::total_rows(metrics, p) == 0
}

/// Whether one partition has rows, and all others that report have none.
#[verifier::opaque]
pub open spec fn one_has_all<M>(metrics: Seq<MetricModel<M>>) -> bool {
    exists|p: usize| #[trigger]
        baseline::reports_rows(metrics, p) && baseline::total_rows(metrics, p) > 0 && forall|
            q: usize,
        | #[trigger]
            baseline::reports_rows(metrics, q) && q != p ==> baseline::total_rows(metrics, q) == 0
}

/// Whether all partitions that report have the same number of rows.
#[verifier::opaque]
pub open spec fn evenly_spread<M>(metrics: Seq<MetricModel<M>>) -> bool {
    forall|p: usize, q: usize| #[trigger]
        baseline::reports_rows(metrics, p) && #[trigger] baseline::reports_rows(metrics, q)
            ==> baseline::total_rows(metrics, p) == baseline::total_rows(metrics, q)
}

/// How unevenly the rows are spread, in hundredths of a percent: not at all for a
/// single partition or an even spread, undefined where there are no rows, wholly
/// where one partition has them all, and as scored, up to the whole, otherwise.
pub open spec fn skew_points<M>(metrics: Seq<MetricModel<M>>, score: usize) -> Option<usize> {
    if single_partition(metrics) {
        Some(0)
    } else if no_rows(metrics) {
        None
    } else if one_has_all(metrics) {
        Some(WHOLE)
    } else if evenly_spread(metrics) {
        Some(0)
    } else if score < WHOLE {
        Some(score)
    } else {
        Some(WHOLE)
    }
}

proof fn total_without<M>(metrics: Seq<MetricModel<M>>, i: int, partition: usize)
    requires
        0 <= i < metrics.len(),
    ensures
        baseline::total_rows(metrics, partition) == baseline::total_rows(
            metrics.remove(i),
            partition,
        ) + if baseline::counts_rows_of(metrics[i], partition) {
            metrics[i].value->OutputRows_0.value as int
        } else {
            0
        },
    decreases metrics.len(),
{
    let rest = metrics.remove(i);
    if i == metrics.len() - 1 {
        assert(rest =~= metrics.drop_last());
    } else {
        total_without(metrics.drop_last(), i, partition);
        assert(rest.last() == metrics.last());
        assert(rest.drop_last() =~= metrics.drop_last().remove(i));
        assert(metrics.drop_last()[i] == metrics[i]);
    }
}

proof fn totals_of_a_permutation<M>(
    a: Seq<MetricModel<M>>,
    b: Seq<MetricModel<M>>,
    partition: usize,
)
    requires
        a.to_multiset() == b.to_multiset(),
    ensures
        baseline::total_rows(a, partition) == baseline::total_rows(b, partition),
    decreases a.len(),
{
    a.to_multiset_ensures();
    b.to_multiset_ensures();
    assert(a.len() == b.len());
    if a.len() > 0 {
        let n = a.len() - 1;
        let m = a[n];
        assert(a.contains(m));
        assert(b.to_multiset().count(m) > 0);
        assert(b.contains(m));
        let i = choose|i: int| 0 <= i < b.len() && b[i] == m;
        assert(a.remove(n).to_multiset() =~= b.remove(i).to_multiset());
        totals_of_a_permutation(a.remove(n), b.remove(i), partition);
        total_without(a, n, partition);
        total_without(b, i, partition);
    }
}

proof fn reports_of_a_permutation<M>(
    a: Seq<MetricModel<M>>,
    b: Seq<MetricModel<M>>,
    partition: usize,
)
    requires
        a.to_multiset() == b.to_multiset(),
        baseline::reports_rows(a, partition),
    ensures
        baseline::reports_rows(b, partition),
{
    a.to_multiset_ensures();
    b.to_multiset_ensures();
    let i = choose|i: int|
        0 <= i < a.len() && baseline::counts_rows_of(#[trigger] a[i], partition);
    assert(a.contains(a[i]));
    assert(b.to_multiset().count(a[i]) > 0);
    assert(b.contains(a[i]));
    let j = choose|j: int| 0 <= j < b.len() && b[j] == a[i];
    assert(baseline::counts_rows_of(b[j], partition));
}

/// The order in which metrics were recorded does not matter for the skew.
pub proof fn skew_is_independent_of_the_order<M>(
    a: Seq<MetricModel<M>>,
    b: Seq<MetricModel<M>>,
    score: usize,
)
    requires
        a.to_multiset() == b.to_multiset(),
    ensures
        skew_points(a, score) == skew_points(b, score),
        (exists|p: usize| baseline::reports_rows(a, p)) <==> (exists|p: usize|
            baseline::reports_rows(b, p)),
{
    assert forall|p: usize| true implies #[trigger] baseline::reports_rows(a, p)
        == baseline::reports_rows(b, p) && baseline::total_rows(a, p) == baseline::total_rows(
        b,
        p,
    ) by {
        totals_of_a_permutation(a, b, p);
        if baseline::reports_rows(a, p) {
            reports_of_a_permutation(a, b, p);
        }
        if baseline::reports_rows(b, p) {
            reports_of_a_permutation(b, a, p);
        }
    }
    assert forall|p: usize| true implies #[trigger] baseline::reports_rows(b, p)
        == baseline::reports_rows(a, p) by {}
    reveal(single_partition);
    reveal(no_rows);
    reveal(one_has_all);
    reveal(evenly_spread);
    assert(single_partition(a) == single_partition(b));
    assert(no_rows(a) == no_rows(b));
    assert(evenly_spread(a) == evenly_spread(b));
    if one_has_all(a) {
        let p = choose|p: usize| #[trigger]
            baseline::reports_rows(a, p) && baseline::total_rows(a, p) > 0 && forall|q: usize| #[trigger]
                baseline::reports_rows(a, q) && q != p ==> baseline::total_rows(a, q) == 0;
        assert(baseline::reports_rows(b, p));
        assert(one_has_all(b));
    }
    if one_has_all(b) {
        let p = choose|p: usize| #[trigger]
            baseline::reports_rows(b, p) && baseline::total_rows(b, p) > 0 && forall|q: usize| #[trigger]
                baseline::reports_rows(b, q) && q != p ==> baseline::total_rows(b, q) == 0;
        assert(baseline::reports_rows(a, p));
        assert(one_has_all(a));
    }
}

/// The first of `totals` that is not zero, from `from` on.
fn busy_from(totals: &Vec<(usize, u128)>, from: usize) -> (r: Option<usize>)
    requires
        from <= totals@.len(),
    ensures
        match r {
            Some(k) => from <= k < totals@.len() && totals@[k as int].1 > 0 && forall|j: int|
                from <= j < k ==> (#[trigger] totals@[j]).1 == 0,
            None => forall|j: int| from <= j < totals@.len() ==> (#[trigger] totals@[j]).1 == 0,
        },
{
    let mut k: usize = from;
    while k < totals.len()
        invariant
            from <= k <= totals@.len(),
            forall|j: int| from <= j < k ==> (#[trigger] totals@[j]).1 == 0,
        decreases totals.len() - k,
    {
        if totals[k].1 > 0 {
            return Some(k);
        }
        k += 1;
    }
    None
}

fn all_equal(totals: &Vec<(usize, u128)>) -> (r: bool)
    ensures
        r == all_same(totals@),
{
    let mut i: usize = 1;
    while i < totals.len()
        invariant
            1 <= i,
            totals@.len() > 0 ==> i <= totals@.len(),
            forall|j: int| 0 <= j < i && j < totals@.len() ==> (#[trigger] totals@[j]).1 == totals@[0].1,
        decreases totals.len() - i,
    {
        if totals[i].1 != totals[0].1 {
            assert(totals@[i as int].1 != totals@[0].1);
            return false;
        }
        i += 1;
    }
    true
}

/// Whether one of `totals` alone is not zero.
spec fn one_busy(totals: Seq<(usize, u128)>) -> bool {
    exists|k: int|
        0 <= k < totals.len() && (#[trigger] totals[k]).1 > 0 && forall|j: int|
            0 <= j < totals.len() && j != k ==> (#[trigger] totals[j]).1 == 0
}

/// Whether all of `totals` are zero.
spec fn all_zero(totals: Seq<(usize, u128)>) -> bool {
    forall|j: int| 0 <= j < totals.len() ==> (#[trigger] totals[j]).1 == 0
}

/// Whether all of `totals` are equal.
spec fn all_same(totals: Seq<(usize, u128)>) -> bool {
    forall|j: int, k: int|
        0 <= j < totals.len() && 0 <= k < totals.len() ==> (#[trigger] totals[j]).1 == (
        #[trigger] totals[k]).1
}

/// [`skew_points`], over the totals of the partitions.
spec fn points_of_totals(totals: Seq<(usize, u128)>, score: usize) -> Option<usize> {
    if totals.len() == 1 {
        Some(0)
    } else if all_zero(totals) {
        None
    } else if one_busy(totals) {
        Some(WHOLE)
    } else if all_same(totals) {
        Some(0)
    } else if score < WHOLE {
        Some(score)
    } else {
        Some(WHOLE)
    }
}

/// How unevenly rows are spread, given the rows of each partition that reports
/// any, and the score for where it is needed.
fn points_of(totals: &Vec<(usize, u128)>, score: usize) -> (r: Option<usize>)
    requires
        totals@.len() > 0,
    ensures
        r == points_of_totals(totals@, score),
{
    if totals.len() == 1 {
        return Some(0);
    }
    match busy_from(totals, 0) {
        None => None,
        Some(first) => {
            assert(!all_zero(totals@));
            match busy_from(totals, first + 1) {
                None => {
                    assert(totals@[first as int].1 > 0);
                    assert(one_busy(totals@));
                    return Some(WHOLE);
                },
                Some(second) => {
                    assert(totals@[first as int].1 > 0 && totals@[second as int].1 > 0);
                    assert(!one_busy(totals@));
                },
            }
            if all_equal(totals) {
                Some(0)
            } else if score < WHOLE {
                Some(score)
            } else {
                Some(WHOLE)
            }
        },
    }
}

proof fn single_total<M>(totals: Seq<(usize, u128)>, metrics: Seq<MetricModel<M>>)
    requires
        totals.len() > 0,
        baseline::lists_totals(totals, metrics),
    ensures
        totals.len() == 1 <==> single_partition(metrics),
{
    reveal(baseline::lists_totals);
    reveal(single_partition);
    if totals.len() > 1 {
        assert(totals[0].0 < totals[1].0);
        assert(baseline::reports_rows(metrics, totals[0].0));
        assert(baseline::reports_rows(metrics, totals[1].0));
    }
}

proof fn zero_totals<M>(totals: Seq<(usize, u128)>, metrics: Seq<MetricModel<M>>)
    requires
        baseline::lists_totals(totals, metrics),
    ensures
        all_zero(totals) <==> no_rows(metrics),
{
    reveal(baseline::lists_totals);
    reveal(no_rows);
    if all_zero(totals) {
        assert forall|p: usize| #[trigger]
            baseline::reports_rows(metrics, p) implies baseline::total_rows(metrics, p) == 0 by {
            let i = choose|i: int| 0 <= i < totals.len() && (#[trigger] totals[i]).0 == p;
            assert(totals[i].1 == 0);
        }
    }
    if no_rows(metrics) {
        assert forall|j: int| 0 <= j < totals.len() implies (#[trigger] totals[j]).1 == 0 by {
            assert(baseline::reports_rows(metrics, totals[j].0));
        }
    }
}

proof fn busy_total<M>(totals: Seq<(usize, u128)>, metrics: Seq<MetricModel<M>>)
    requires
        baseline::lists_totals(totals, metrics),
    ensures
        one_busy(totals) <==> one_has_all(metrics),
{
    reveal(baseline::lists_totals);
    reveal(one_has_all);
    if one_busy(totals) {
        let k = choose|k: int|
            0 <= k < totals.len() && (#[trigger] totals[k]).1 > 0 && forall|j: int|
                0 <= j < totals.len() && j != k ==> (#[trigger] totals[j]).1 == 0;
        let p = totals[k].0;
        assert(baseline::reports_rows(metrics, p));
        assert forall|q: usize| #[trigger]
            baseline::reports_rows(metrics, q) && q != p implies baseline::total_rows(metrics, q)
            == 0 by {
            let i = choose|i: int| 0 <= i < totals.len() && (#[trigger] totals[i]).0 == q;
            assert(totals[i].1 == 0);
        }
    }
    if one_has_all(metrics) {
        let p = choose|p: usize| #[trigger]
            baseline::reports_rows(metrics, p) && baseline::total_rows(metrics, p) > 0 && forall|
                q: usize,
            | #[trigger]
                baseline::reports_rows(metrics, q) && q != p ==> baseline::total_rows(metrics, q)
                    == 0;
        let k = choose|k: int| 0 <= k < totals.len() && (#[trigger] totals[k]).0 == p;
        assert(totals[k].1 > 0);
        assert forall|j: int| 0 <= j < totals.len() && j != k implies (#[trigger] totals[j]).1
            == 0 by {
            assert(baseline::reports_rows(metrics, totals[j].0));
            if j < k {
                assert(totals[j].0 < totals[k].0);
            } else {
                assert(totals[k].0 < totals[j].0);
            }
        }
    }
}

proof fn same_totals<M>(totals: Seq<(usize, u128)>, metrics: Seq<MetricModel<M>>)
    requires
        baseline::lists_totals(totals, metrics),
    ensures
        all_same(totals) <==> evenly_spread(metrics),
{
    reveal(baseline::lists_totals);
    reveal(evenly_spread);
    if all_same(totals) {
        assert forall|p: usize, q: usize| #[trigger]
            baseline::reports_rows(metrics, p) && #[trigger] baseline::reports_rows(
                metrics,
                q,
            ) implies baseline::total_rows(metrics, p) == baseline::total_rows(metrics, q) by {
            let i = choose|i: int| 0 <= i < totals.len() && (#[trigger] totals[i]).0 == p;
            let j = choose|j: int| 0 <= j < totals.len() && (#[trigger] totals[j]).0 == q;
            assert(totals[i].1 == totals[j].1);
        }
    }
    if evenly_spread(metrics) {
        assert forall|j: int, k: int|
            0 <= j < totals.len() && 0 <= k < totals.len() implies (#[trigger] totals[j]).1 == (
        #[trigger] totals[k]).1 by {
            assert(baseline::reports_rows(metrics, totals[j].0));
            assert(baseline::reports_rows(metrics, totals[k].0));
        }
    }
}

proof fn totals_exist_exactly<M>(totals: Seq<(usize, u128)>, metrics: Seq<MetricModel<M>>)
    requires
        baseline::lists_totals(totals, metrics),
    ensures
        totals.len() > 0 <==> exists|p: usize| baseline::reports_rows(metrics, p),
{
    reveal(baseline::lists_totals);
    if totals.len() > 0 {
        assert(baseline::reports_rows(metrics, totals[0].0));
    }
}

proof fn points_agree<M>(totals: Seq<(usize, u128)>, metrics: Seq<MetricModel<M>>, score: usize)
    requires
        totals.len() > 0,
        baseline::lists_totals(totals, metrics),
    ensures
        points_of_totals(totals, score) == skew_points(metrics, score),
{
    single_total(totals, metrics);
    zero_totals(totals, metrics);
    busy_total(totals, metrics);
    same_totals(totals, metrics);
}

/// The metric of a skew in hundredths of a percent; empty where there is none.
pub open spec fn skew_metric<M>(points: Option<usize>) -> MetricModel<M> {
    MetricModel {
        value: Measure::Ratio {
            name: "output_rows_skew"@,
            ratio_metrics: RatioMetrics {
                part: match points {
                    Some(part) => part,
                    None => 0,
                },
                total: match points {
                    Some(_) => WHOLE,
                    None => 0,
                },
                merge_strategy: RatioMergeStrategy::AddPartAddTotal,
                display_raw_values: false,
            },
        },
        labels: seq![],
        partition: None,
        metric_type: MetricType::Dev,
        metric_category: None,
    }
}

impl BaselineMetrics {
    /// The metric of how unevenly the output rows are spread over the
    /// partitions: none where no partition reports rows. The score, in hundredths
    /// of a percent, is that of a spread that is neither even nor in one place; it
    /// counts in no other case.
    pub fn output_rows_skew_metric<C: CustomMetricValue>(
        metrics: &MetricsSet<C>,
        score: usize,
    ) -> (r: Option<Metric<C>>)
        ensures
            r is Some <==> exists|p: usize| baseline::reports_rows(metrics@, p),
            r matches Some(m) ==> m@ == skew_metric::<C::Model>(skew_points(metrics@, score)),
    {
        let output_rows = output_rows_by_partition(metrics);
        if output_rows.is_empty() {
            proof {
                totals_exist_exactly(output_rows@, metrics@);
            }
            return None;
        }
        proof {
            totals_exist_exactly(output_rows@, metrics@);
            points_agree(output_rows@, metrics@, score);
        }
        let mut ratio_metrics: RatioMetrics = RatioMetrics::new().with_display_raw_values(false);
        if let Some(part) = points_of(&output_rows, score) {
            ratio_metrics.set_part(part);
            ratio_metrics.set_total(WHOLE);
        }
        let metric: Metric<C> = Metric::new(
            MetricValue::Ratio { name: owned("output_rows_skew"), ratio_metrics },
            None,
        ).with_type(MetricType::Dev);
        assert(metrics_set::labels_of(metric.labels@) == Seq::<(Seq<char>, Seq<char>)>::empty());
        Some(metric)
    }
}

} // verus!
