//! What plans are made of, and what showing them shows.
use vstd::prelude::*;
use std::sync::Arc;
use crate::data_source_exec;
use crate::display::DisplayAs;
use crate::display::DisplayFormatType;
use crate::error::Fault;
use crate::metrics::metric_laws;
use crate::metrics::metrics_set;
use crate::metrics::metrics_set::MetricModel;
use crate::metrics::value;
use crate::metrics::value::{Measure, NoCustomMetric};
use crate::order_laws;
use crate::partitioning::PartitioningModel;
use crate::plan;
use crate::plan::ExecutionPlan;
use crate::plan_display;
use crate::plan_display::{ShowMetrics, ShowModel};
use crate::plan_visitor;
use crate::scan_exec;
use crate::schema;
use crate::schema::FieldModel;
use crate::sort_exec;
use crate::text;
use crate::text_laws;

verus! {

/// The input of an operator with one input.
pub open spec fn input_of(plan: ExecutionPlan) -> Option<Arc<ExecutionPlan>> {
    match plan {
        ExecutionPlan::Aggregate(op) => Some(op.input),
        ExecutionPlan::Filter(op) => Some(op.input),
        ExecutionPlan::GlobalLimit(op) => Some(op.input),
        ExecutionPlan::Limit(op) => Some(op.input),
        ExecutionPlan::LocalLimit(op) => Some(op.input),
        ExecutionPlan::Projection(op) => Some(op.input),
        ExecutionPlan::Selection(op) => Some(op.input),
        ExecutionPlan::ShuffleWriter(op) => Some(op.input),
        ExecutionPlan::Sort(op) => Some(op.input),
        _ => None,
    }
}

/// The children of an operator are its inputs: one, or the left and then the
/// right one of a join, or none where it reads or holds its rows itself.
pub proof fn children_are_the_inputs(plan: ExecutionPlan)
    ensures
        input_of(plan) matches Some(input) ==> plan.spec_children().len() == 1
            && plan.spec_children()[0] == input,
        plan matches ExecutionPlan::HashJoin(join) ==> plan.spec_children().len() == 2
            && plan.spec_children()[0] == join.left && plan.spec_children()[1] == join.right,
        plan is DataSource || plan is Memory || plan is Scan || plan is ShuffleReader
            ==> plan.spec_children().len() == 0,
        plan matches ExecutionPlan::Extension(op) ==> plan.spec_children() == op.children@,
        plan.arity() == plan.spec_children().len(),
{
}

/// Operators that keep, drop, order or spread rows hand on the schema of their
/// input; the others have a schema of their own.
pub proof fn rows_that_pass_through_keep_their_schema(plan: ExecutionPlan)
    ensures
        plan is Filter || plan is Selection || plan is GlobalLimit || plan is Limit
            || plan is LocalLimit || plan is Sort || plan is ShuffleWriter ==> plan.spec_schema()
            == input_of(plan).unwrap().spec_schema(),
        plan matches ExecutionPlan::Projection(op) ==> plan.spec_schema() == op.schema@,
        plan matches ExecutionPlan::Aggregate(op) ==> plan.spec_schema() == op.schema@,
        plan matches ExecutionPlan::HashJoin(op) ==> plan.spec_schema() == op.join_schema@,
        plan matches ExecutionPlan::DataSource(op) ==> plan.spec_schema() == op.schema@,
        plan matches ExecutionPlan::Memory(op) ==> plan.spec_schema() == op.schema@,
        plan matches ExecutionPlan::Scan(op) ==> plan.spec_schema() == op.schema@,
        plan matches ExecutionPlan::ShuffleReader(op) ==> plan.spec_schema() == op.shuffle_schema@,
        plan matches ExecutionPlan::Extension(op) ==> plan.spec_schema() == op.schema@,
{
}

/// However rows are spread, the number of partitions is the one that was given.
pub proof fn a_partitioning_has_as_many_partitions_as_it_says(p: PartitioningModel)
    ensures
        p matches PartitioningModel::RoundRobinBatch(n) ==> p.count() == n,
        p matches PartitioningModel::Hash(_, n) ==> p.count() == n,
        p matches PartitioningModel::UnknownPartitioning(n) ==> p.count() == n,
{
}

/// A name is looked up as the first field that has it.
pub proof fn a_name_is_that_of_the_first_field_with_it(fields: Seq<FieldModel>, name: Seq<char>)
    ensures
        match schema::field_position(fields, name) {
            Some(i) => 0 <= i < fields.len() && fields[i].name == name && forall|k: int|
                0 <= k < i ==> (#[trigger] fields[k]).name != name,
            None => forall|k: int| 0 <= k < fields.len() ==> (#[trigger] fields[k]).name != name,
        },
    decreases fields.len(),
{
    if fields.len() > 0 && fields[0].name != name {
        let rest = fields.drop_first();
        a_name_is_that_of_the_first_field_with_it(rest, name);
        match schema::field_position(rest, name) {
            Some(i) => {
                assert forall|k: int| 0 <= k < i + 1 implies (#[trigger] fields[k]).name != name by {
                    if k > 0 {
                        assert(rest[k - 1] == fields[k]);
                    }
                }
            },
            None => {
                assert forall|k: int| 0 <= k < fields.len() implies (#[trigger] fields[k]).name
                    != name by {
                    if k > 0 {
                        assert(rest[k - 1] == fields[k]);
                    }
                }
            },
        }
    }
}

/// A scan has the fields with the names asked for, in the order of the names, and
/// all fields where no name is asked for; it is refused for the first name that
/// no field has.
pub proof fn a_scan_has_the_fields_asked_for(source: Seq<FieldModel>, names: Seq<Seq<char>>)
    ensures
        names.len() == 0 ==> scan_exec::scanned_schema(source, names) == source,
        names.len() > 0 ==> scan_exec::scanned_schema(source, names).len() == names.len(),
        match scan_exec::first_unknown(source, names) {
            None => forall|i: int|
                0 <= i < names.len() ==> source.contains(
                    scan_exec::scanned_schema(source, names)[i],
                ) && scan_exec::scanned_schema(source, names)[i].name == #[trigger] names[i],
            Some(bad) => names.contains(bad) && forall|k: int|
                0 <= k < source.len() ==> (#[trigger] source[k]).name != bad,
        },
{
    known_names(source, names);
    if scan_exec::first_unknown(source, names) is None {
        assert forall|i: int| 0 <= i < names.len() implies source.contains(
            scan_exec::scanned_schema(source, names)[i],
        ) && scan_exec::scanned_schema(source, names)[i].name == #[trigger] names[i] by {
            a_name_is_that_of_the_first_field_with_it(source, names[i]);
            let at = schema::field_position(source, names[i]).unwrap();
            assert(source[at] == scan_exec::scanned_schema(source, names)[i]);
        }
    }
}

proof fn known_names(source: Seq<FieldModel>, names: Seq<Seq<char>>)
    ensures
        match scan_exec::first_unknown(source, names) {
            None => forall|i: int|
                0 <= i < names.len() ==> schema::field_position(source, #[trigger] names[i]) is Some,
            Some(bad) => names.contains(bad) && forall|k: int|
                0 <= k < source.len() ==> (#[trigger] source[k]).name != bad,
        },
    decreases names.len(),
{
    if names.len() > 0 {
        a_name_is_that_of_the_first_field_with_it(source, names[0]);
        let rest = names.drop_first();
        known_names(source, rest);
        if schema::field_position(source, names[0]) is None {
            assert(names[0] == names[0]);
            assert(names.contains(names[0]));
        } else {
            match scan_exec::first_unknown(source, rest) {
                None => {
                    assert forall|i: int| 0 <= i < names.len() implies schema::field_position(
                        source,
                        #[trigger] names[i],
                    ) is Some by {
                        if i > 0 {
                            assert(rest[i - 1] == names[i]);
                        }
                    }
                },
                Some(bad) => {
                    let i = choose|i: int| 0 <= i < rest.len() && rest[i] == bad;
                    assert(names[i + 1] == bad);
                },
            }
        }
    }
}

/// The operators of a plan from the top down, each before those below it, with
/// how deep it stands.
pub open spec fn top_down(plan: ExecutionPlan, depth: nat) -> Seq<(nat, ExecutionPlan)>
    decreases plan, plan.spec_children().len() + 1,
{
    seq![(depth, plan)] + top_down_from(plan, depth + 1, 0)
}

/// The operators below the children from `i` on.
pub open spec fn top_down_from(plan: ExecutionPlan, depth: nat, i: nat) -> Seq<(nat, ExecutionPlan)>
    decreases plan, plan.spec_children().len() - i,
{
    if i < plan.spec_children().len() {
        proof {
            plan_visitor::child_is_smaller(plan, i as int);
        }
        top_down(*plan.spec_children()[i as int], depth) + top_down_from(plan, depth, i + 1)
    } else {
        seq![]
    }
}

/// A line: two spaces per level, and what is shown of the operator.
pub open spec fn shown_line(t: DisplayFormatType, o: ShowModel) -> spec_fn(
    (nat, ExecutionPlan),
) -> Seq<char> {
    |at: (nat, ExecutionPlan)|
        Seq::new(2 * at.0, |i: int| ' ') + plan_display::line_text(at.1, t, o) + seq!['\n']
}

proof fn spaces(depth: nat)
    ensures
        text::repeat("  "@, depth) == Seq::new(2 * depth, |i: int| ' '),
    decreases depth,
{
    reveal_strlit("  ");
    if depth > 0 {
        spaces((depth - 1) as nat);
        text_laws::copies_follow_each_other("  "@, (depth - 1) as nat, 1);
    }
    assert(text::repeat("  "@, depth) =~= Seq::new(2 * depth, |i: int| ' '));
}

proof fn mapped_sums(
    a: Seq<(nat, ExecutionPlan)>,
    b: Seq<(nat, ExecutionPlan)>,
    f: spec_fn((nat, ExecutionPlan)) -> Seq<char>,
)
    ensures
        (a + b).map_values(f).flatten() == a.map_values(f).flatten() + b.map_values(f).flatten(),
    decreases b.len(),
{
    if b.len() == 0 {
        assert(a + b =~= a);
        assert(b.map_values(f) =~= Seq::<Seq<char>>::empty());
        assert(a.map_values(f).flatten() + b.map_values(f).flatten() =~= a.map_values(f).flatten());
    } else {
        let c = b.drop_last();
        mapped_sums(a, c, f);
        assert(b.map_values(f) =~= c.map_values(f).push(f(b.last())));
        assert((a + b).map_values(f) =~= (a + c).map_values(f).push(f(b.last())));
        c.map_values(f).lemma_flatten_push(f(b.last()));
        (a + c).map_values(f).lemma_flatten_push(f(b.last()));
        assert((a + b).map_values(f).flatten() =~= a.map_values(f).flatten() + b.map_values(
            f,
        ).flatten());
    }
}

/// Showing a plan line by line shows one line per operator, from the top down,
/// each two spaces further in than the operator above it.
pub proof fn a_plan_is_shown_from_the_top_down(
    plan: ExecutionPlan,
    t: DisplayFormatType,
    o: ShowModel,
    depth: nat,
)
    ensures
        plan_display::indent_text(plan, t, o, depth) == top_down(plan, depth).map_values(
            shown_line(t, o),
        ).flatten(),
    decreases plan, plan.spec_children().len() + 1,
{
    let f = shown_line(t, o);
    reveal_strlit("\n");
    assert("\n"@ =~= seq!['\n']);
    spaces(depth);
    children_are_shown(plan, t, o, depth + 1, 0);
    let head = seq![(depth, plan)];
    mapped_sums(head, top_down_from(plan, depth + 1, 0), f);
    assert(head.map_values(f) =~= seq![f((depth, plan))]);
    head.map_values(f).lemma_flatten_one_element();
    assert(plan_display::indent_text(plan, t, o, depth) =~= top_down(plan, depth).map_values(
        f,
    ).flatten());
}

proof fn children_are_shown(
    plan: ExecutionPlan,
    t: DisplayFormatType,
    o: ShowModel,
    depth: nat,
    i: nat,
)
    ensures
        plan_display::indent_from(plan, t, o, depth, i) == top_down_from(plan, depth, i).map_values(
            shown_line(t, o),
        ).flatten(),
    decreases plan, plan.spec_children().len() - i,
{
    let f = shown_line(t, o);
    if i < plan.spec_children().len() {
        plan_visitor::child_is_smaller(plan, i as int);
        let child = *plan.spec_children()[i as int];
        a_plan_is_shown_from_the_top_down(child, t, o, depth);
        children_are_shown(plan, t, o, depth, i + 1);
        mapped_sums(top_down(child, depth), top_down_from(plan, depth, i + 1), f);
    } else {
        assert(top_down_from(plan, depth, i).map_values(f) =~= Seq::<Seq<char>>::empty());
        assert(plan_display::indent_from(plan, t, o, depth, i) =~= Seq::<char>::empty());
    }
}

/// A line begins with the text of the operator; without anything else asked for
/// it is that text, and the schema, where it is asked for, comes last.
pub proof fn a_line_begins_with_the_operator(
    plan: ExecutionPlan,
    t: DisplayFormatType,
    o: ShowModel,
)
    ensures
        plan_display::line_text(plan, t, o).len() >= plan.rendered(t).len(),
        plan_display::line_text(plan, t, o).take(plan.rendered(t).len() as int) == plan.rendered(t),
        o.show_metrics == ShowMetrics::Nothing && !o.show_statistics && !o.show_schema
            ==> plan_display::line_text(plan, t, o) == plan.rendered(t),
{
    assert(plan_display::line_text(plan, t, o).take(plan.rendered(t).len() as int)
        =~= plan.rendered(t));
    if o.show_metrics == ShowMetrics::Nothing && !o.show_statistics && !o.show_schema {
        assert(plan_display::line_text(plan, t, o) =~= plan.rendered(t));
    }
}

/// Showing every metric shows those, in their order, that are meant for a reader
/// who is asked for and that are of a category that is asked for, where any is.
pub proof fn every_metric_asked_for_is_shown(metrics: Seq<MetricModel<()>>, o: ShowModel)
    requires
        o.show_metrics == ShowMetrics::Full,
    ensures
        plan_display::shown_metrics(metrics, o) == metrics.filter(
            |m: MetricModel<()>| o.metric_types.contains(m.metric_type),
        ).filter(
            |m: MetricModel<()>|
                match (o.metric_categories, m.metric_category) {
                    (None, _) => true,
                    (Some(asked), Some(c)) => asked.contains(c),
                    (Some(asked), None) => asked.len() > 0,
                },
        ),
{
    let typed = |m: MetricModel<()>| o.metric_types.contains(m.metric_type);
    let kept = |m: MetricModel<()>|
        match (o.metric_categories, m.metric_category) {
            (None, _) => true,
            (Some(asked), Some(c)) => asked.contains(c),
            (Some(asked), None) => asked.len() > 0,
        };
    metric_laws::kept_metrics_are_filtered(metrics, typed);
    let staged = metrics.filter(typed);
    match o.metric_categories {
        Some(categories) => {
            let shown = |m: MetricModel<()>| metrics_set::shown_under(m, categories);
            metric_laws::kept_metrics_are_filtered(staged, shown);
            assert(shown =~= kept);
        },
        None => {
            all_are_kept(staged, kept);
        },
    }
}

proof fn all_are_kept(metrics: Seq<MetricModel<()>>, keep: spec_fn(MetricModel<()>) -> bool)
    requires
        forall|m: MetricModel<()>| #[trigger] keep(m),
    ensures
        metrics.filter(keep) == metrics,
    decreases metrics.len(),
{
    reveal(Seq::filter);
    if metrics.len() > 0 {
        all_are_kept(metrics.drop_last(), keep);
        assert(metrics.drop_last().push(metrics.last()) =~= metrics);
    }
}

/// Showing metrics taken together shows the metrics by name, sorted, without the
/// starts and the ends, of the categories asked for.
pub proof fn metrics_taken_together_are_shown_by_name(metrics: Seq<MetricModel<()>>, o: ShowModel)
    requires
        o.show_metrics == ShowMetrics::Aggregated,
    ensures
        plan_display::shown_metrics(metrics, o) == metrics_set::display_sorted(
            metrics_set::by_name::<NoCustomMetric>(
                metrics.filter(|m: MetricModel<()>| o.metric_types.contains(m.metric_type)),
            ),
        ).filter(
            |m: MetricModel<()>| !(m.value is StartTimestamp) && !(m.value is EndTimestamp),
        ).filter(
            |m: MetricModel<()>|
                match (o.metric_categories, m.metric_category) {
                    (None, _) => true,
                    (Some(asked), Some(c)) => asked.contains(c),
                    (Some(asked), None) => asked.len() > 0,
                },
        ),
{
    let typed = |m: MetricModel<()>| o.metric_types.contains(m.metric_type);
    let timeless = |m: MetricModel<()>| !(m.value is StartTimestamp || m.value is EndTimestamp);
    let untimed = |m: MetricModel<()>| !(m.value is StartTimestamp) && !(m.value is EndTimestamp);
    let kept = |m: MetricModel<()>|
        match (o.metric_categories, m.metric_category) {
            (None, _) => true,
            (Some(asked), Some(c)) => asked.contains(c),
            (Some(asked), None) => asked.len() > 0,
        };
    metric_laws::kept_metrics_are_filtered(metrics, typed);
    let sorted = metrics_set::display_sorted(
        metrics_set::by_name::<NoCustomMetric>(metrics.filter(typed)),
    );
    metric_laws::kept_metrics_are_filtered(sorted, timeless);
    assert(timeless =~= untimed);
    let staged = sorted.filter(untimed);
    match o.metric_categories {
        Some(categories) => {
            let shown = |m: MetricModel<()>| metrics_set::shown_under(m, categories);
            metric_laws::kept_metrics_are_filtered(staged, shown);
            assert(shown =~= kept);
        },
        None => {
            all_are_kept(staged, kept);
        },
    }
}

/// A metric is shown before another by the place of its kind, and within one
/// place by its name, as in a dictionary.
pub proof fn metrics_are_shown_by_kind_and_name<M>(a: Measure<M>, b: Measure<M>)
    ensures
        value::sort_key(a) < value::sort_key(b) ==> metrics_set::shown_before(a, b)
            && !metrics_set::shown_before(b, a),
        value::sort_key(a) == value::sort_key(b) ==> (metrics_set::shown_before(a, b)
            <==> order_laws::precedes(
            order_laws::code_points(value::measure_name(a)),
            order_laws::code_points(value::measure_name(b)),
        )),
{
    order_laws::texts_are_ordered_as_in_a_dictionary(
        value::measure_name(a),
        value::measure_name(b),
    );
}

/// A file yields the fields asked for, in the order in which they are asked for,
/// and all fields where none are asked for.
pub proof fn a_file_yields_the_fields_asked_for(
    full: Seq<FieldModel>,
    projection: Option<Vec<usize>>,
    i: int,
)
    requires
        0 <= i,
    ensures
        projection is None ==> data_source_exec::projected_schema(full, projection) == full,
        projection matches Some(indices) ==> data_source_exec::projected_schema(
            full,
            projection,
        ).len() == indices@.len() && (i < indices@.len() ==> data_source_exec::projected_schema(
            full,
            projection,
        )[i] == full[indices@[i] as int]),
        projection matches Some(indices) ==> (data_source_exec::valid_projection(full, projection)
            && i < indices@.len() ==> indices@[i] < full.len()),
{
}

/// Sorting within partitions keeps the partitions of the input; sorting all rows
/// leaves one.
pub proof fn sorting_keeps_the_partitions_where_asked(input: ExecutionPlan)
    ensures
        sort_exec::sorted_partitioning(input, true) == input.spec_properties()@,
        sort_exec::sorted_partitioning(input, false) == PartitioningModel::UnknownPartitioning(1),
{
}

/// Every operator is refused children that it does not have, with a message that
/// ends in their number.
pub proof fn a_wrong_number_of_children_is_told(plan: ExecutionPlan, n: nat)
    ensures
        plan.arity_fault(n) matches Fault::Internal(m) && m.len() >= text::decimal(n).len()
            && m.skip(m.len() - text::decimal(n).len()) == text::decimal(n),
{
    let m = plan.arity_fault(n)->Internal_0;
    assert(m.skip(m.len() - text::decimal(n).len()) =~= text::decimal(n));
}

/// An operator that is rebuilt over other children is of the same kind and asks
/// for the same: the same keys, limits, expressions and schemas.
pub proof fn a_rebuilt_operator_asks_for_the_same(rebuilt: ExecutionPlan, plan: ExecutionPlan)
    requires
        plan::rebuilt_from(rebuilt, plan),
    ensures
        plan matches ExecutionPlan::Aggregate(b) ==> (rebuilt matches ExecutionPlan::Aggregate(a)
            && a.mode == b.mode && a.group_by == b.group_by && a.aggr_expr == b.aggr_expr
            && a.schema == b.schema),
        plan matches ExecutionPlan::Filter(b) ==> (rebuilt matches ExecutionPlan::Filter(a)
            && a.predicate == b.predicate),
        plan matches ExecutionPlan::Selection(b) ==> (rebuilt matches ExecutionPlan::Selection(a)
            && a.expr == b.expr),
        plan matches ExecutionPlan::GlobalLimit(b) ==> (
        rebuilt matches ExecutionPlan::GlobalLimit(a) && a.skip == b.skip && a.fetch == b.fetch),
        plan matches ExecutionPlan::Limit(b) ==> (rebuilt matches ExecutionPlan::Limit(a)
            && a.limit == b.limit),
        plan matches ExecutionPlan::LocalLimit(b) ==> (rebuilt matches ExecutionPlan::LocalLimit(a)
            && a.fetch == b.fetch),
        plan matches ExecutionPlan::HashJoin(b) ==> (rebuilt matches ExecutionPlan::HashJoin(a)
            && a.on == b.on && a.filter == b.filter && a.join_type == b.join_type
            && a.null_equality == b.null_equality && a.projection == b.projection
            && a.join_schema == b.join_schema && a.right_columns_to_exclude
            == b.right_columns_to_exclude),
        plan matches ExecutionPlan::Projection(b) ==> (rebuilt matches ExecutionPlan::Projection(a)
            && a.expr == b.expr && a.schema == b.schema),
        plan matches ExecutionPlan::Sort(b) ==> (rebuilt matches ExecutionPlan::Sort(a) && a.expr
            == b.expr && a.fetch == b.fetch && a.preserve_partitioning == b.preserve_partitioning),
        plan matches ExecutionPlan::ShuffleWriter(b) ==> (
        rebuilt matches ExecutionPlan::ShuffleWriter(a) && a.partition_expr == b.partition_expr
            && a.partition_count == b.partition_count && a.stage_id == b.stage_id && a.job_uuid@
            == b.job_uuid@),
        plan.spec_children().len() == 0 && !(plan is Extension) ==> rebuilt == plan,
{
}

} // verus!
