//! What the texts of operators say.
use vstd::prelude::*;
use crate::concat;
use crate::display;
use crate::display::{DisplayAs, DisplayFormatType};
use crate::expr;
use crate::expr::Expr;
use crate::filter_exec::{FilterExec, SelectionExec};
use crate::hash_join_exec;
use crate::limit_exec::GlobalLimitExec;
use crate::memory_exec::MemoryExec;
use crate::metrics::metrics_set;
use crate::metrics::metrics_set::MetricModel;
use crate::metrics::value::NoCustomMetric;
use crate::partitioning::PartitioningModel;
use crate::plan::ExecutionPlan;
use crate::plan_display;
use crate::plan_display::{ShowMetrics, ShowModel};
use crate::plan_visitor;
use crate::plan_visitor::ExecutionPlanVisitor;
use crate::projection_exec;
use crate::schema::{DataType, FieldModel};
use crate::sorting;
use crate::sorting::PhysicalSortExpr;
use crate::text;
use crate::text_laws;

verus! {

/// Whether a text begins with a name and a colon.
pub open spec fn headed(shown: Seq<char>, name: Seq<char>) -> bool {
    &&& shown.len() > name.len() + 1
    &&& shown.take(name.len() as int) == name
    &&& shown[name.len() as int] == ':'
    &&& shown[name.len() as int + 1] == ' '
}

/// A line of a plan begins with the name of its operator.
pub proof fn an_operator_is_shown_under_its_name(plan: ExecutionPlan)
    requires
        plan is Filter || plan is Selection || plan is Memory || plan is Limit || plan is LocalLimit
            || plan is Scan,
    ensures
        headed(plan.rendered(DisplayFormatType::Default), plan.spec_name()),
{
    reveal_strlit("FilterExec");
    reveal_strlit("SelectionExec");
    reveal_strlit("MemoryExec");
    reveal_strlit("LimitExec");
    reveal_strlit("LocalLimitExec");
    reveal_strlit("ScanExec");
    reveal_strlit("FilterExec: ");
    reveal_strlit("SelectionExec: ");
    reveal_strlit("MemoryExec: batches=");
    reveal_strlit("LimitExec: limit=");
    reveal_strlit("LocalLimitExec: fetch=");
    reveal_strlit("ScanExec: schema=");
    let name = plan.spec_name();
    let shown = plan.rendered(DisplayFormatType::Default);
    assert(shown.take(name.len() as int) =~= name);
}

/// A filter shows its condition, and operators over batches in memory how many
/// there are.
pub proof fn an_operator_shows_what_it_does(f: FilterExec, s: SelectionExec, m: MemoryExec)
    ensures
        f.rendered(DisplayFormatType::Default).skip(12) == expr::expr_text(f.predicate@),
        f.rendered(DisplayFormatType::TreeRender).skip(10) == expr::expr_text(f.predicate@),
        s.rendered(DisplayFormatType::Default).skip(15) == expr::expr_text(s.expr@),
        text_laws::place_value(m.rendered(DisplayFormatType::Default).skip(20))
            == m.batches@.len(),
{
    reveal_strlit("FilterExec: ");
    reveal_strlit("predicate=");
    reveal_strlit("SelectionExec: ");
    reveal_strlit("MemoryExec: batches=");
    text_laws::a_decimal_number_is_read_back(m.batches@.len());
    assert(f.rendered(DisplayFormatType::Default).skip(12) =~= expr::expr_text(f.predicate@));
    assert(f.rendered(DisplayFormatType::TreeRender).skip(10) =~= expr::expr_text(f.predicate@));
    assert(s.rendered(DisplayFormatType::Default).skip(15) =~= expr::expr_text(s.expr@));
    assert(m.rendered(DisplayFormatType::Default).skip(20) =~= text::decimal(m.batches@.len()));
}

/// A limit on all rows shows how many it skips and how many it lets through.
pub proof fn a_global_limit_shows_both_numbers(op: GlobalLimitExec, n: usize)
    requires
        op.fetch == Some(n),
    ensures
        op.rendered(DisplayFormatType::Default) == "GlobalLimitExec: skip="@ + text::decimal(
            op.skip as nat,
        ) + ", fetch="@ + text::decimal(n as nat),
        op.rendered(DisplayFormatType::TreeRender) == "limit="@ + text::decimal(n as nat)
            + "\nskip="@ + text::decimal(op.skip as nat),
{
}

/// A pair of join keys is shown in parentheses, the left key first.
pub proof fn key_pairs_are_shown_left_to_right(
    on: Seq<(Expr, Expr)>,
    between: Seq<char>,
    i: int,
)
    requires
        0 <= i < on.len(),
    ensures
        hash_join_exec::pair_texts(on, between).len() == on.len(),
        hash_join_exec::pair_texts(on, between)[i] == seq!['('] + expr::expr_text(on[i].0) + between
            + expr::expr_text(on[i].1) + seq![')'],
{
    reveal_strlit("(");
    reveal_strlit(")");
    assert("("@ =~= seq!['(']);
    assert(")"@ =~= seq![')']);
}

/// The expressions of a projection are shown one per line, numbered from zero.
pub proof fn projected_expressions_are_numbered_from_zero(exprs: Seq<Expr>, e: Expr)
    ensures
        projection_exec::expr_lines(seq![]).len() == 0,
        projection_exec::expr_lines(exprs.push(e)) == projection_exec::expr_lines(exprs) + "expr"@
            + text::decimal(exprs.len()) + seq!['='] + expr::expr_text(e) + seq!['\n'],
{
    reveal_strlit("=");
    reveal_strlit("\n");
    assert("="@ =~= seq!['=']);
    assert("\n"@ =~= seq!['\n']);
    assert(exprs.push(e).drop_last() =~= exprs);
}

/// A schema is shown as the names of its fields, and a list of sort keys as the
/// keys with their directions, each with a comma and a space between.
pub proof fn lists_are_shown_with_commas(schema: Seq<FieldModel>, keys: Seq<PhysicalSortExpr>)
    ensures
        display::schema_text(schema) == seq!['['] + text::join(
            schema.map_values(|f: FieldModel| f.name),
            seq![',', ' '],
        ) + seq![']'],
        sorting::ordering_text(keys) == text::join(
            keys.map_values(
                |k: PhysicalSortExpr|
                    expr::expr_text(k.expr@) + seq![' '] + sorting::options_text(k.options),
            ),
            seq![',', ' '],
        ),
{
    reveal_strlit("[");
    reveal_strlit("]");
    reveal_strlit(", ");
    reveal_strlit(" ");
    assert("["@ =~= seq!['[']);
    assert("]"@ =~= seq![']']);
    assert(", "@ =~= seq![',', ' ']);
    assert(" "@ =~= seq![' ']);
    assert(Seq::new(schema.len(), |i: int| schema[i].name) =~= schema.map_values(
        |f: FieldModel| f.name,
    ));
    assert(Seq::new(keys.len(), |i: int| sorting::sort_expr_text(keys[i])) =~= keys.map_values(
        |k: PhysicalSortExpr|
            expr::expr_text(k.expr@) + seq![' '] + sorting::options_text(k.options),
    ));
}

/// An output without orderings shows none, one with a single ordering shows it in
/// brackets, and one with several shows them in a list in brackets.
pub proof fn orderings_are_shown_in_brackets(orderings: Seq<Seq<char>>)
    ensures
        ({
            let each = orderings.map_values(|o: Seq<char>| seq!['['] + o + seq![']']);
            let all = text::join(each, seq![',', ' ']);
            &&& orderings.len() == 0 ==> display::orderings_text(orderings).len() == 0
            &&& orderings.len() == 1 ==> display::orderings_text(orderings)
                == ", output_ordering="@ + all
            &&& orderings.len() > 1 ==> display::orderings_text(orderings)
                == ", output_orderings=["@ + all + seq![']']
        }),
{
    reveal_strlit("[");
    reveal_strlit("]");
    reveal_strlit(", ");
    assert("["@ =~= seq!['[']);
    assert("]"@ =~= seq![']']);
    assert(", "@ =~= seq![',', ' ']);
    assert(display::bracketed(orderings) =~= orderings.map_values(
        |o: Seq<char>| seq!['['] + o + seq![']'],
    ));
}

/// A partitioning is shown as its kind and, at the end of the parentheses, how many
/// partitions there are.
pub proof fn a_partitioning_shows_its_count(n: usize, keys: Seq<Expr>)
    ensures
        PartitioningModel::RoundRobinBatch(n).rendered() == "RoundRobinBatch"@ + seq!['(']
            + text::decimal(n as nat) + seq![')'],
        PartitioningModel::UnknownPartitioning(n).rendered() == "UnknownPartitioning"@ + seq!['(']
            + text::decimal(n as nat) + seq![')'],
        PartitioningModel::Hash(keys, n).rendered() == "Hash"@ + seq!['(', '['] + text::join(
            keys.map_values(|e: Expr| expr::expr_text(e)),
            seq![',', ' '],
        ) + seq![']', ',', ' '] + text::decimal(n as nat) + seq![')'],
{
    reveal_strlit("RoundRobinBatch");
    reveal_strlit("RoundRobinBatch(");
    reveal_strlit("UnknownPartitioning");
    reveal_strlit("UnknownPartitioning(");
    reveal_strlit("Hash");
    reveal_strlit("Hash([");
    reveal_strlit("], ");
    reveal_strlit(")");
    reveal_strlit(", ");
    assert(", "@ =~= seq![',', ' ']);
    assert("RoundRobinBatch("@ =~= "RoundRobinBatch"@ + seq!['(']);
    assert("UnknownPartitioning("@ =~= "UnknownPartitioning"@ + seq!['(']);
    assert("Hash(["@ =~= "Hash"@ + seq!['(', '[']);
    assert("], "@ =~= seq![']', ',', ' ']);
    assert(")"@ =~= seq![')']);
    assert(expr::expr_texts(keys) =~= keys.map_values(|e: Expr| expr::expr_text(e)));
}

/// Of the types of a column each is told once, in the order in which they first
/// occur.
pub proof fn different_types_are_told_once(types: Seq<DataType>)
    ensures
        forall|i: int, j: int|
            0 <= i < j < concat::distinct_types(types).len() ==> #[trigger] concat::distinct_types(
                types,
            )[i] != #[trigger] concat::distinct_types(types)[j],
        forall|t: DataType|
            types.contains(t) <==> #[trigger] concat::distinct_types(types).contains(t),
        types.len() > 0 ==> concat::distinct_types(types).len() > 0 && concat::distinct_types(
            types,
        )[0] == types[0],
    decreases types.len(),
{
    if types.len() > 0 {
        let fewer = types.drop_last();
        let before = concat::distinct_types(fewer);
        let all = concat::distinct_types(types);
        let last = types.last();
        different_types_are_told_once(fewer);
        assert(types =~= fewer.push(last));
        assert forall|t: DataType| types.contains(t) <==> #[trigger] all.contains(t) by {
            if types.contains(t) {
                let i = choose|i: int| 0 <= i < types.len() && types[i] == t;
                if i < fewer.len() {
                    assert(fewer[i] == t);
                    assert(before.contains(t));
                    let k = choose|k: int| 0 <= k < before.len() && before[k] == t;
                    assert(all[k] == t);
                } else if before.contains(last) {
                    assert(all.contains(t));
                } else {
                    assert(all[before.len() as int] == t);
                }
            }
            if all.contains(t) {
                let k = choose|k: int| 0 <= k < all.len() && all[k] == t;
                if k < before.len() {
                    assert(before[k] == t);
                    assert(before.contains(t));
                    assert(fewer.contains(t));
                    let i = choose|i: int| 0 <= i < fewer.len() && fewer[i] == t;
                    assert(types[i] == t);
                } else {
                    assert(types[types.len() - 1] == t);
                }
            }
        }
        assert forall|i: int, j: int| 0 <= i < j < all.len() implies #[trigger] all[i]
            != #[trigger] all[j] by {
            if j < before.len() {
                assert(before[i] != before[j]);
            } else {
                assert(before[i] == all[i]);
            }
        }
        if fewer.len() > 0 {
            assert(fewer[0] == types[0]);
        }
    }
}

/// A visitor that declines an operator, or fails at it, sees neither what is below
/// it nor its end; an operator without children is left as soon as it is reached.
pub proof fn a_declined_operator_is_not_walked<V: ExecutionPlanVisitor>(
    state: V::State,
    plan: ExecutionPlan,
)
    ensures
        V::entered(state, plan).1 == Ok::<bool, V::Error>(false) ==> plan_visitor::walked::<V>(
            state,
            plan,
        ) == (V::entered(state, plan).0, Ok::<(), V::Error>(())),
        V::entered(state, plan).1 matches Err(e) ==> plan_visitor::walked::<V>(state, plan) == (
            V::entered(state, plan).0,
            Err::<(), V::Error>(e),
        ),
        V::entered(state, plan).1 == Ok::<bool, V::Error>(true) && plan.spec_children().len() == 0
            ==> plan_visitor::walked::<V>(state, plan).0 == V::left(
            V::entered(state, plan).0,
            plan,
        ).0,
{
}

/// Behind the text of an operator a line shows what is asked for: its metrics in
/// brackets, that there are no statistics, and the names of its columns.
pub proof fn a_line_shows_what_is_asked_for(
    plan: ExecutionPlan,
    t: DisplayFormatType,
    o: ShowModel,
    metrics: Seq<MetricModel<()>>,
)
    ensures
        ({
            let line = plan_display::line_text(plan, t, o);
            let shown = metrics_set::metrics_text::<NoCustomMetric>(
                plan_display::shown_metrics(metrics, o),
            );
            let only = o.show_metrics != ShowMetrics::Nothing && !o.show_statistics
                && !o.show_schema;
            &&& only && plan.spec_metrics() == Some(metrics) ==> line == plan.rendered(t)
                + ", metrics=["@ + shown + seq![']']
            &&& only && plan.spec_metrics() is None ==> line == plan.rendered(t) + ", metrics=[]"@
            &&& o.show_metrics == ShowMetrics::Nothing && o.show_statistics && !o.show_schema
                ==> line == plan.rendered(t) + ", statistics=[]"@
            &&& o.show_metrics == ShowMetrics::Nothing && !o.show_statistics && o.show_schema
                ==> line == plan.rendered(t) + ", schema="@ + display::schema_text(
                plan.spec_schema(),
            )
        }),
{
    reveal_strlit("]");
    assert("]"@ =~= seq![']']);
    let line = plan_display::line_text(plan, t, o);
    let shown = metrics_set::metrics_text::<NoCustomMetric>(
        plan_display::shown_metrics(metrics, o),
    );
    let only = o.show_metrics != ShowMetrics::Nothing && !o.show_statistics && !o.show_schema;
    if only && plan.spec_metrics() == Some(metrics) {
        assert(line =~= plan.rendered(t) + ", metrics=["@ + shown + seq![']']);
    }
    if only && plan.spec_metrics() is None {
        assert(line =~= plan.rendered(t) + ", metrics=[]"@);
    }
    if o.show_metrics == ShowMetrics::Nothing && o.show_statistics && !o.show_schema {
        assert(line =~= plan.rendered(t) + ", statistics=[]"@);
    }
    if o.show_metrics == ShowMetrics::Nothing && !o.show_statistics && o.show_schema {
        assert(line =~= plan.rendered(t) + ", schema="@ + display::schema_text(
            plan.spec_schema(),
        ));
    }
}

/// An operator has metrics only where it was given some.
pub proof fn metrics_are_those_that_were_given(plan: ExecutionPlan)
    ensures
        plan.spec_metrics() is Some ==> plan is Extension,
        plan matches ExecutionPlan::Extension(op) ==> (plan.spec_metrics() is Some
            <==> op.metrics is Some),
{
}

} // verus!
