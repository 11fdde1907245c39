//! What survives being sent.
use vstd::prelude::*;
use std::sync::Arc;
use crate::aggregates::{AggregateExprModel, AggregateFunction};
use crate::expr::Expr;
use crate::logical_plan::{LogicalExprValue, LogicalPlanValue, TableSource};
use crate::plan::ExecutionPlan;
use crate::proto::messages::LogicalPlanNode;
use crate::schema::FieldModel;
use crate::proto::{
    operators, physical_plan_deserializer, physical_plan_serializer, protobuf_deserializer,
    protobuf_serializer,
};
use crate::{aggregates, expr, schema};

verus! {

/// Whether the position of every column of an expression fits 32 bits.
pub open spec fn small_columns(e: Expr) -> bool
    decreases e,
{
    match e {
        Expr::Column { name, index } => index <= u32::MAX,
        Expr::Binary { left, op, right } => small_columns(*left) && small_columns(*right),
        Expr::Cast { expr, data_type } => small_columns(*expr),
        _ => true,
    }
}

/// Whether that holds of every expression.
pub open spec fn all_small(list: Seq<Expr>) -> bool {
    forall|i: int| 0 <= i < list.len() ==> small_columns(#[trigger] list[i])
}

/// An expression that has a form in messages survives being sent, where the
/// positions of its columns fit 32 bits.
pub proof fn expressions_read_back(e: Expr)
    requires
        physical_plan_serializer::sendable_expr(e),
        small_columns(e),
    ensures
        physical_plan_deserializer::readable_expr(physical_plan_serializer::expr_message(e)),
        physical_plan_deserializer::read_expr(physical_plan_serializer::expr_message(e)) == e,
    decreases e,
{
    match e {
        Expr::Binary { left, op, right } => {
            expressions_read_back(*left);
            expressions_read_back(*right);
            operators::operator_names_read_back(op);
        },
        Expr::Cast { expr, data_type } => {
            expressions_read_back(*expr);
            operators::types_read_back(data_type);
        },
        _ => {},
    }
}

/// A list of expressions survives being sent, as each of them does.
pub proof fn expression_lists_read_back(list: Seq<Expr>)
    requires
        physical_plan_serializer::sendable_exprs(list),
        all_small(list),
    ensures
        physical_plan_deserializer::readable_exprs(
            physical_plan_serializer::expr_list_message(list),
        ),
        physical_plan_deserializer::read_exprs(physical_plan_serializer::expr_list_message(list))
            == list,
{
    let sent = physical_plan_serializer::expr_list_message(list);
    assert forall|i: int| 0 <= i < list.len() implies physical_plan_deserializer::readable_expr(
        #[trigger] sent[i],
    ) && physical_plan_deserializer::read_expr(sent[i]) == list[i] by {
        assert(physical_plan_serializer::sendable_expr(list[i]));
        assert(small_columns(list[i]));
        expressions_read_back(list[i]);
    }
    assert(physical_plan_deserializer::read_exprs(sent) == list);
}

/// Whether the positions of the columns of every aggregate fit 32 bits.
pub open spec fn all_small_inputs(list: Seq<AggregateExprModel>) -> bool {
    forall|i: int| 0 <= i < list.len() ==> small_columns((#[trigger] list[i]).input)
}

/// Aggregates survive being sent.
pub proof fn aggregates_read_back(list: Seq<AggregateExprModel>)
    requires
        physical_plan_serializer::sendable_aggregates(list),
        all_small_inputs(list),
    ensures
        physical_plan_deserializer::readable_aggregates(
            physical_plan_serializer::aggregate_list_message(list),
        ),
        physical_plan_deserializer::read_aggregates(
            physical_plan_serializer::aggregate_list_message(list),
        ) == list,
{
    let sent = physical_plan_serializer::aggregate_list_message(list);
    assert forall|i: int| 0 <= i < list.len() implies physical_plan_deserializer::readable_aggregate(
        #[trigger] sent[i],
    ) && physical_plan_deserializer::read_aggregate(sent[i]) == list[i] by {
        assert(physical_plan_serializer::sendable_expr(list[i].input));
        assert(small_columns(list[i].input));
        expressions_read_back(list[i].input);
    }
    assert(physical_plan_deserializer::read_aggregates(sent) == list);
}

/// Whether the positions of all columns of a plan fit 32 bits.
pub open spec fn small_plan(plan: ExecutionPlan) -> bool
    decreases plan,
{
    match plan {
        ExecutionPlan::Projection(op) => small_plan(*op.input) && all_small(expr::exprs(op.expr@)),
        ExecutionPlan::Filter(op) => small_plan(*op.input) && small_columns(op.predicate@),
        ExecutionPlan::Aggregate(op) => small_plan(*op.input) && all_small(
            physical_plan_serializer::group_exprs(op.group_by.expr@),
        ) && all_small_inputs(aggregates::aggregates(op.aggr_expr@)),
        ExecutionPlan::ShuffleWriter(op) => small_plan(*op.input) && all_small(
            expr::exprs(op.partition_expr@),
        ),
        _ => true,
    }
}

/// A name that is found is that of the field at its position, and the name of a
/// field is found.
pub proof fn field_position_hit(fields: Seq<FieldModel>, name: Seq<char>)
    ensures
        match schema::field_position(fields, name) {
            Some(i) => 0 <= i < fields.len() && fields[i].name == name,
            None => forall|k: int| 0 <= k < fields.len() ==> (#[trigger] fields[k]).name != name,
        },
    decreases fields.len(),
{
    if fields.len() > 0 && fields[0].name != name {
        let rest = fields.drop_first();
        field_position_hit(rest, name);
        if schema::field_position(rest, name) is None {
            assert forall|k: int| 0 <= k < fields.len() implies (#[trigger] fields[k]).name != name by {
                if k > 0 {
                    assert(rest[k - 1] == fields[k]);
                }
            }
        }
    }
}

/// A schema that was sent gives the same message again.
proof fn schemas_send_again(fields: Seq<FieldModel>)
    requires
        operators::sendable_schema(fields),
    ensures
        operators::schema_message(operators::read_schema(operators::schema_message(fields)))
            == operators::schema_message(fields),
        operators::sendable_schema(operators::read_schema(operators::schema_message(fields))),
{
    operators::schemas_read_back(fields);
    let back = operators::read_schema(operators::schema_message(fields));
    assert forall|i: int| 0 <= i < fields.len() implies operators::message_type(
        (#[trigger] back[i]).data_type,
    ) is Some by {
        assert(back[i].data_type == fields[i].data_type);
        assert(operators::message_type(fields[i].data_type) is Some);
    }
    assert(operators::schema_message(back) == operators::schema_message(fields));
}

spec fn behind(plan: Arc<ExecutionPlan>) -> ExecutionPlan {
    *plan
}

/// A plan that has a form in messages can be read back.
pub proof fn sent_plans_are_readable(plan: ExecutionPlan)
    requires
        physical_plan_serializer::sendable_plan(plan),
        small_plan(plan),
    ensures
        physical_plan_deserializer::readable_plan(physical_plan_serializer::plan_message(plan)),
    decreases plan,
{
    match plan {
        ExecutionPlan::DataSource(op) => {
            let full = op.source.spec_full_schema();
            operators::schemas_read_back(full);
            let back = operators::read_schema(operators::schema_message(full));
            let names = physical_plan_serializer::projected_names(full, op.source.spec_projection());
            assert forall|i: int| 0 <= i < names.len() implies schema::field_position(
                back,
                #[trigger] names[i],
            ) is Some by {
                let indices = op.source.spec_projection().unwrap();
                let k = indices@[i] as int;
                assert(indices@[i] < full.len());
                assert(back[k].name == names[i]);
                field_position_hit(back, names[i]);
            }
        },
        ExecutionPlan::Projection(op) => {
            sent_plans_are_readable(behind(op.input));
            operators::schemas_read_back(op.schema@);
            expression_lists_read_back(expr::exprs(op.expr@));
        },
        ExecutionPlan::Filter(op) => {
            sent_plans_are_readable(behind(op.input));
            expressions_read_back(op.predicate@);
        },
        ExecutionPlan::Aggregate(op) => {
            sent_plans_are_readable(behind(op.input));
            operators::schemas_read_back(op.schema@);
            expression_lists_read_back(
                physical_plan_serializer::group_exprs(op.group_by.expr@),
            );
            aggregates_read_back(aggregates::aggregates(op.aggr_expr@));
        },
        ExecutionPlan::ShuffleWriter(op) => {
            sent_plans_are_readable(behind(op.input));
            expression_lists_read_back(expr::exprs(op.partition_expr@));
        },
        ExecutionPlan::ShuffleReader(op) => {
            operators::schemas_read_back(op.shuffle_schema@);
        },
        _ => {},
    }
}

/// What is read back of a plan that was sent is the same plan as far as messages
/// tell: it has a form in messages, and the same one.
pub proof fn plans_read_back(plan: ExecutionPlan, back: ExecutionPlan)
    requires
        physical_plan_serializer::sendable_plan(plan),
        small_plan(plan),
        physical_plan_deserializer::reads_as(back, physical_plan_serializer::plan_message(plan)),
    ensures
        physical_plan_serializer::sendable_plan(back),
        physical_plan_serializer::plan_message(back) == physical_plan_serializer::plan_message(plan),
    decreases plan,
{
    match (plan, back) {
        (ExecutionPlan::DataSource(op), ExecutionPlan::DataSource(b)) => {
            let full = op.source.spec_full_schema();
            schemas_send_again(full);
            let names = physical_plan_serializer::projected_names(full, op.source.spec_projection());
            let full_back = b.source.spec_full_schema();
            let names_back = physical_plan_serializer::projected_names(
                full_back,
                b.source.spec_projection(),
            );
            assert(names_back.len() == names.len());
            assert forall|i: int| 0 <= i < names.len() implies names_back[i] == names[i] by {
                field_position_hit(full_back, names[i]);
            }
            assert(names_back == names);
        },
        (ExecutionPlan::Projection(op), ExecutionPlan::Projection(b)) => {
            plans_read_back(behind(op.input), behind(b.input));
            schemas_send_again(op.schema@);
            expression_lists_read_back(expr::exprs(op.expr@));
        },
        (ExecutionPlan::Filter(op), ExecutionPlan::Filter(b)) => {
            plans_read_back(behind(op.input), behind(b.input));
            expressions_read_back(op.predicate@);
        },
        (ExecutionPlan::Aggregate(op), ExecutionPlan::Aggregate(b)) => {
            plans_read_back(behind(op.input), behind(b.input));
            schemas_send_again(op.schema@);
            let groups = physical_plan_serializer::group_exprs(op.group_by.expr@);
            expression_lists_read_back(groups);
            assert(physical_plan_serializer::group_exprs(b.group_by.expr@) == groups);
            aggregates_read_back(aggregates::aggregates(op.aggr_expr@));
        },
        (ExecutionPlan::ShuffleWriter(op), ExecutionPlan::ShuffleWriter(b)) => {
            plans_read_back(behind(op.input), behind(b.input));
            expression_lists_read_back(expr::exprs(op.partition_expr@));
        },
        (ExecutionPlan::ShuffleReader(op), ExecutionPlan::ShuffleReader(b)) => {
            schemas_send_again(op.shuffle_schema@);
        },
        _ => {},
    }
}

/// A logical expression that has a form in messages survives being sent.
pub proof fn logical_expressions_read_back(e: LogicalExprValue)
    requires
        protobuf_serializer::sendable_logical_expr(e),
    ensures
        protobuf_deserializer::readable_logical_expr(protobuf_serializer::logical_expr_message(e)),
        protobuf_deserializer::read_logical_expr(protobuf_serializer::logical_expr_message(e)) == e,
    decreases e,
{
    match e {
        LogicalExprValue::BinaryExpr { left, op, right } => {
            logical_expressions_read_back(*left);
            logical_expressions_read_back(*right);
            operators::operator_names_read_back(op);
        },
        _ => {},
    }
}

/// A list of logical expressions survives being sent.
pub proof fn logical_expression_lists_read_back(list: Seq<LogicalExprValue>)
    requires
        protobuf_serializer::sendable_logical_exprs(list),
    ensures
        protobuf_deserializer::readable_logical_exprs(
            protobuf_serializer::logical_exprs_message(list),
        ),
        protobuf_deserializer::read_logical_exprs(protobuf_serializer::logical_exprs_message(list))
            == list,
{
    let sent = protobuf_serializer::logical_exprs_message(list);
    assert forall|i: int| 0 <= i < list.len() implies protobuf_deserializer::readable_logical_expr(
        #[trigger] sent[i],
    ) && protobuf_deserializer::read_logical_expr(sent[i]) == list[i] by {
        assert(protobuf_serializer::sendable_logical_expr(list[i]));
        logical_expressions_read_back(list[i]);
    }
    assert(protobuf_deserializer::read_logical_exprs(sent) == list);
}

/// Whether a message says all of an aggregate: it has one argument, and sees
/// different values alone only where it counts them.
pub open spec fn whole_aggregate(e: LogicalExprValue) -> bool {
    e matches LogicalExprValue::AggregateFunction { func, args, distinct } && args.len() == 1 && (
    distinct ==> func == AggregateFunction::Count)
}

/// Whether that holds of every aggregate.
pub open spec fn whole_aggregates(list: Seq<LogicalExprValue>) -> bool {
    forall|i: int| 0 <= i < list.len() ==> whole_aggregate(#[trigger] list[i])
}

/// Logical aggregates of which messages say all survive being sent.
pub proof fn logical_aggregates_read_back(list: Seq<LogicalExprValue>)
    requires
        protobuf_serializer::sendable_aggregates(list),
        whole_aggregates(list),
    ensures
        protobuf_deserializer::readable_logical_exprs(
            protobuf_serializer::aggregates_message(list),
        ),
        protobuf_deserializer::all_aggregates(protobuf_serializer::aggregates_message(list)),
        protobuf_deserializer::read_logical_exprs(protobuf_serializer::aggregates_message(list))
            == list,
{
    let sent = protobuf_serializer::aggregates_message(list);
    assert forall|i: int| 0 <= i < list.len() implies protobuf_deserializer::readable_logical_expr(
        #[trigger] sent[i],
    ) && protobuf_deserializer::read_logical_expr(sent[i]) == list[i] && sent[i] is AggregateExpr by {
        assert(protobuf_serializer::sendable_aggregate(list[i]));
        assert(whole_aggregate(list[i]));
        let args = list[i]->args;
        logical_expressions_read_back(args[0]);
        assert(args == seq![args[0]]);
    }
    assert(protobuf_deserializer::read_logical_exprs(sent) == list);
}

/// Whether messages say all of a logical plan and can be read: it joins nothing,
/// its aggregates are whole, and its files of comma-separated values are read in
/// batches of 1024 rows.
pub open spec fn restorable(plan: LogicalPlanValue) -> bool
    decreases plan,
{
    match plan {
        LogicalPlanValue::TableScan { path, source, projection } => source matches TableSource::Csv {
            has_headers,
            batch_size,
        } ==> batch_size == 1024,
        LogicalPlanValue::Projection { input, expr } => restorable(*input),
        LogicalPlanValue::Filter { input, expr } => restorable(*input),
        LogicalPlanValue::Limit { input, limit } => restorable(*input),
        LogicalPlanValue::Aggregate { input, group_expr, aggregate_expr } => restorable(*input)
            && whole_aggregates(aggregate_expr),
        LogicalPlanValue::Join { .. } => false,
    }
}

/// A logical plan of which messages say all survives being sent.
pub proof fn logical_plans_read_back(plan: LogicalPlanValue, node: LogicalPlanNode)
    requires
        protobuf_serializer::sendable_logical_plan(plan),
        restorable(plan),
        protobuf_serializer::sends(node, plan),
    ensures
        protobuf_deserializer::readable_logical_plan(node),
        protobuf_deserializer::read_logical_plan(node) == plan,
    decreases plan,
{
    match plan {
        LogicalPlanValue::Projection { input, expr } => {
            logical_plans_read_back(*input, *node.input.unwrap());
            logical_expression_lists_read_back(expr);
        },
        LogicalPlanValue::Filter { input, expr } => {
            logical_plans_read_back(*input, *node.input.unwrap());
            logical_expressions_read_back(expr);
        },
        LogicalPlanValue::Limit { input, limit } => {
            logical_plans_read_back(*input, *node.input.unwrap());
        },
        LogicalPlanValue::Aggregate { input, group_expr, aggregate_expr } => {
            logical_plans_read_back(*input, *node.input.unwrap());
            logical_expression_lists_read_back(group_expr);
            logical_aggregates_read_back(aggregate_expr);
        },
        _ => {},
    }
}

} // verus!
