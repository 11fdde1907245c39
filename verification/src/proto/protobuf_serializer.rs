//! Logical plans as messages.
use vstd::prelude::*;
use crate::aggregates::AggregateFunction;
use crate::join_table::JoinType;
use crate::logical_plan::{
    LogicalExpr, LogicalExprValue, LogicalPlan, LogicalPlanValue, TableSource,
};
use crate::proto::messages::{
    AggregateFunctionTag, AggregateNode, CsvTableScanNode, FilterNode, JoinNode, JoinTypeTag,
    LimitNode, LogicalExprModel, LogicalExprNode, LogicalExprType, LogicalPlanNode,
    ParquetTableScanNode, ProjectionNode,
};
use crate::proto::operators::operator_wire_name;
use crate::scalar::{Scalar, ScalarValue};
use crate::text::owned;
use crate::proto::{messages, operators};
use crate::{logical_plan, text};

verus! {

/// Whether a constant has a form in messages.
pub open spec fn sendable_scalar(value: Scalar) -> bool {
    match value {
        Scalar::Utf8(_) => true,
        Scalar::Float32(_) => true,
        Scalar::Float64(_) => true,
        Scalar::Int64(_) => true,
        Scalar::Date32(_) => true,
        _ => false,
    }
}

/// A constant as a message.
pub open spec fn scalar_message(value: Scalar) -> LogicalExprModel {
    match value {
        Scalar::Utf8(s) => LogicalExprModel::LiteralString(s),
        Scalar::Float32(n) => LogicalExprModel::LiteralF32(n),
        Scalar::Float64(n) => LogicalExprModel::LiteralF64(n),
        Scalar::Int64(n) => LogicalExprModel::LiteralInt64(n),
        Scalar::Date32(d) => LogicalExprModel::LiteralDate(d),
        _ => LogicalExprModel::Unset,
    }
}

/// Whether an expression has a form in messages: a column, a constant, or an
/// operator between such.
pub open spec fn sendable_logical_expr(e: LogicalExprValue) -> bool
    decreases e,
{
    match e {
        LogicalExprValue::Column(_) => true,
        LogicalExprValue::Literal(value) => sendable_scalar(value),
        LogicalExprValue::BinaryExpr { left, op, right } => sendable_logical_expr(*left)
            && sendable_logical_expr(*right),
        _ => false,
    }
}

/// An expression as a message.
pub open spec fn logical_expr_message(e: LogicalExprValue) -> LogicalExprModel
    decreases e,
{
    match e {
        LogicalExprValue::Column(name) => LogicalExprModel::ColumnName(name),
        LogicalExprValue::Literal(value) => scalar_message(value),
        LogicalExprValue::BinaryExpr { left, op, right } => LogicalExprModel::BinaryExpr {
            l: Some(Box::new(logical_expr_message(*left))),
            r: Some(Box::new(logical_expr_message(*right))),
            op: operators::operator_name(op),
        },
        _ => LogicalExprModel::Unset,
    }
}

/// Whether every expression has a form in messages.
pub open spec fn sendable_logical_exprs(list: Seq<LogicalExprValue>) -> bool {
    forall|i: int| 0 <= i < list.len() ==> sendable_logical_expr(#[trigger] list[i])
}

/// Expressions as messages.
pub open spec fn logical_exprs_message(list: Seq<LogicalExprValue>) -> Seq<LogicalExprModel> {
    Seq::new(list.len(), |i: int| logical_expr_message(list[i]))
}

fn scalar_to_proto_expr_type(value: &ScalarValue) -> (r: LogicalExprType)
    requires
        sendable_scalar(value@),
    ensures
        (LogicalExprNode { expr_type: Some(r) })@ == scalar_message(value@),
{
    match value {
        ScalarValue::Utf8(s) => LogicalExprType::LiteralString(s.clone()),
        ScalarValue::Float32(n) => LogicalExprType::LiteralF32(*n),
        ScalarValue::Float64(n) => LogicalExprType::LiteralF64(*n),
        ScalarValue::Int64(n) => LogicalExprType::LiteralInt64(*n),
        ScalarValue::Date32(d) => LogicalExprType::LiteralDate(*d),
        _ => vstd::pervasive::unreached(),
    }
}

/// An expression as a message.
pub fn serialize_logical_expr(expr: &LogicalExpr) -> (r: LogicalExprNode)
    requires
        sendable_logical_expr(expr@),
    ensures
        r@ == logical_expr_message(expr@),
    decreases expr,
{
    let expr_type = match expr {
        LogicalExpr::Column(name) => LogicalExprType::ColumnName(name.clone()),
        LogicalExpr::Literal(value) => scalar_to_proto_expr_type(value),
        LogicalExpr::BinaryExpr { left, op, right } => {
            let l = serialize_logical_expr(left);
            let r = serialize_logical_expr(right);
            LogicalExprType::BinaryExpr {
                l: Some(Box::new(l)),
                r: Some(Box::new(r)),
                op: owned(operator_wire_name(*op)),
            }
        },
        _ => vstd::pervasive::unreached(),
    };
    LogicalExprNode { expr_type: Some(expr_type) }
}

fn serialize_logical_exprs(list: &Vec<LogicalExpr>) -> (r: Vec<LogicalExprNode>)
    requires
        sendable_logical_exprs(logical_plan::values(list@)),
    ensures
        messages::logical_expr_models(r@) == logical_exprs_message(logical_plan::values(list@)),
{
    proof {
        logical_plan::values_of_each(list@);
    }
    let ghost all = logical_plan::values(list@);
    let mut r: Vec<LogicalExprNode> = Vec::new();
    let mut i: usize = 0;
    while i < list.len()
        invariant
            sendable_logical_exprs(all),
            all.len() == list@.len(),
            forall|j: int| 0 <= j < list@.len() ==> (#[trigger] all[j]) == list@[j].value(),
            i <= list.len(),
            r.len() == i,
            forall|j: int| 0 <= j < i ==> (#[trigger] r@[j])@ == logical_expr_message(all[j]),
        decreases list.len() - i,
    {
        assert(sendable_logical_expr(all[i as int]));
        r.push(serialize_logical_expr(&list[i]));
        i += 1;
    }
    assert(messages::logical_expr_models(r@) == logical_exprs_message(all));
    r
}

/// The function of an aggregate in messages: counting different values has one
/// of its own.
pub open spec fn logical_function_tag(func: AggregateFunction, distinct: bool) -> AggregateFunctionTag {
    match func {
        AggregateFunction::Sum => AggregateFunctionTag::Sum,
        AggregateFunction::Min => AggregateFunctionTag::Min,
        AggregateFunction::Max => AggregateFunctionTag::Max,
        AggregateFunction::Avg => AggregateFunctionTag::Avg,
        AggregateFunction::Count => if distinct {
            AggregateFunctionTag::CountDistinct
        } else {
            AggregateFunctionTag::Count
        },
    }
}

/// Whether an aggregate has a form in messages: it is one, and its first argument
/// has.
pub open spec fn sendable_aggregate(e: LogicalExprValue) -> bool {
    e matches LogicalExprValue::AggregateFunction { func, args, distinct } && args.len() > 0
        && sendable_logical_expr(args[0])
}

/// An aggregate as a message: its function and its first argument.
pub open spec fn aggregate_message(e: LogicalExprValue) -> LogicalExprModel {
    match e {
        LogicalExprValue::AggregateFunction { func, args, distinct } =>
            LogicalExprModel::AggregateExpr {
                aggr_function: logical_function_tag(func, distinct),
                expr: Some(Box::new(logical_expr_message(args[0]))),
            },
        _ => LogicalExprModel::Unset,
    }
}

/// Whether every aggregate has a form in messages.
pub open spec fn sendable_aggregates(list: Seq<LogicalExprValue>) -> bool {
    forall|i: int| 0 <= i < list.len() ==> sendable_aggregate(#[trigger] list[i])
}

/// Aggregates as messages.
pub open spec fn aggregates_message(list: Seq<LogicalExprValue>) -> Seq<LogicalExprModel> {
    Seq::new(list.len(), |i: int| aggregate_message(list[i]))
}

/// An aggregate as a message.
pub fn serialize_logical_aggregate_expr(ae: &LogicalExpr) -> (r: LogicalExprNode)
    requires
        sendable_aggregate(ae@),
    ensures
        r@ == aggregate_message(ae@),
{
    match ae {
        LogicalExpr::AggregateFunction { func, args, distinct } => {
            proof {
                logical_plan::values_of_each(args@);
            }
            let inner = serialize_logical_expr(&args[0]);
            let aggr_function = match (*func, *distinct) {
                (AggregateFunction::Sum, _) => AggregateFunctionTag::Sum,
                (AggregateFunction::Min, _) => AggregateFunctionTag::Min,
                (AggregateFunction::Max, _) => AggregateFunctionTag::Max,
                (AggregateFunction::Avg, _) => AggregateFunctionTag::Avg,
                (AggregateFunction::Count, false) => AggregateFunctionTag::Count,
                (AggregateFunction::Count, true) => AggregateFunctionTag::CountDistinct,
            };
            LogicalExprNode {
                expr_type: Some(
                    LogicalExprType::AggregateExpr {
                        aggr_function,
                        expr: Some(Box::new(inner)),
                    },
                ),
            }
        },
        _ => vstd::pervasive::unreached(),
    }
}

fn serialize_logical_aggregates(list: &Vec<LogicalExpr>) -> (r: Vec<LogicalExprNode>)
    requires
        sendable_aggregates(logical_plan::values(list@)),
    ensures
        messages::logical_expr_models(r@) == aggregates_message(logical_plan::values(list@)),
{
    proof {
        logical_plan::values_of_each(list@);
    }
    let ghost all = logical_plan::values(list@);
    let mut r: Vec<LogicalExprNode> = Vec::new();
    let mut i: usize = 0;
    while i < list.len()
        invariant
            sendable_aggregates(all),
            all.len() == list@.len(),
            forall|j: int| 0 <= j < list@.len() ==> (#[trigger] all[j]) == list@[j].value(),
            i <= list.len(),
            r.len() == i,
            forall|j: int| 0 <= j < i ==> (#[trigger] r@[j])@ == aggregate_message(all[j]),
        decreases list.len() - i,
    {
        assert(sendable_aggregate(all[i as int]));
        r.push(serialize_logical_aggregate_expr(&list[i]));
        i += 1;
    }
    assert(messages::logical_expr_models(r@) == aggregates_message(all));
    r
}

/// How a join pairs rows in messages, if it has a form there.
pub open spec fn join_tag(join_type: JoinType) -> Option<JoinTypeTag> {
    match join_type {
        JoinType::Inner => Some(JoinTypeTag::Inner),
        JoinType::Left => Some(JoinTypeTag::Left),
        JoinType::Right => Some(JoinTypeTag::Right),
        _ => None,
    }
}

/// How a join pairs rows in messages.
pub fn join_type_to_proto(join_type: JoinType) -> (r: JoinTypeTag)
    requires
        join_tag(join_type) is Some,
    ensures
        join_tag(join_type) == Some(r),
{
    match join_type {
        JoinType::Inner => JoinTypeTag::Inner,
        JoinType::Left => JoinTypeTag::Left,
        _ => JoinTypeTag::Right,
    }
}

/// Whether a plan has a form in messages.
pub open spec fn sendable_logical_plan(plan: LogicalPlanValue) -> bool
    decreases plan,
{
    match plan {
        LogicalPlanValue::TableScan { path, source, projection } => source != TableSource::Other,
        LogicalPlanValue::Projection { input, expr } => sendable_logical_plan(*input)
            && sendable_logical_exprs(expr),
        LogicalPlanValue::Filter { input, expr } => sendable_logical_plan(*input)
            && sendable_logical_expr(expr),
        LogicalPlanValue::Limit { input, limit } => sendable_logical_plan(*input),
        LogicalPlanValue::Aggregate { input, group_expr, aggregate_expr } => sendable_logical_plan(
            *input,
        ) && sendable_logical_exprs(group_expr) && sendable_aggregates(aggregate_expr),
        LogicalPlanValue::Join { left, right, join_type, on } => sendable_logical_plan(*left)
            && sendable_logical_plan(*right) && join_tag(join_type) is Some,
    }
}

/// The bits of a limit, as an unsigned number.
pub open spec fn limit_bits(limit: i32) -> int {
    if limit >= 0 {
        limit as int
    } else {
        limit + 0x1_0000_0000
    }
}

/// The names of a projection that may be absent.
pub open spec fn opt_names(projection: Option<Vec<String>>) -> Option<Seq<Seq<char>>> {
    match projection {
        Some(names) => Some(text::views(names@)),
        None => None,
    }
}

/// Whether nothing is set but what says that the plan is one of the given kinds.
pub open spec fn sets_only(
    node: LogicalPlanNode,
    input: bool,
    csv_scan: bool,
    parquet_scan: bool,
    selection: bool,
    projection: bool,
    limit: bool,
    aggregate: bool,
    join: bool,
) -> bool {
    &&& node.input is Some == input
    &&& node.csv_scan is Some == csv_scan
    &&& node.parquet_scan is Some == parquet_scan
    &&& node.selection is Some == selection
    &&& node.projection is Some == projection
    &&& node.limit is Some == limit
    &&& node.aggregate is Some == aggregate
    &&& node.join is Some == join
}

/// Whether a message is the form of a plan.
pub open spec fn sends(node: LogicalPlanNode, plan: LogicalPlanValue) -> bool
    decreases plan,
{
    match plan {
        LogicalPlanValue::TableScan { path, source, projection } => match source {
            TableSource::Csv { has_headers, .. } => sets_only(
                node,
                false,
                true,
                false,
                false,
                false,
                false,
                false,
                false,
            ) && node.csv_scan.unwrap().path@ == path && opt_names(
                node.csv_scan.unwrap().projection,
            ) == Some(projection) && node.csv_scan.unwrap().has_header == has_headers,
            TableSource::Parquet => sets_only(
                node,
                false,
                false,
                true,
                false,
                false,
                false,
                false,
                false,
            ) && node.parquet_scan.unwrap().path@ == path && opt_names(
                node.parquet_scan.unwrap().projection,
            ) == Some(projection),
            TableSource::Other => false,
        },
        LogicalPlanValue::Projection { input, expr } => sets_only(
            node,
            true,
            false,
            false,
            false,
            true,
            false,
            false,
            false,
        ) && sends(*node.input.unwrap(), *input) && messages::logical_expr_models(
            node.projection.unwrap().expr@,
        ) == logical_exprs_message(expr),
        LogicalPlanValue::Filter { input, expr } => sets_only(
            node,
            true,
            false,
            false,
            true,
            false,
            false,
            false,
            false,
        ) && sends(*node.input.unwrap(), *input) && (node.selection.unwrap().expr matches Some(e)
            && e@ == logical_expr_message(expr)),
        LogicalPlanValue::Limit { input, limit } => sets_only(
            node,
            true,
            false,
            false,
            false,
            false,
            true,
            false,
            false,
        ) && sends(*node.input.unwrap(), *input) && node.limit.unwrap().limit == limit_bits(limit),
        LogicalPlanValue::Aggregate { input, group_expr, aggregate_expr } => sets_only(
            node,
            true,
            false,
            false,
            false,
            false,
            false,
            true,
            false,
        ) && sends(*node.input.unwrap(), *input) && messages::logical_expr_models(
            node.aggregate.unwrap().group_expr@,
        ) == logical_exprs_message(group_expr) && messages::logical_expr_models(
            node.aggregate.unwrap().aggr_expr@,
        ) == aggregates_message(aggregate_expr),
        LogicalPlanValue::Join { left, right, join_type, on } => sets_only(
            node,
            false,
            false,
            false,
            false,
            false,
            false,
            false,
            true,
        ) && (node.join.unwrap().left matches Some(l) && sends(*l, *left)) && (
        node.join.unwrap().right matches Some(r) && sends(*r, *right)) && Some(
            node.join.unwrap().join_type,
        ) == join_tag(join_type) && text::views(node.join.unwrap().left_join_column@) == Seq::new(
            on.len(),
            |i: int| on[i].0,
        ) && text::views(node.join.unwrap().right_join_column@) == Seq::new(
            on.len(),
            |i: int| on[i].1,
        ),
    }
}

fn copy_names(names: &Vec<String>) -> (r: Vec<String>)
    ensures
        text::views(r@) == text::views(names@),
{
    let mut r: Vec<String> = Vec::new();
    let mut i: usize = 0;
    while i < names.len()
        invariant
            i <= names.len(),
            r.len() == i,
            forall|j: int| 0 <= j < i ==> (#[trigger] r@[j])@ == names@[j]@,
        decreases names.len() - i,
    {
        r.push(names[i].clone());
        i += 1;
    }
    assert(text::views(r@) == text::views(names@));
    r
}

fn limit_to_wire(limit: i32) -> (r: u32)
    ensures
        r == limit_bits(limit),
{
    if limit >= 0 {
        limit as u32
    } else {
        (limit as i64 + 0x1_0000_0000) as u32
    }
}

fn join_columns(on: &Vec<(String, String)>) -> (r: (Vec<String>, Vec<String>))
    ensures
        text::views(r.0@) == Seq::new(on@.len(), |i: int| on@[i].0@),
        text::views(r.1@) == Seq::new(on@.len(), |i: int| on@[i].1@),
{
    let mut left: Vec<String> = Vec::new();
    let mut right: Vec<String> = Vec::new();
    let mut i: usize = 0;
    while i < on.len()
        invariant
            i <= on.len(),
            left.len() == i,
            right.len() == i,
            forall|j: int| 0 <= j < i ==> (#[trigger] left@[j])@ == on@[j].0@,
            forall|j: int| 0 <= j < i ==> (#[trigger] right@[j])@ == on@[j].1@,
        decreases on.len() - i,
    {
        left.push(on[i].0.clone());
        right.push(on[i].1.clone());
        i += 1;
    }
    assert(text::views(left@) == Seq::new(on@.len(), |i: int| on@[i].0@));
    assert(text::views(right@) == Seq::new(on@.len(), |i: int| on@[i].1@));
    (left, right)
}

/// A plan as a message.
pub fn serialize_logical_plan(plan: &LogicalPlan) -> (r: LogicalPlanNode)
    requires
        sendable_logical_plan(plan@),
    ensures
        sends(r, plan@),
    decreases plan,
{
    let mut node = LogicalPlanNode::empty();
    match plan {
        LogicalPlan::TableScan { path, source, projection } => match source {
            TableSource::Csv { has_headers, .. } => {
                node.csv_scan = Some(
                    CsvTableScanNode {
                        path: path.clone(),
                        projection: Some(copy_names(projection)),
                        has_header: *has_headers,
                    },
                );
            },
            TableSource::Parquet => {
                node.parquet_scan = Some(
                    ParquetTableScanNode {
                        path: path.clone(),
                        projection: Some(copy_names(projection)),
                    },
                );
            },
            TableSource::Other => {},
        },
        LogicalPlan::Projection { input, expr } => {
            let below = serialize_logical_plan(input);
            node.input = Some(Box::new(below));
            node.projection = Some(ProjectionNode { expr: serialize_logical_exprs(expr) });
        },
        LogicalPlan::Filter { input, expr } => {
            let below = serialize_logical_plan(input);
            node.input = Some(Box::new(below));
            node.selection = Some(FilterNode { expr: Some(serialize_logical_expr(expr)) });
        },
        LogicalPlan::Limit { input, limit } => {
            let below = serialize_logical_plan(input);
            node.input = Some(Box::new(below));
            node.limit = Some(LimitNode { limit: limit_to_wire(*limit) });
        },
        LogicalPlan::Aggregate { input, group_expr, aggregate_expr } => {
            let below = serialize_logical_plan(input);
            node.input = Some(Box::new(below));
            node.aggregate = Some(
                AggregateNode {
                    group_expr: serialize_logical_exprs(group_expr),
                    aggr_expr: serialize_logical_aggregates(aggregate_expr),
                },
            );
        },
        LogicalPlan::Join { left, right, join_type, on } => {
            let l = serialize_logical_plan(left);
            let r = serialize_logical_plan(right);
            let (left_join_column, right_join_column) = join_columns(on);
            proof {
                let pairs = logical_plan::name_pairs(on@);
                assert(Seq::new(on@.len(), |i: int| on@[i].0@) == Seq::new(
                    pairs.len(),
                    |i: int| pairs[i].0,
                ));
                assert(Seq::new(on@.len(), |i: int| on@[i].1@) == Seq::new(
                    pairs.len(),
                    |i: int| pairs[i].1,
                ));
            }
            node.join = Some(
                Box::new(
                    JoinNode {
                        left: Some(Box::new(l)),
                        right: Some(Box::new(r)),
                        join_type: join_type_to_proto(*join_type),
                        left_join_column,
                        right_join_column,
                    },
                ),
            );
        },
    }
    node
}

} // verus!
