//! Logical plans, schemas and requests out of messages.
use vstd::prelude::*;
use crate::aggregates::AggregateFunction;
use crate::logical_plan::{
    LogicalExpr, LogicalExprValue, LogicalPlan, LogicalPlanValue, QueryAction, TableSource,
};
use crate::proto::messages::{
    ActionMessage, AggregateFunctionTag, FieldMessage, LogicalExprModel, LogicalExprNode,
    LogicalExprType, LogicalPlanNode, SchemaMessage,
};
use crate::proto::operators::{from_proto_arrow_type, operator_from_wire};
use crate::scalar::{Scalar, ScalarValue};
use crate::schema::{Field, Schema};
use crate::proto::{messages, operators};
use crate::{logical_plan, text};

verus! {

/// The field that a message gives.
pub fn deserialize_field(field: &FieldMessage) -> (r: Field)
    requires
        operators::column_type(field@.arrow_type) is Some,
    ensures
        r@ == operators::read_field(field@),
{
    Field::new(field.name.as_str(), from_proto_arrow_type(field.arrow_type), true)
}

/// The schema that a message gives.
pub fn deserialize_schema(schema: &SchemaMessage) -> (r: Schema)
    requires
        operators::readable_schema(schema@),
    ensures
        r@ == operators::read_schema(schema@),
{
    let mut fields: Vec<Field> = Vec::new();
    let mut i: usize = 0;
    while i < schema.columns.len()
        invariant
            operators::readable_schema(schema@),
            i <= schema.columns.len(),
            fields.len() == i,
            forall|j: int|
                0 <= j < i ==> (#[trigger] fields@[j])@ == operators::read_field(schema@[j]),
        decreases schema.columns.len() - i,
    {
        assert(operators::column_type(schema@[i as int].arrow_type) is Some);
        fields.push(deserialize_field(&schema.columns[i]));
        i += 1;
    }
    let r = Schema::new(fields);
    assert(r@ == operators::read_schema(schema@));
    r
}

/// The function that a message names and whether it sees different values alone,
/// if there is one.
pub open spec fn logical_function(tag: AggregateFunctionTag) -> Option<(AggregateFunction, bool)> {
    match tag {
        AggregateFunctionTag::Min => Some((AggregateFunction::Min, false)),
        AggregateFunctionTag::Max => Some((AggregateFunction::Max, false)),
        AggregateFunctionTag::Sum => Some((AggregateFunction::Sum, false)),
        AggregateFunctionTag::Avg => Some((AggregateFunction::Avg, false)),
        AggregateFunctionTag::Count => Some((AggregateFunction::Count, false)),
        AggregateFunctionTag::CountDistinct => Some((AggregateFunction::Count, true)),
        AggregateFunctionTag::Other(_) => None,
    }
}

/// Whether an expression can be read from a message: all parts are set, operators
/// and functions have names here, and it is no test for null and no negation.
pub open spec fn readable_logical_expr(m: LogicalExprModel) -> bool
    decreases m,
{
    match m {
        LogicalExprModel::Unset => false,
        LogicalExprModel::Alias { expr, alias } => expr matches Some(e) && readable_logical_expr(*e),
        LogicalExprModel::BinaryExpr { l, r, op } => (l matches Some(a) && readable_logical_expr(*a))
            && (r matches Some(b) && readable_logical_expr(*b)) && operators::named_operator(op) is Some,
        LogicalExprModel::AggregateExpr { aggr_function, expr } => (expr matches Some(e)
            && readable_logical_expr(*e)) && logical_function(aggr_function) is Some,
        LogicalExprModel::IsNullExpr => false,
        LogicalExprModel::IsNotNullExpr => false,
        LogicalExprModel::NotExpr => false,
        _ => true,
    }
}

/// The signed number with the bits of an unsigned one.
pub open spec fn signed(n: u64) -> int {
    if n <= i64::MAX {
        n as int
    } else {
        n - 0x1_0000_0000_0000_0000
    }
}

/// The expression that a message gives. Every whole number becomes one of 64
/// bits.
pub open spec fn read_logical_expr(m: LogicalExprModel) -> LogicalExprValue
    decreases m,
{
    match m {
        LogicalExprModel::ColumnName(name) => LogicalExprValue::Column(name),
        LogicalExprModel::LiteralString(s) => LogicalExprValue::Literal(Scalar::Utf8(s)),
        LogicalExprModel::LiteralInt8(n) => LogicalExprValue::Literal(Scalar::Int64(n as i64)),
        LogicalExprModel::LiteralInt16(n) => LogicalExprValue::Literal(Scalar::Int64(n as i64)),
        LogicalExprModel::LiteralInt32(n) => LogicalExprValue::Literal(Scalar::Int64(n as i64)),
        LogicalExprModel::LiteralInt64(n) => LogicalExprValue::Literal(Scalar::Int64(n)),
        LogicalExprModel::LiteralUint8(n) => LogicalExprValue::Literal(Scalar::Int64(n as i64)),
        LogicalExprModel::LiteralUint16(n) => LogicalExprValue::Literal(Scalar::Int64(n as i64)),
        LogicalExprModel::LiteralUint32(n) => LogicalExprValue::Literal(Scalar::Int64(n as i64)),
        LogicalExprModel::LiteralUint64(n) => LogicalExprValue::Literal(
            Scalar::Int64(signed(n) as i64),
        ),
        LogicalExprModel::LiteralF32(n) => LogicalExprValue::Literal(Scalar::Float32(n)),
        LogicalExprModel::LiteralF64(n) => LogicalExprValue::Literal(Scalar::Float64(n)),
        LogicalExprModel::LiteralDate(d) => LogicalExprValue::Literal(Scalar::Date32(d)),
        LogicalExprModel::Alias { expr, alias } => match expr {
            Some(e) => LogicalExprValue::Alias { expr: Box::new(read_logical_expr(*e)), alias },
            None => LogicalExprValue::Other(seq![]),
        },
        LogicalExprModel::BinaryExpr { l, r, op } => match (l, r) {
            (Some(a), Some(b)) => LogicalExprValue::BinaryExpr {
                left: Box::new(read_logical_expr(*a)),
                op: operators::named_operator(op).unwrap(),
                right: Box::new(read_logical_expr(*b)),
            },
            _ => LogicalExprValue::Other(seq![]),
        },
        LogicalExprModel::AggregateExpr { aggr_function, expr } => match expr {
            Some(e) => LogicalExprValue::AggregateFunction {
                func: logical_function(aggr_function).unwrap().0,
                args: seq![read_logical_expr(*e)],
                distinct: logical_function(aggr_function).unwrap().1,
            },
            None => LogicalExprValue::Other(seq![]),
        },
        _ => LogicalExprValue::Other(seq![]),
    }
}

fn signed_of(n: u64) -> (r: i64)
    ensures
        r == signed(n),
{
    if n <= 0x7fff_ffff_ffff_ffff {
        n as i64
    } else {
        (n as i128 - 0x1_0000_0000_0000_0000) as i64
    }
}

/// The expression that a message gives.
pub fn deserialize_logical_expr(node: &LogicalExprNode) -> (r: LogicalExpr)
    requires
        readable_logical_expr(node@),
    ensures
        r@ == read_logical_expr(node@),
    decreases node,
{
    match &node.expr_type {
        Some(LogicalExprType::ColumnName(name)) => LogicalExpr::Column(name.clone()),
        Some(LogicalExprType::LiteralString(s)) => LogicalExpr::Literal(
            ScalarValue::Utf8(s.clone()),
        ),
        Some(LogicalExprType::LiteralInt8(n)) => LogicalExpr::Literal(
            ScalarValue::Int64(*n as i64),
        ),
        Some(LogicalExprType::LiteralInt16(n)) => LogicalExpr::Literal(
            ScalarValue::Int64(*n as i64),
        ),
        Some(LogicalExprType::LiteralInt32(n)) => LogicalExpr::Literal(
            ScalarValue::Int64(*n as i64),
        ),
        Some(LogicalExprType::LiteralInt64(n)) => LogicalExpr::Literal(ScalarValue::Int64(*n)),
        Some(LogicalExprType::LiteralUint8(n)) => LogicalExpr::Literal(
            ScalarValue::Int64(*n as i64),
        ),
        Some(LogicalExprType::LiteralUint16(n)) => LogicalExpr::Literal(
            ScalarValue::Int64(*n as i64),
        ),
        Some(LogicalExprType::LiteralUint32(n)) => LogicalExpr::Literal(
            ScalarValue::Int64(*n as i64),
        ),
        Some(LogicalExprType::LiteralUint64(n)) => LogicalExpr::Literal(
            ScalarValue::Int64(signed_of(*n)),
        ),
        Some(LogicalExprType::LiteralF32(n)) => LogicalExpr::Literal(ScalarValue::Float32(*n)),
        Some(LogicalExprType::LiteralF64(n)) => LogicalExpr::Literal(ScalarValue::Float64(*n)),
        Some(LogicalExprType::LiteralDate(d)) => LogicalExpr::Literal(ScalarValue::Date32(*d)),
        Some(LogicalExprType::Alias { expr: Some(e), alias }) => {
            let inner = deserialize_logical_expr(e);
            LogicalExpr::Alias { expr: Box::new(inner), alias: alias.clone() }
        },
        Some(LogicalExprType::BinaryExpr { l: Some(a), r: Some(b), op }) => {
            let left = deserialize_logical_expr(a);
            let right = deserialize_logical_expr(b);
            match operator_from_wire(op) {
                Some(operator) => LogicalExpr::BinaryExpr {
                    left: Box::new(left),
                    op: operator,
                    right: Box::new(right),
                },
                None => vstd::pervasive::unreached(),
            }
        },
        Some(LogicalExprType::AggregateExpr { aggr_function, expr: Some(e) }) => {
            let inner = deserialize_logical_expr(e);
            let ghost value = inner@;
            let (func, distinct) = match *aggr_function {
                AggregateFunctionTag::Min => (AggregateFunction::Min, false),
                AggregateFunctionTag::Max => (AggregateFunction::Max, false),
                AggregateFunctionTag::Sum => (AggregateFunction::Sum, false),
                AggregateFunctionTag::Avg => (AggregateFunction::Avg, false),
                AggregateFunctionTag::Count => (AggregateFunction::Count, false),
                _ => (AggregateFunction::Count, true),
            };
            let mut args: Vec<LogicalExpr> = Vec::new();
            args.push(inner);
            proof {
                logical_plan::values_of_each(args@);
                assert(logical_plan::values(args@) == seq![value]);
            }
            LogicalExpr::AggregateFunction { func, args, distinct }
        },
        _ => vstd::pervasive::unreached(),
    }
}

/// Whether every expression can be read.
pub open spec fn readable_logical_exprs(list: Seq<LogicalExprModel>) -> bool {
    forall|i: int| 0 <= i < list.len() ==> readable_logical_expr(#[trigger] list[i])
}

/// The expressions that messages give.
pub open spec fn read_logical_exprs(list: Seq<LogicalExprModel>) -> Seq<LogicalExprValue> {
    Seq::new(list.len(), |i: int| read_logical_expr(list[i]))
}

fn deserialize_logical_exprs(list: &Vec<LogicalExprNode>) -> (r: Vec<LogicalExpr>)
    requires
        readable_logical_exprs(messages::logical_expr_models(list@)),
    ensures
        logical_plan::values(r@) == read_logical_exprs(messages::logical_expr_models(list@)),
{
    let ghost all = messages::logical_expr_models(list@);
    let mut r: Vec<LogicalExpr> = Vec::new();
    let mut i: usize = 0;
    while i < list.len()
        invariant
            all == messages::logical_expr_models(list@),
            readable_logical_exprs(all),
            i <= list.len(),
            r.len() == i,
            forall|j: int| 0 <= j < i ==> (#[trigger] r@[j]).value() == read_logical_expr(all[j]),
        decreases list.len() - i,
    {
        assert(readable_logical_expr(all[i as int]));
        r.push(deserialize_logical_expr(&list[i]));
        i += 1;
    }
    proof {
        logical_plan::values_of_each(r@);
        assert(logical_plan::values(r@) == read_logical_exprs(all));
    }
    r
}

/// The names that a message gives; none where they are absent.
pub open spec fn read_names(projection: Option<Vec<String>>) -> Seq<Seq<char>> {
    match projection {
        Some(names) => text::views(names@),
        None => seq![],
    }
}

fn deserialize_names(projection: &Option<Vec<String>>) -> (r: Vec<String>)
    ensures
        text::views(r@) == read_names(*projection),
{
    let mut r: Vec<String> = Vec::new();
    if let Some(names) = projection {
        let mut i: usize = 0;
        while i < names.len()
            invariant
                i <= names.len(),
                r.len() == i,
                forall|j: int| 0 <= j < i ==> (#[trigger] r@[j])@ == names@[j]@,
            decreases names.len() - i,
        {
            r.push(names[i].clone());
            i += 1;
        }
    }
    assert(text::views(r@) == read_names(*projection));
    r
}

/// Whether every message gives an aggregate.
pub open spec fn all_aggregates(list: Seq<LogicalExprModel>) -> bool {
    forall|i: int| 0 <= i < list.len() ==> (#[trigger] list[i]) is AggregateExpr
}

/// Whether a plan can be read from a message: the first part that is set, in the
/// order of scans, filter, projection, limit and aggregation, says what the plan
/// is; all that belongs to it is set and can be read.
pub open spec fn readable_logical_plan(node: LogicalPlanNode) -> bool
    decreases node,
{
    let below = node.input matches Some(i) && readable_logical_plan(*i);
    if node.csv_scan is Some || node.parquet_scan is Some {
        true
    } else if node.selection is Some {
        below && (node.selection.unwrap().expr matches Some(e) && readable_logical_expr(e@))
    } else if node.projection is Some {
        below && readable_logical_exprs(
            messages::logical_expr_models(node.projection.unwrap().expr@),
        )
    } else if node.limit is Some {
        below
    } else if node.aggregate is Some {
        below && readable_logical_exprs(
            messages::logical_expr_models(node.aggregate.unwrap().group_expr@),
        ) && readable_logical_exprs(
            messages::logical_expr_models(node.aggregate.unwrap().aggr_expr@),
        ) && all_aggregates(messages::logical_expr_models(node.aggregate.unwrap().aggr_expr@))
    } else {
        false
    }
}

/// The limit with the bits of an unsigned number.
pub open spec fn read_limit(n: u32) -> int {
    if n <= i32::MAX {
        n as int
    } else {
        n - 0x1_0000_0000
    }
}

/// The plan that a message gives. A file of comma-separated values is read in
/// batches of 1024 rows.
pub open spec fn read_logical_plan(node: LogicalPlanNode) -> LogicalPlanValue
    decreases node,
{
    if node.csv_scan is Some {
        let scan = node.csv_scan.unwrap();
        LogicalPlanValue::TableScan {
            path: scan.path@,
            source: TableSource::Csv { has_headers: scan.has_header, batch_size: 1024 },
            projection: read_names(scan.projection),
        }
    } else if node.parquet_scan is Some {
        let scan = node.parquet_scan.unwrap();
        LogicalPlanValue::TableScan {
            path: scan.path@,
            source: TableSource::Parquet,
            projection: read_names(scan.projection),
        }
    } else {
        match node.input {
            Some(i) => {
                let input = Box::new(read_logical_plan(*i));
                if node.selection is Some {
                    LogicalPlanValue::Filter {
                        input,
                        expr: read_logical_expr(node.selection.unwrap().expr.unwrap()@),
                    }
                } else if node.projection is Some {
                    LogicalPlanValue::Projection {
                        input,
                        expr: read_logical_exprs(
                            messages::logical_expr_models(node.projection.unwrap().expr@),
                        ),
                    }
                } else if node.limit is Some {
                    LogicalPlanValue::Limit {
                        input,
                        limit: read_limit(node.limit.unwrap().limit) as i32,
                    }
                } else {
                    LogicalPlanValue::Aggregate {
                        input,
                        group_expr: read_logical_exprs(
                            messages::logical_expr_models(node.aggregate.unwrap().group_expr@),
                        ),
                        aggregate_expr: read_logical_exprs(
                            messages::logical_expr_models(node.aggregate.unwrap().aggr_expr@),
                        ),
                    }
                }
            },
            None => LogicalPlanValue::TableScan {
                path: seq![],
                source: TableSource::Other,
                projection: seq![],
            },
        }
    }
}

fn limit_from_wire(n: u32) -> (r: i32)
    ensures
        r == read_limit(n),
{
    if n <= 0x7fff_ffff {
        n as i32
    } else {
        (n as i64 - 0x1_0000_0000) as i32
    }
}

/// The plan that a message gives.
pub fn deserialize_logical_plan(node: &LogicalPlanNode) -> (r: LogicalPlan)
    requires
        readable_logical_plan(*node),
    ensures
        r@ == read_logical_plan(*node),
    decreases node,
{
    if let Some(scan) = &node.csv_scan {
        return LogicalPlan::TableScan {
            path: scan.path.clone(),
            source: TableSource::Csv { has_headers: scan.has_header, batch_size: 1024 },
            projection: deserialize_names(&scan.projection),
        };
    }
    if let Some(scan) = &node.parquet_scan {
        return LogicalPlan::TableScan {
            path: scan.path.clone(),
            source: TableSource::Parquet,
            projection: deserialize_names(&scan.projection),
        };
    }
    let input: Box<LogicalPlan> = match &node.input {
        Some(i) => Box::new(deserialize_logical_plan(i)),
        None => vstd::pervasive::unreached(),
    };
    if let Some(filter) = &node.selection {
        match &filter.expr {
            Some(e) => {
                let expr = deserialize_logical_expr(e);
                return LogicalPlan::Filter { input, expr };
            },
            None => {},
        }
        return vstd::pervasive::unreached();
    }
    if let Some(projection) = &node.projection {
        let expr = deserialize_logical_exprs(&projection.expr);
        return LogicalPlan::Projection { input, expr };
    }
    if let Some(limit) = &node.limit {
        return LogicalPlan::Limit { input, limit: limit_from_wire(limit.limit) };
    }
    match &node.aggregate {
        Some(aggregate) => {
            let group_expr = deserialize_logical_exprs(&aggregate.group_expr);
            let aggregate_expr = deserialize_logical_exprs(&aggregate.aggr_expr);
            LogicalPlan::Aggregate { input, group_expr, aggregate_expr }
        },
        None => vstd::pervasive::unreached(),
    }
}

/// The request that a message gives: a query.
pub fn deserialize_action(action: &ActionMessage) -> (r: QueryAction)
    requires
        action.query matches Some(query) && readable_logical_plan(query),
    ensures
        action.query matches Some(query) && r.plan@ == read_logical_plan(query),
{
    match &action.query {
        Some(query) => QueryAction::new(deserialize_logical_plan(query)),
        None => vstd::pervasive::unreached(),
    }
}

} // verus!
