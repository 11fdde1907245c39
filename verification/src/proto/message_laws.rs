//! What messages hold, part by part, and what of a plan comes back.
use vstd::prelude::*;
use std::sync::Arc;
use crate::aggregates;
use crate::aggregates::{AggregateExpr, AggregateFunction, AggregateMode};
use crate::data_source_exec::DataSource;
use crate::expr;
use crate::expr::{Expr, Operator, PhysicalExpr};
use crate::join_table::JoinType;
use crate::logical_plan::{LogicalExprValue, LogicalPlanValue};
use crate::plan::ExecutionPlan;
use crate::proto::messages::{
    AggregateFunctionTag, AggregateModeTag, ArrowType, FieldMessageModel, JoinTypeTag,
    LogicalExprModel, LogicalPlanNode, PhysicalExprModel,
};
use crate::proto::operators;
use crate::proto::physical_plan_deserializer;
use crate::proto::physical_plan_serializer;
use crate::proto::protobuf_deserializer;
use crate::proto::protobuf_serializer;
use crate::proto::round_trip;
use crate::scalar::Scalar;
use crate::schema::{DataType, FieldModel};
use crate::text;

verus! {

/// The name of every operator on the wire, and that no other operator has it.
pub proof fn operators_have_their_names(a: Operator, b: Operator)
    ensures
        operators::operator_name(Operator::Eq) == "eq"@,
        operators::operator_name(Operator::NotEq) == "neq"@,
        operators::operator_name(Operator::Lt) == "lt"@,
        operators::operator_name(Operator::LtEq) == "lteq"@,
        operators::operator_name(Operator::Gt) == "gt"@,
        operators::operator_name(Operator::GtEq) == "gteq"@,
        operators::operator_name(Operator::And) == "and"@,
        operators::operator_name(Operator::Or) == "or"@,
        operators::operator_name(Operator::Plus) == "add"@,
        operators::operator_name(Operator::Minus) == "subtract"@,
        operators::operator_name(Operator::Multiply) == "multiply"@,
        operators::operator_name(Operator::Divide) == "divide"@,
        operators::operator_name(Operator::Modulo) == "modulus"@,
        operators::operator_name(a) == operators::operator_name(b) ==> a == b,
{
    operators::operator_names_read_back(a);
    operators::operator_names_read_back(b);
}

/// The number of bits of a whole number of a type, and whether it has a sign.
pub open spec fn whole_number(t: DataType) -> Option<(int, bool)> {
    match t {
        DataType::Int8 => Some((8, true)),
        DataType::Int16 => Some((16, true)),
        DataType::Int32 => Some((32, true)),
        DataType::Int64 => Some((64, true)),
        DataType::UInt8 => Some((8, false)),
        DataType::UInt16 => Some((16, false)),
        DataType::UInt32 => Some((32, false)),
        DataType::UInt64 => Some((64, false)),
        _ => None,
    }
}

/// The same of a type in messages.
pub open spec fn whole_number_message(t: ArrowType) -> Option<(int, bool)> {
    match t {
        ArrowType::Int8 => Some((8, true)),
        ArrowType::Int16 => Some((16, true)),
        ArrowType::Int32 => Some((32, true)),
        ArrowType::Int64 => Some((64, true)),
        ArrowType::Uint8 => Some((8, false)),
        ArrowType::Uint16 => Some((16, false)),
        ArrowType::Uint32 => Some((32, false)),
        ArrowType::Uint64 => Some((64, false)),
        _ => None,
    }
}

/// A type is sent as the type of the same values: whole numbers of the same size
/// and sign, single precision as float, double precision as double, and the
/// others under their names.
pub proof fn types_are_sent_as_themselves(t: DataType)
    ensures
        whole_number(t) is Some ==> operators::message_type(t) is Some && whole_number_message(
            operators::message_type(t).unwrap(),
        ) == whole_number(t),
        operators::message_type(DataType::Boolean) == Some(ArrowType::Bool),
        operators::message_type(DataType::Float32) == Some(ArrowType::Float),
        operators::message_type(DataType::Float64) == Some(ArrowType::Double),
        operators::message_type(DataType::Utf8) == Some(ArrowType::Utf8),
        operators::message_type(DataType::Date32) == Some(ArrowType::Date32),
        t is Null || t is Binary || t is Other ==> operators::message_type(t) is None,
{
}

/// The message of a schema has a part for every field, with its name and its
/// type, in order; every field is sent and read as nullable.
pub proof fn a_schema_is_sent_field_by_field(schema: Seq<FieldModel>, message: Seq<FieldMessageModel>, i: int)
    ensures
        operators::schema_message(schema).len() == schema.len(),
        0 <= i < schema.len() && operators::message_type(schema[i].data_type) is Some ==> {
            &&& operators::schema_message(schema)[i].name == schema[i].name
            &&& operators::message_type(schema[i].data_type) == Some(
                operators::schema_message(schema)[i].arrow_type,
            )
            &&& operators::schema_message(schema)[i].nullable
        },
        operators::read_schema(message).len() == message.len(),
        0 <= i < message.len() && operators::column_type(message[i].arrow_type) is Some ==> {
            &&& operators::read_schema(message)[i].name == message[i].name
            &&& operators::column_type(message[i].arrow_type) == Some(
                operators::read_schema(message)[i].data_type,
            )
            &&& operators::read_schema(message)[i].nullable
        },
{
}

/// The message of an expression holds the name and position of a column, the
/// value of a constant, the operands of an operator on their sides, and the type
/// of a cast.
pub proof fn an_expression_is_sent_part_by_part(
    name: Seq<char>,
    index: usize,
    l: Expr,
    op: Operator,
    r: Expr,
    t: DataType,
    long: i64,
    double: u64,
    s: Seq<char>,
    date: i32,
)
    ensures
        index <= u32::MAX ==> (physical_plan_serializer::expr_message(
            Expr::Column { name, index },
        ) matches PhysicalExprModel::Column { name: n, index: at } && n == name && at == index),
        physical_plan_serializer::expr_message(
            Expr::Binary { left: Box::new(l), op, right: Box::new(r) },
        ) matches PhysicalExprModel::BinaryExpr { l: Some(a), r: Some(b), op: named } && *a
            == physical_plan_serializer::expr_message(l) && *b
            == physical_plan_serializer::expr_message(r) && operators::named_operator(named)
            == Some(op),
        operators::message_type(t) is Some ==> (physical_plan_serializer::expr_message(
            Expr::Cast { expr: Box::new(l), data_type: t },
        ) matches PhysicalExprModel::CastExpr { expr: Some(e), arrow_type } && *e
            == physical_plan_serializer::expr_message(l) && operators::message_type(t) == Some(
            arrow_type,
        )),
        physical_plan_serializer::expr_message(Expr::Literal { value: Scalar::Int64(long) })
            == PhysicalExprModel::LiteralLong(long),
        physical_plan_serializer::expr_message(Expr::Literal { value: Scalar::Float64(double) })
            == PhysicalExprModel::LiteralDouble(double),
        physical_plan_serializer::expr_message(Expr::Literal { value: Scalar::Utf8(s) })
            == PhysicalExprModel::LiteralString(s),
        physical_plan_serializer::expr_message(Expr::Literal { value: Scalar::Date32(date) })
            == PhysicalExprModel::LiteralDate(date),
{
    operators::operator_names_read_back(op);
}

/// Functions, modes and kinds of joins are sent under their own names.
pub proof fn functions_modes_and_joins_are_sent_as_themselves(distinct: bool)
    ensures
        physical_plan_serializer::function_tag(AggregateFunction::Sum) == AggregateFunctionTag::Sum,
        physical_plan_serializer::function_tag(AggregateFunction::Min) == AggregateFunctionTag::Min,
        physical_plan_serializer::function_tag(AggregateFunction::Max) == AggregateFunctionTag::Max,
        physical_plan_serializer::function_tag(AggregateFunction::Avg) == AggregateFunctionTag::Avg,
        physical_plan_serializer::function_tag(AggregateFunction::Count)
            == AggregateFunctionTag::Count,
        protobuf_serializer::logical_function_tag(AggregateFunction::Sum, distinct)
            == AggregateFunctionTag::Sum,
        protobuf_serializer::logical_function_tag(AggregateFunction::Min, distinct)
            == AggregateFunctionTag::Min,
        protobuf_serializer::logical_function_tag(AggregateFunction::Max, distinct)
            == AggregateFunctionTag::Max,
        protobuf_serializer::logical_function_tag(AggregateFunction::Avg, distinct)
            == AggregateFunctionTag::Avg,
        protobuf_serializer::logical_function_tag(AggregateFunction::Count, false)
            == AggregateFunctionTag::Count,
        protobuf_serializer::logical_function_tag(AggregateFunction::Count, true)
            == AggregateFunctionTag::CountDistinct,
        physical_plan_serializer::mode_tag(AggregateMode::Single) == Some(
            AggregateModeTag::Complete,
        ),
        physical_plan_serializer::mode_tag(AggregateMode::Partial) == Some(
            AggregateModeTag::Partial,
        ),
        physical_plan_serializer::mode_tag(AggregateMode::Final) == Some(AggregateModeTag::Final),
        protobuf_serializer::join_tag(JoinType::Inner) == Some(JoinTypeTag::Inner),
        protobuf_serializer::join_tag(JoinType::Left) == Some(JoinTypeTag::Left),
        protobuf_serializer::join_tag(JoinType::Right) == Some(JoinTypeTag::Right),
{
}

/// A mode without a name here is read as a whole aggregation.
pub proof fn an_unknown_mode_is_a_whole_aggregation(n: i32)
    ensures
        physical_plan_deserializer::read_mode(AggregateModeTag::Other(n)) == AggregateMode::Single,
{
}

/// A whole number in a logical expression is read as one of 64 bits with the same
/// value, where it has that many; a constant of another type is read as it is.
pub proof fn constants_are_read_with_their_value(
    a: i32,
    b: i32,
    c: i32,
    d: u32,
    e: u32,
    f: u32,
    g: u64,
    h: u32,
    s: Seq<char>,
)
    ensures
        ({
            let read = |m: LogicalExprModel| protobuf_deserializer::read_logical_expr(m);
            &&& read(LogicalExprModel::LiteralInt8(a)) == LogicalExprValue::Literal(
                Scalar::Int64(a as i64),
            )
            &&& read(LogicalExprModel::LiteralInt16(b)) == LogicalExprValue::Literal(
                Scalar::Int64(b as i64),
            )
            &&& read(LogicalExprModel::LiteralInt32(c)) == LogicalExprValue::Literal(
                Scalar::Int64(c as i64),
            )
            &&& read(LogicalExprModel::LiteralUint8(d)) == LogicalExprValue::Literal(
                Scalar::Int64(d as i64),
            )
            &&& read(LogicalExprModel::LiteralUint16(e)) == LogicalExprValue::Literal(
                Scalar::Int64(e as i64),
            )
            &&& read(LogicalExprModel::LiteralUint32(f)) == LogicalExprValue::Literal(
                Scalar::Int64(f as i64),
            )
            &&& g <= i64::MAX ==> read(LogicalExprModel::LiteralUint64(g))
                == LogicalExprValue::Literal(Scalar::Int64(g as i64))
            &&& read(LogicalExprModel::LiteralF32(h)) == LogicalExprValue::Literal(
                Scalar::Float32(h),
            )
            &&& read(LogicalExprModel::LiteralDate(c)) == LogicalExprValue::Literal(
                Scalar::Date32(c),
            )
            &&& read(LogicalExprModel::LiteralString(s)) == LogicalExprValue::Literal(
                Scalar::Utf8(s),
            )
            &&& read(LogicalExprModel::ColumnName(s)) == LogicalExprValue::Column(s)
        }),
{
}

/// An alias is read as the expression under its name.
pub proof fn an_alias_is_read_with_its_name(m: LogicalExprModel, alias: Seq<char>)
    ensures
        protobuf_deserializer::read_logical_expr(
            LogicalExprModel::Alias { expr: Some(Box::new(m)), alias },
        ) == (LogicalExprValue::Alias {
            expr: Box::new(protobuf_deserializer::read_logical_expr(m)),
            alias,
        }),
{
}

/// The message of a logical expression holds its operands on their sides.
pub proof fn a_logical_expression_is_sent_part_by_part(
    name: Seq<char>,
    l: LogicalExprValue,
    op: Operator,
    r: LogicalExprValue,
)
    ensures
        protobuf_serializer::logical_expr_message(LogicalExprValue::Column(name))
            == LogicalExprModel::ColumnName(name),
        protobuf_serializer::logical_expr_message(
            LogicalExprValue::BinaryExpr { left: Box::new(l), op, right: Box::new(r) },
        ) matches LogicalExprModel::BinaryExpr { l: Some(a), r: Some(b), op: named } && *a
            == protobuf_serializer::logical_expr_message(l) && *b
            == protobuf_serializer::logical_expr_message(r) && operators::named_operator(named)
            == Some(op),
{
    operators::operator_names_read_back(op);
}

/// The message of a join holds both inputs on their sides, how rows are paired,
/// and for every pair of columns the left name and the right name.
pub proof fn a_join_is_sent_side_by_side(
    node: LogicalPlanNode,
    left: LogicalPlanValue,
    right: LogicalPlanValue,
    join_type: JoinType,
    on: Seq<(Seq<char>, Seq<char>)>,
)
    requires
        protobuf_serializer::sends(
            node,
            LogicalPlanValue::Join {
                left: Box::new(left),
                right: Box::new(right),
                join_type,
                on,
            },
        ),
    ensures
        node.join matches Some(join) && {
            &&& join.left matches Some(l) && protobuf_serializer::sends(*l, left)
            &&& join.right matches Some(r) && protobuf_serializer::sends(*r, right)
            &&& join_type == JoinType::Inner <==> join.join_type == JoinTypeTag::Inner
            &&& join_type == JoinType::Left <==> join.join_type == JoinTypeTag::Left
            &&& join_type == JoinType::Right <==> join.join_type == JoinTypeTag::Right
            &&& join.left_join_column@.len() == on.len()
            &&& join.right_join_column@.len() == on.len()
            &&& forall|i: int|
                0 <= i < on.len() ==> (#[trigger] join.left_join_column@[i])@ == on[i].0
            &&& forall|i: int|
                0 <= i < on.len() ==> (#[trigger] join.right_join_column@[i])@ == on[i].1
        },
{
    let join = node.join.unwrap();
    let lefts = text::views(join.left_join_column@);
    let rights = text::views(join.right_join_column@);
    assert(lefts.len() == on.len() && rights.len() == on.len());
    assert forall|i: int| 0 <= i < on.len() implies (#[trigger] join.left_join_column@[i])@
        == on[i].0 by {
        assert(lefts[i] == on[i].0);
    }
    assert forall|i: int| 0 <= i < on.len() implies (#[trigger] join.right_join_column@[i])@
        == on[i].1 by {
        assert(rights[i] == on[i].1);
    }
}

/// Whether two lists hold the same expressions.
pub open spec fn same_exprs(a: Seq<PhysicalExpr>, b: Seq<PhysicalExpr>) -> bool {
    a.len() == b.len() && forall|i: int| 0 <= i < a.len() ==> (#[trigger] a[i])@ == b[i]@
}

/// Whether two schemas have the same names and types.
pub open spec fn same_fields(a: Seq<FieldModel>, b: Seq<FieldModel>) -> bool {
    a.len() == b.len() && forall|i: int|
        0 <= i < a.len() ==> (#[trigger] a[i]).name == b[i].name && a[i].data_type
            == b[i].data_type
}

/// Whether two projections pick columns of the same names; picking none in
/// particular is the same as picking no name.
pub open spec fn same_names(
    a: Option<Vec<usize>>,
    a_fields: Seq<FieldModel>,
    b: Option<Vec<usize>>,
    b_fields: Seq<FieldModel>,
) -> bool {
    match (a, b) {
        (Some(x), Some(y)) => x@.len() == y@.len() && forall|i: int|
            0 <= i < x@.len() ==> a_fields[(#[trigger] x@[i]) as int].name
                == b_fields[y@[i] as int].name,
        (Some(x), None) => x@.len() == 0,
        (None, Some(y)) => y@.len() == 0,
        (None, None) => true,
    }
}

/// Whether two sources read the same file in the same format, and of it the same
/// columns.
pub open spec fn same_source(a: DataSource, b: DataSource) -> bool {
    match (a, b) {
        (DataSource::Csv(x), DataSource::Csv(y)) => x.filename@ == y.filename@ && same_fields(
            x.full_schema@,
            y.full_schema@,
        ) && same_names(x.projection, x.full_schema@, y.projection, y.full_schema@),
        (DataSource::Parquet(x), DataSource::Parquet(y)) => x.filename@ == y.filename@
            && same_fields(x.full_schema@, y.full_schema@) && same_names(
            x.projection,
            x.full_schema@,
            y.projection,
            y.full_schema@,
        ),
        _ => false,
    }
}

/// Whether two plans do the same work: the same operators, with the same
/// expressions, functions, modes, schemas and places, over inputs that do.
pub open spec fn same_work(a: ExecutionPlan, b: ExecutionPlan) -> bool
    decreases a,
{
    match (a, b) {
        (ExecutionPlan::DataSource(x), ExecutionPlan::DataSource(y)) => same_source(
            x.source,
            y.source,
        ),
        (ExecutionPlan::Projection(x), ExecutionPlan::Projection(y)) => same_work(
            *x.input,
            *y.input,
        ) && same_exprs(x.expr@, y.expr@) && same_fields(x.schema@, y.schema@),
        (ExecutionPlan::Filter(x), ExecutionPlan::Filter(y)) => same_work(*x.input, *y.input)
            && x.predicate@ == y.predicate@,
        (ExecutionPlan::Aggregate(x), ExecutionPlan::Aggregate(y)) => {
            &&& same_work(*x.input, *y.input)
            &&& x.mode == y.mode
            &&& x.group_by.expr@.len() == y.group_by.expr@.len()
            &&& forall|i: int|
                0 <= i < x.group_by.expr@.len() ==> (#[trigger] x.group_by.expr@[i]).0@
                    == y.group_by.expr@[i].0@
            &&& x.aggr_expr@.len() == y.aggr_expr@.len()
            &&& forall|i: int|
                0 <= i < x.aggr_expr@.len() ==> (#[trigger] x.aggr_expr@[i])@ == y.aggr_expr@[i]@
            &&& same_fields(x.schema@, y.schema@)
        },
        (ExecutionPlan::ShuffleWriter(x), ExecutionPlan::ShuffleWriter(y)) => {
            &&& same_work(*x.input, *y.input)
            &&& same_exprs(x.partition_expr@, y.partition_expr@)
            &&& x.job_uuid@ == y.job_uuid@
            &&& x.stage_id == y.stage_id
            &&& x.partition_count == y.partition_count
        },
        (ExecutionPlan::ShuffleReader(x), ExecutionPlan::ShuffleReader(y)) => {
            &&& same_fields(x.shuffle_schema@, y.shuffle_schema@)
            &&& x.shuffle_locations@.len() == y.shuffle_locations@.len()
            &&& forall|i: int|
                0 <= i < x.shuffle_locations@.len() ==> (#[trigger] x.shuffle_locations@[i])@
                    == y.shuffle_locations@[i]@
        },
        _ => false,
    }
}

spec fn behind(plan: Arc<ExecutionPlan>) -> ExecutionPlan {
    *plan
}

proof fn fields_come_back(fields: Seq<FieldModel>, back: Seq<FieldModel>)
    requires
        operators::sendable_schema(fields),
        back == operators::read_schema(operators::schema_message(fields)),
    ensures
        same_fields(fields, back),
{
    operators::schemas_read_back(fields);
    assert forall|i: int| 0 <= i < fields.len() implies (#[trigger] fields[i]).name == back[i].name
        && fields[i].data_type == back[i].data_type by {
        assert(back[i] == (FieldModel { nullable: true, ..fields[i] }));
    }
}

proof fn exprs_come_back(a: Seq<PhysicalExpr>, b: Seq<PhysicalExpr>)
    requires
        physical_plan_serializer::sendable_exprs(expr::exprs(a)),
        round_trip::all_small(expr::exprs(a)),
        expr::exprs(b) == physical_plan_deserializer::read_exprs(
            physical_plan_serializer::expr_list_message(expr::exprs(a)),
        ),
    ensures
        same_exprs(a, b),
{
    round_trip::expression_lists_read_back(expr::exprs(a));
    let x = expr::exprs(a);
    let y = expr::exprs(b);
    assert(x.len() == a.len() && y.len() == b.len());
    assert forall|i: int| 0 <= i < a.len() implies (#[trigger] a[i])@ == b[i]@ by {
        assert(x[i] == y[i]);
    }
}

proof fn aggregates_come_back(a: Seq<AggregateExpr>, b: Seq<AggregateExpr>)
    requires
        physical_plan_serializer::sendable_aggregates(aggregates::aggregates(a)),
        round_trip::all_small_inputs(aggregates::aggregates(a)),
        aggregates::aggregates(b) == physical_plan_deserializer::read_aggregates(
            physical_plan_serializer::aggregate_list_message(aggregates::aggregates(a)),
        ),
    ensures
        a.len() == b.len(),
        forall|i: int| 0 <= i < a.len() ==> (#[trigger] a[i])@ == b[i]@,
{
    round_trip::aggregates_read_back(aggregates::aggregates(a));
    let x = aggregates::aggregates(a);
    let y = aggregates::aggregates(b);
    assert(x.len() == a.len() && y.len() == b.len());
    assert forall|i: int| 0 <= i < a.len() implies (#[trigger] a[i])@ == b[i]@ by {
        assert(x[i] == y[i]);
    }
}

/// A plan that was sent comes back as a plan that does the same work.
pub proof fn a_sent_plan_does_the_same_work(plan: ExecutionPlan, back: ExecutionPlan)
    requires
        physical_plan_serializer::sendable_plan(plan),
        round_trip::small_plan(plan),
        physical_plan_deserializer::reads_as(back, physical_plan_serializer::plan_message(plan)),
    ensures
        same_work(plan, back),
    decreases plan,
{
    match (plan, back) {
        (ExecutionPlan::DataSource(x), ExecutionPlan::DataSource(y)) => {
            let full = x.source.spec_full_schema();
            let full_back = y.source.spec_full_schema();
            fields_come_back(full, full_back);
            let names = physical_plan_serializer::projected_names(full, x.source.spec_projection());
            reveal_strlit("csv");
            reveal_strlit("parquet");
            assert("csv"@.len() != "parquet"@.len());
            match (x.source.spec_projection(), y.source.spec_projection()) {
                (Some(p), Some(q)) => {
                    assert(names.len() == p@.len());
                    assert forall|i: int| 0 <= i < p@.len() implies full[(
                    #[trigger] p@[i]) as int].name == full_back[q@[i] as int].name by {
                        assert(names[i] == full[p@[i] as int].name);
                        round_trip::field_position_hit(full_back, names[i]);
                        let at = q@[i];
                    }
                },
                (Some(p), None) => {
                    assert(names.len() == p@.len());
                },
                _ => {},
            }
        },
        (ExecutionPlan::Projection(x), ExecutionPlan::Projection(y)) => {
            a_sent_plan_does_the_same_work(behind(x.input), behind(y.input));
            fields_come_back(x.schema@, y.schema@);
            exprs_come_back(x.expr@, y.expr@);
        },
        (ExecutionPlan::Filter(x), ExecutionPlan::Filter(y)) => {
            a_sent_plan_does_the_same_work(behind(x.input), behind(y.input));
            round_trip::expressions_read_back(x.predicate@);
        },
        (ExecutionPlan::Aggregate(x), ExecutionPlan::Aggregate(y)) => {
            a_sent_plan_does_the_same_work(behind(x.input), behind(y.input));
            fields_come_back(x.schema@, y.schema@);
            aggregates_come_back(x.aggr_expr@, y.aggr_expr@);
            let groups = physical_plan_serializer::group_exprs(x.group_by.expr@);
            round_trip::expression_lists_read_back(groups);
            assert(groups.len() == x.group_by.expr@.len());
            assert forall|i: int| 0 <= i < x.group_by.expr@.len() implies (
            #[trigger] x.group_by.expr@[i]).0@ == y.group_by.expr@[i].0@ by {
                assert(groups[i] == x.group_by.expr@[i].0@);
                assert(y.group_by.expr@[i].0@ == groups[i]);
            }
        },
        (ExecutionPlan::ShuffleWriter(x), ExecutionPlan::ShuffleWriter(y)) => {
            a_sent_plan_does_the_same_work(behind(x.input), behind(y.input));
            exprs_come_back(x.partition_expr@, y.partition_expr@);
        },
        (ExecutionPlan::ShuffleReader(x), ExecutionPlan::ShuffleReader(y)) => {
            fields_come_back(x.shuffle_schema@, y.shuffle_schema@);
            let a = crate::shuffle_location::locations(x.shuffle_locations@);
            let b = crate::shuffle_location::locations(y.shuffle_locations@);
            assert(a.len() == x.shuffle_locations@.len() && b.len() == y.shuffle_locations@.len());
            assert forall|i: int| 0 <= i < x.shuffle_locations@.len() implies (
            #[trigger] x.shuffle_locations@[i])@ == y.shuffle_locations@[i]@ by {
                assert(a[i] == b[i]);
            }
        },
        _ => {},
    }
}

/// A limit is sent as the number without a sign that has the same bits, and read
/// as the number with a sign that does; a large constant without a sign is read
/// in the same way.
pub proof fn a_limit_keeps_its_bits(limit: i32, sent: u32, constant: u64)
    ensures
        0 <= protobuf_serializer::limit_bits(limit) <= u32::MAX,
        (protobuf_serializer::limit_bits(limit) - limit) % 0x1_0000_0000 == 0,
        i32::MIN <= protobuf_deserializer::read_limit(sent) <= i32::MAX,
        (protobuf_deserializer::read_limit(sent) - sent) % 0x1_0000_0000 == 0,
        i64::MIN <= protobuf_deserializer::signed(constant) <= i64::MAX,
        (protobuf_deserializer::signed(constant) - constant) % 0x1_0000_0000_0000_0000 == 0,
{
}

/// A step of a logical plan is sent as the part that is named after it and the
/// input that it works on, and as nothing else.
pub proof fn a_step_is_sent_as_its_own_part(node: LogicalPlanNode, plan: LogicalPlanValue)
    requires
        protobuf_serializer::sends(node, plan),
    ensures
        plan is Filter <==> node.selection is Some,
        plan is Projection <==> node.projection is Some,
        plan is Limit <==> node.limit is Some,
        plan is Aggregate <==> node.aggregate is Some,
        plan is Join <==> node.join is Some,
        plan is TableScan <==> node.csv_scan is Some || node.parquet_scan is Some,
        plan matches LogicalPlanValue::Filter { input, expr } ==> (node.input matches Some(i)
            && protobuf_serializer::sends(*i, *input)),
        plan matches LogicalPlanValue::Projection { input, expr } ==> (node.input matches Some(i)
            && protobuf_serializer::sends(*i, *input)),
        plan matches LogicalPlanValue::Limit { input, limit } ==> (node.input matches Some(i)
            && protobuf_serializer::sends(*i, *input)),
        plan matches LogicalPlanValue::Aggregate { input, group_expr, aggregate_expr } ==> (
        node.input matches Some(i) && protobuf_serializer::sends(*i, *input)),
        plan matches LogicalPlanValue::TableScan { path, source, projection } ==> node.input is None
            && (node.csv_scan matches Some(scan) ==> scan.path@ == path) && (
        node.parquet_scan matches Some(scan) ==> scan.path@ == path),
{
}

} // verus!
