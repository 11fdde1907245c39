//! Physical plans as messages.
use vstd::prelude::*;
use std::sync::Arc;
use crate::aggregates::{AggregateExpr, AggregateExprModel, AggregateFunction, AggregateMode};
use crate::data_source_exec::DataSource;
use crate::expr::{Expr, PhysicalExpr};
use crate::plan::ExecutionPlan;
use crate::proto::messages::{
    AggregateFunctionTag, AggregateModeTag, FieldMessage, PhysicalAggregateExprNode,
    PhysicalAggregateModel, PhysicalExprModel, PhysicalExprNode, PhysicalExprType,
    PhysicalPlanModel, PhysicalPlanNode, PhysicalPlanType, SchemaMessage, ShuffleLocationMessage,
    TaskInfo,
};
use crate::proto::operators::{data_type_to_proto, operator_wire_name};
use crate::scalar::{Scalar, ScalarValue};
use crate::schema::{FieldModel, Schema};
use crate::shuffle_location::ShuffleLocation;
use crate::task::Task;
use crate::text::owned;
use crate::proto::{messages, operators};
use crate::{aggregates, data_source_exec, expr, shuffle_location, text};

verus! {

/// Whether a constant has a form in messages.
pub open spec fn sendable_literal(value: Scalar) -> bool {
    match value {
        Scalar::Int64(_) => true,
        Scalar::Float64(_) => true,
        Scalar::Utf8(_) => true,
        Scalar::Date32(_) => true,
        _ => false,
    }
}

/// Whether an expression has a form in messages.
pub open spec fn sendable_expr(e: Expr) -> bool
    decreases e,
{
    match e {
        Expr::Column { .. } => true,
        Expr::Literal { value } => sendable_literal(value),
        Expr::Binary { left, op, right } => sendable_expr(*left) && sendable_expr(*right),
        Expr::Cast { expr, data_type } => sendable_expr(*expr) && operators::message_type(
            data_type,
        ) is Some,
        Expr::Other { .. } => false,
    }
}

/// A constant as a message.
pub open spec fn literal_message(value: Scalar) -> PhysicalExprModel {
    match value {
        Scalar::Int64(n) => PhysicalExprModel::LiteralLong(n),
        Scalar::Float64(n) => PhysicalExprModel::LiteralDouble(n),
        Scalar::Utf8(s) => PhysicalExprModel::LiteralString(s),
        Scalar::Date32(d) => PhysicalExprModel::LiteralDate(d),
        _ => PhysicalExprModel::Unset,
    }
}

/// An expression as a message. Of the position of a column the low 32 bits are
/// sent.
pub open spec fn expr_message(e: Expr) -> PhysicalExprModel
    decreases e,
{
    match e {
        Expr::Column { name, index } => PhysicalExprModel::Column { name, index: index as u32 },
        Expr::Literal { value } => literal_message(value),
        Expr::Binary { left, op, right } => PhysicalExprModel::BinaryExpr {
            l: Some(Box::new(expr_message(*left))),
            r: Some(Box::new(expr_message(*right))),
            op: operators::operator_name(op),
        },
        Expr::Cast { expr, data_type } => PhysicalExprModel::CastExpr {
            expr: Some(Box::new(expr_message(*expr))),
            arrow_type: operators::message_type(data_type).unwrap(),
        },
        Expr::Other { .. } => PhysicalExprModel::Unset,
    }
}

/// Whether every expression has a form in messages.
pub open spec fn sendable_exprs(list: Seq<Expr>) -> bool {
    forall|i: int| 0 <= i < list.len() ==> sendable_expr(#[trigger] list[i])
}

/// Expressions as messages.
pub open spec fn expr_list_message(list: Seq<Expr>) -> Seq<PhysicalExprModel> {
    Seq::new(list.len(), |i: int| expr_message(list[i]))
}

/// An expression as a message.
pub fn serialize_physical_expr(expr: &PhysicalExpr) -> (r: PhysicalExprNode)
    requires
        sendable_expr(expr@),
    ensures
        r@ == expr_message(expr@),
    decreases expr,
{
    let expr_type = match expr {
        PhysicalExpr::Column { name, index } => PhysicalExprType::Column {
            name: name.clone(),
            index: #[verifier::truncate]
            (*index as u32),
        },
        PhysicalExpr::Literal { value } => match value {
            ScalarValue::Int64(n) => PhysicalExprType::LiteralLong(*n),
            ScalarValue::Float64(n) => PhysicalExprType::LiteralDouble(*n),
            ScalarValue::Utf8(s) => PhysicalExprType::LiteralString(s.clone()),
            ScalarValue::Date32(d) => PhysicalExprType::LiteralDate(*d),
            _ => vstd::pervasive::unreached(),
        },
        PhysicalExpr::Binary { left, op, right } => {
            let l = serialize_physical_expr(left);
            let r = serialize_physical_expr(right);
            PhysicalExprType::BinaryExpr {
                l: Some(Box::new(l)),
                r: Some(Box::new(r)),
                op: owned(operator_wire_name(*op)),
            }
        },
        PhysicalExpr::Cast { expr: inner, data_type } => {
            let e = serialize_physical_expr(inner);
            PhysicalExprType::CastExpr {
                expr: Some(Box::new(e)),
                arrow_type: data_type_to_proto(*data_type),
            }
        },
        PhysicalExpr::Other { text: _ } => vstd::pervasive::unreached(),
    };
    PhysicalExprNode { expr_type: Some(expr_type) }
}

fn serialize_exprs(list: &Vec<PhysicalExpr>) -> (r: Vec<PhysicalExprNode>)
    requires
        sendable_exprs(expr::exprs(list@)),
    ensures
        messages::expr_models(r@) == expr_list_message(expr::exprs(list@)),
{
    let mut r: Vec<PhysicalExprNode> = Vec::new();
    let mut i: usize = 0;
    while i < list.len()
        invariant
            sendable_exprs(expr::exprs(list@)),
            i <= list.len(),
            r.len() == i,
            forall|j: int| 0 <= j < i ==> (#[trigger] r@[j])@ == expr_message(list@[j]@),
        decreases list.len() - i,
    {
        assert(sendable_expr(expr::exprs(list@)[i as int]));
        r.push(serialize_physical_expr(&list[i]));
        i += 1;
    }
    assert(messages::expr_models(r@) == expr_list_message(expr::exprs(list@)));
    r
}

/// The function of an aggregate in messages.
pub open spec fn function_tag(function: AggregateFunction) -> AggregateFunctionTag {
    match function {
        AggregateFunction::Sum => AggregateFunctionTag::Sum,
        AggregateFunction::Min => AggregateFunctionTag::Min,
        AggregateFunction::Max => AggregateFunctionTag::Max,
        AggregateFunction::Avg => AggregateFunctionTag::Avg,
        AggregateFunction::Count => AggregateFunctionTag::Count,
    }
}

/// An aggregate as a message.
pub open spec fn aggregate_message(a: AggregateExprModel) -> PhysicalAggregateModel {
    PhysicalAggregateModel {
        aggr_function: function_tag(a.function),
        input_expr: Some(expr_message(a.input)),
    }
}

/// Whether the input of every aggregate has a form in messages.
pub open spec fn sendable_aggregates(list: Seq<AggregateExprModel>) -> bool {
    forall|i: int| 0 <= i < list.len() ==> sendable_expr((#[trigger] list[i]).input)
}

/// Aggregates as messages.
pub open spec fn aggregate_list_message(list: Seq<AggregateExprModel>) -> Seq<
    PhysicalAggregateModel,
> {
    Seq::new(list.len(), |i: int| aggregate_message(list[i]))
}

/// An aggregate as a message.
pub fn serialize_physical_aggr_expr(expr: &AggregateExpr) -> (r: PhysicalAggregateExprNode)
    requires
        sendable_expr(expr@.input),
    ensures
        r@ == aggregate_message(expr@),
{
    let aggr_function = match expr.function {
        AggregateFunction::Sum => AggregateFunctionTag::Sum,
        AggregateFunction::Min => AggregateFunctionTag::Min,
        AggregateFunction::Max => AggregateFunctionTag::Max,
        AggregateFunction::Avg => AggregateFunctionTag::Avg,
        AggregateFunction::Count => AggregateFunctionTag::Count,
    };
    let input = serialize_physical_expr(expr.input_expression());
    PhysicalAggregateExprNode { aggr_function, input_expr: Some(input) }
}

fn serialize_aggregates(list: &Vec<AggregateExpr>) -> (r: Vec<PhysicalAggregateExprNode>)
    requires
        sendable_aggregates(aggregates::aggregates(list@)),
    ensures
        messages::aggregate_models(r@) == aggregate_list_message(aggregates::aggregates(list@)),
{
    let mut r: Vec<PhysicalAggregateExprNode> = Vec::new();
    let mut i: usize = 0;
    while i < list.len()
        invariant
            sendable_aggregates(aggregates::aggregates(list@)),
            i <= list.len(),
            r.len() == i,
            forall|j: int| 0 <= j < i ==> (#[trigger] r@[j])@ == aggregate_message(list@[j]@),
        decreases list.len() - i,
    {
        assert(sendable_expr(aggregates::aggregates(list@)[i as int].input));
        r.push(serialize_physical_aggr_expr(&list[i]));
        i += 1;
    }
    assert(messages::aggregate_models(r@) == aggregate_list_message(
        aggregates::aggregates(list@),
    ));
    r
}

/// A schema as a message.
pub fn serialize_schema(schema: &Schema) -> (r: SchemaMessage)
    requires
        operators::sendable_schema(schema@),
    ensures
        r@ == operators::schema_message(schema@),
{
    let mut columns: Vec<FieldMessage> = Vec::new();
    let mut i: usize = 0;
    while i < schema.fields.len()
        invariant
            operators::sendable_schema(schema@),
            i <= schema.fields.len(),
            columns.len() == i,
            forall|j: int|
                0 <= j < i ==> (#[trigger] columns@[j])@ == operators::field_message(schema@[j]),
        decreases schema.fields.len() - i,
    {
        assert(operators::message_type(schema@[i as int].data_type) is Some);
        let field = &schema.fields[i];
        columns.push(
            FieldMessage {
                name: field.name.clone(),
                arrow_type: data_type_to_proto(field.data_type),
                nullable: true,
            },
        );
        i += 1;
    }
    let r = SchemaMessage { columns };
    assert(r@ == operators::schema_message(schema@));
    r
}

/// A shuffle location as a message.
pub fn serialize_shuffle_location(location: &ShuffleLocation) -> (r: ShuffleLocationMessage)
    ensures
        r@ == location@,
{
    ShuffleLocationMessage {
        job_uuid: location.job_uuid.clone(),
        stage_id: location.stage_id,
        partition_id: location.partition_id,
        executor_id: location.executor_id.clone(),
        executor_host: location.executor_host.clone(),
        executor_port: location.executor_port,
    }
}

fn serialize_locations(list: &Vec<ShuffleLocation>) -> (r: Vec<ShuffleLocationMessage>)
    ensures
        messages::location_messages(r@) == shuffle_location::locations(list@),
{
    let mut r: Vec<ShuffleLocationMessage> = Vec::new();
    let mut i: usize = 0;
    while i < list.len()
        invariant
            i <= list.len(),
            r.len() == i,
            forall|j: int| 0 <= j < i ==> (#[trigger] r@[j])@ == list@[j]@,
        decreases list.len() - i,
    {
        r.push(serialize_shuffle_location(&list[i]));
        i += 1;
    }
    assert(messages::location_messages(r@) == shuffle_location::locations(list@));
    r
}

/// The names of the projected columns; none where nothing is projected.
pub open spec fn projected_names(full: Seq<FieldModel>, projection: Option<Vec<usize>>) -> Seq<
    Seq<char>,
> {
    match projection {
        None => seq![],
        Some(indices) => Seq::new(indices@.len(), |i: int| full[indices@[i] as int].name),
    }
}

/// The names of the projected columns.
fn projection_indices_to_names(full_schema: &Schema, projection: &Option<Vec<usize>>) -> (r: Vec<
    String,
>)
    requires
        data_source_exec::valid_projection(full_schema@, *projection),
    ensures
        text::views(r@) == projected_names(full_schema@, *projection),
{
    let mut r: Vec<String> = Vec::new();
    if let Some(indices) = projection {
        let mut i: usize = 0;
        while i < indices.len()
            invariant
                forall|k: int|
                    0 <= k < indices@.len() ==> (#[trigger] indices@[k]) < full_schema@.len(),
                *projection == Some(*indices),
                i <= indices.len(),
                r.len() == i,
                forall|j: int|
                    0 <= j < i ==> (#[trigger] r@[j])@ == full_schema@[indices@[j] as int].name,
            decreases indices.len() - i,
        {
            let at: usize = indices[i];
            assert(indices@[i as int] < full_schema@.len());
            r.push(full_schema.fields[at].name.clone());
            i += 1;
        }
    }
    assert(text::views(r@) == projected_names(full_schema@, *projection));
    r
}

/// The mode of an aggregation in messages, if it has one.
pub open spec fn mode_tag(mode: AggregateMode) -> Option<AggregateModeTag> {
    match mode {
        AggregateMode::Single => Some(AggregateModeTag::Complete),
        AggregateMode::Partial => Some(AggregateModeTag::Partial),
        AggregateMode::Final => Some(AggregateModeTag::Final),
        _ => None,
    }
}

/// The mode of an aggregation in messages.
pub fn aggregate_mode_to_proto(mode: AggregateMode) -> (r: AggregateModeTag)
    requires
        mode_tag(mode) is Some,
    ensures
        mode_tag(mode) == Some(r),
{
    match mode {
        AggregateMode::Single => AggregateModeTag::Complete,
        AggregateMode::Partial => AggregateModeTag::Partial,
        _ => AggregateModeTag::Final,
    }
}

/// The grouping expressions, without their names.
pub open spec fn group_exprs(pairs: Seq<(PhysicalExpr, String)>) -> Seq<Expr> {
    Seq::new(pairs.len(), |i: int| pairs[i].0@)
}

/// Whether a plan has a form in messages: reading files, projecting, filtering,
/// aggregating and shuffling have, where all that they hold has.
pub open spec fn sendable_plan(plan: ExecutionPlan) -> bool
    decreases plan,
{
    match plan {
        ExecutionPlan::DataSource(op) => op.source.wf() && operators::sendable_schema(
            op.source.spec_full_schema(),
        ),
        ExecutionPlan::Projection(op) => sendable_plan(*op.input) && operators::sendable_schema(
            op.schema@,
        ) && sendable_exprs(expr::exprs(op.expr@)),
        ExecutionPlan::Filter(op) => sendable_plan(*op.input) && sendable_expr(op.predicate@),
        ExecutionPlan::Aggregate(op) => sendable_plan(*op.input) && sendable_exprs(
            group_exprs(op.group_by.expr@),
        ) && sendable_aggregates(aggregates::aggregates(op.aggr_expr@))
            && operators::sendable_schema(op.schema@) && mode_tag(op.mode) is Some,
        ExecutionPlan::ShuffleWriter(op) => sendable_plan(*op.input) && sendable_exprs(
            expr::exprs(op.partition_expr@),
        ),
        ExecutionPlan::ShuffleReader(op) => operators::sendable_schema(op.shuffle_schema@),
        _ => false,
    }
}

/// A plan as a message.
pub open spec fn plan_message(plan: ExecutionPlan) -> PhysicalPlanModel
    decreases plan,
{
    match plan {
        ExecutionPlan::DataSource(op) => PhysicalPlanModel::Scan {
            path: op.source.spec_filename(),
            schema: Some(operators::schema_message(op.source.spec_full_schema())),
            projection: projected_names(
                op.source.spec_full_schema(),
                op.source.spec_projection(),
            ),
            file_format: op.source.spec_format(),
        },
        ExecutionPlan::Projection(op) => PhysicalPlanModel::Projection {
            input: Some(Box::new(plan_message(*op.input))),
            schema: Some(operators::schema_message(op.schema@)),
            expr: expr_list_message(expr::exprs(op.expr@)),
        },
        ExecutionPlan::Filter(op) => PhysicalPlanModel::Selection {
            input: Some(Box::new(plan_message(*op.input))),
            expr: Some(expr_message(op.predicate@)),
        },
        ExecutionPlan::Aggregate(op) => PhysicalPlanModel::HashAggregate {
            input: Some(Box::new(plan_message(*op.input))),
            group_expr: expr_list_message(group_exprs(op.group_by.expr@)),
            aggregate_expr: aggregate_list_message(aggregates::aggregates(op.aggr_expr@)),
            schema: Some(operators::schema_message(op.schema@)),
            mode: mode_tag(op.mode).unwrap(),
        },
        ExecutionPlan::ShuffleWriter(op) => PhysicalPlanModel::ShuffleWriter {
            input: Some(Box::new(plan_message(*op.input))),
            partition_expr: expr_list_message(expr::exprs(op.partition_expr@)),
            job_uuid: op.job_uuid@,
            stage_id: op.stage_id,
            partition_count: op.partition_count,
        },
        ExecutionPlan::ShuffleReader(op) => PhysicalPlanModel::ShuffleReader {
            schema: Some(operators::schema_message(op.shuffle_schema@)),
            shuffle_locations: shuffle_location::locations(op.shuffle_locations@),
        },
        _ => PhysicalPlanModel::Unset,
    }
}

/// A plan as a message.
pub fn serialize_physical_plan(plan: &ExecutionPlan) -> (r: PhysicalPlanNode)
    requires
        sendable_plan(*plan),
    ensures
        r@ == plan_message(*plan),
    decreases plan,
{
    let plan_type: Option<PhysicalPlanType> = match plan {
        ExecutionPlan::DataSource(op) => {
            let source: &DataSource = op.source();
            let schema = serialize_schema(source.full_schema());
            let projection = projection_indices_to_names(source.full_schema(), source.projection());
            Some(
                PhysicalPlanType::Scan {
                    path: source.filename().clone(),
                    schema: Some(schema),
                    projection,
                    file_format: owned(source.format_name()),
                },
            )
        },
        ExecutionPlan::Projection(op) => {
            let input: &Arc<ExecutionPlan> = &op.input;
            let below = serialize_physical_plan(input);
            Some(
                PhysicalPlanType::Projection {
                    input: Some(Box::new(below)),
                    schema: Some(serialize_schema(&op.schema)),
                    expr: serialize_exprs(&op.expr),
                },
            )
        },
        ExecutionPlan::Filter(op) => {
            let input: &Arc<ExecutionPlan> = &op.input;
            let below = serialize_physical_plan(input);
            Some(
                PhysicalPlanType::Selection {
                    input: Some(Box::new(below)),
                    expr: Some(serialize_physical_expr(&op.predicate)),
                },
            )
        },
        ExecutionPlan::Aggregate(op) => {
            let input: &Arc<ExecutionPlan> = &op.input;
            let below = serialize_physical_plan(input);
            let groups = op.group_by.input_exprs();
            assert(expr::exprs(groups@) == group_exprs(op.group_by.expr@));
            Some(
                PhysicalPlanType::HashAggregate {
                    input: Some(Box::new(below)),
                    group_expr: serialize_exprs(&groups),
                    aggregate_expr: serialize_aggregates(&op.aggr_expr),
                    schema: Some(serialize_schema(&op.schema)),
                    mode: aggregate_mode_to_proto(op.mode),
                },
            )
        },
        ExecutionPlan::ShuffleWriter(op) => {
            let input: &Arc<ExecutionPlan> = &op.input;
            let below = serialize_physical_plan(input);
            Some(
                PhysicalPlanType::ShuffleWriter {
                    input: Some(Box::new(below)),
                    partition_expr: serialize_exprs(&op.partition_expr),
                    job_uuid: op.job_uuid.clone(),
                    stage_id: op.stage_id,
                    partition_count: op.partition_count,
                },
            )
        },
        ExecutionPlan::ShuffleReader(op) => Some(
            PhysicalPlanType::ShuffleReader {
                schema: Some(serialize_schema(&op.shuffle_schema)),
                shuffle_locations: serialize_locations(&op.shuffle_locations),
            },
        ),
        _ => None,
    };
    PhysicalPlanNode { plan_type }
}

/// A task as a message.
pub fn serialize_task(task: &Task) -> (r: TaskInfo)
    requires
        sendable_plan(*task.plan),
    ensures
        r.job_uuid@ == task.job_uuid@,
        r.stage_id == task.stage_id,
        r.task_id == task.task_id,
        r.partition_id == task.partition_id,
        r.plan matches Some(plan) && plan@ == plan_message(*task.plan),
{
    let plan: &Arc<ExecutionPlan> = &task.plan;
    TaskInfo {
        job_uuid: task.job_uuid.clone(),
        stage_id: task.stage_id,
        task_id: task.task_id,
        partition_id: task.partition_id,
        plan: Some(serialize_physical_plan(plan)),
    }
}

} // verus!
