//! Physical plans out of messages.
use vstd::prelude::*;
use std::sync::Arc;
use crate::aggregate_exec::AggregateExec;
use crate::aggregates::{
    AggregateExpr, AggregateExprModel, AggregateFunction, AggregateMode, PhysicalGroupBy,
};
use crate::data_source_exec::{
    CsvDataSourceConfig, DataSource, DataSourceExec, ParquetDataSourceConfig,
};
use crate::expr::{Expr, PhysicalExpr};
use crate::filter_exec::FilterExec;
use crate::partitioning::Partitioning;
use crate::plan::ExecutionPlan;
use crate::plan_properties::PlanProperties;
use crate::projection_exec::ProjectionExec;
use crate::proto::messages::{
    AggregateFunctionTag, AggregateModeTag, PhysicalAggregateExprNode, PhysicalAggregateModel,
    PhysicalExprModel, PhysicalExprNode, PhysicalExprType, PhysicalPlanModel, PhysicalPlanNode,
    PhysicalPlanType, SchemaMessage, ShuffleLocationMessage, TaskInfo,
};
use crate::proto::operators::{from_proto_arrow_type, operator_from_wire};
use crate::proto::protobuf_deserializer::deserialize_schema;
use crate::scalar::{Scalar, ScalarValue};
use crate::schema::{FieldModel, Schema};
use crate::shuffle_location::ShuffleLocation;
use crate::shuffle_reader_exec::ShuffleReaderExec;
use crate::shuffle_writer_exec::ShuffleWriterExec;
use crate::task::Task;
use crate::text::{owned, same_text};
use crate::proto::{messages, operators};
use crate::{aggregates, data_source_exec, expr, schema, shuffle_location, text};

verus! {

/// Whether an expression can be read from a message: all parts are set, and
/// operators and types have names here.
pub open spec fn readable_expr(m: PhysicalExprModel) -> bool
    decreases m,
{
    match m {
        PhysicalExprModel::Unset => false,
        PhysicalExprModel::BinaryExpr { l, r, op } => (l matches Some(a) && readable_expr(*a)) && (
        r matches Some(b) && readable_expr(*b)) && operators::named_operator(op) is Some,
        PhysicalExprModel::CastExpr { expr, arrow_type } => (expr matches Some(e) && readable_expr(
            *e,
        )) && operators::column_type(arrow_type) is Some,
        _ => true,
    }
}

/// The expression that a message gives.
pub open spec fn read_expr(m: PhysicalExprModel) -> Expr
    decreases m,
{
    match m {
        PhysicalExprModel::Unset => Expr::Other { text: seq![] },
        PhysicalExprModel::Column { name, index } => Expr::Column { name, index: index as usize },
        PhysicalExprModel::LiteralLong(n) => Expr::Literal { value: Scalar::Int64(n) },
        PhysicalExprModel::LiteralDouble(n) => Expr::Literal { value: Scalar::Float64(n) },
        PhysicalExprModel::LiteralString(s) => Expr::Literal { value: Scalar::Utf8(s) },
        PhysicalExprModel::LiteralDate(d) => Expr::Literal { value: Scalar::Date32(d) },
        PhysicalExprModel::BinaryExpr { l, r, op } => match (l, r) {
            (Some(a), Some(b)) => Expr::Binary {
                left: Box::new(read_expr(*a)),
                op: operators::named_operator(op).unwrap(),
                right: Box::new(read_expr(*b)),
            },
            _ => Expr::Other { text: seq![] },
        },
        PhysicalExprModel::CastExpr { expr, arrow_type } => match expr {
            Some(e) => Expr::Cast {
                expr: Box::new(read_expr(*e)),
                data_type: operators::column_type(arrow_type).unwrap(),
            },
            None => Expr::Other { text: seq![] },
        },
    }
}

/// Whether every expression can be read.
pub open spec fn readable_exprs(list: Seq<PhysicalExprModel>) -> bool {
    forall|i: int| 0 <= i < list.len() ==> readable_expr(#[trigger] list[i])
}

/// The expressions that messages give.
pub open spec fn read_exprs(list: Seq<PhysicalExprModel>) -> Seq<Expr> {
    Seq::new(list.len(), |i: int| read_expr(list[i]))
}

/// The expression that a message gives.
pub fn deserialize_physical_expr(node: &PhysicalExprNode) -> (r: PhysicalExpr)
    requires
        readable_expr(node@),
    ensures
        r@ == read_expr(node@),
    decreases node,
{
    match &node.expr_type {
        Some(PhysicalExprType::Column { name, index }) => PhysicalExpr::column(
            name.as_str(),
            *index as usize,
        ),
        Some(PhysicalExprType::LiteralString(s)) => PhysicalExpr::literal(
            ScalarValue::Utf8(s.clone()),
        ),
        Some(PhysicalExprType::LiteralLong(n)) => PhysicalExpr::literal(ScalarValue::Int64(*n)),
        Some(PhysicalExprType::LiteralDouble(n)) => PhysicalExpr::literal(ScalarValue::Float64(*n)),
        Some(PhysicalExprType::LiteralDate(d)) => PhysicalExpr::literal(ScalarValue::Date32(*d)),
        Some(PhysicalExprType::BinaryExpr { l: Some(a), r: Some(b), op }) => {
            let left = deserialize_physical_expr(a);
            let right = deserialize_physical_expr(b);
            match operator_from_wire(op) {
                Some(operator) => PhysicalExpr::binary(left, operator, right),
                None => vstd::pervasive::unreached(),
            }
        },
        Some(PhysicalExprType::CastExpr { expr: Some(e), arrow_type }) => {
            let inner = deserialize_physical_expr(e);
            PhysicalExpr::cast(inner, from_proto_arrow_type(*arrow_type))
        },
        _ => vstd::pervasive::unreached(),
    }
}

fn deserialize_exprs(list: &Vec<PhysicalExprNode>) -> (r: Vec<PhysicalExpr>)
    requires
        readable_exprs(messages::expr_models(list@)),
    ensures
        expr::exprs(r@) == read_exprs(messages::expr_models(list@)),
{
    let mut r: Vec<PhysicalExpr> = Vec::new();
    let mut i: usize = 0;
    while i < list.len()
        invariant
            readable_exprs(messages::expr_models(list@)),
            i <= list.len(),
            r.len() == i,
            forall|j: int| 0 <= j < i ==> (#[trigger] r@[j])@ == read_expr(list@[j]@),
        decreases list.len() - i,
    {
        assert(readable_expr(messages::expr_models(list@)[i as int]));
        r.push(deserialize_physical_expr(&list[i]));
        i += 1;
    }
    assert(expr::exprs(r@) == read_exprs(messages::expr_models(list@)));
    r
}

/// The function that a message names, if there is one for a physical aggregate.
pub open spec fn tagged_function(tag: AggregateFunctionTag) -> Option<AggregateFunction> {
    match tag {
        AggregateFunctionTag::Sum => Some(AggregateFunction::Sum),
        AggregateFunctionTag::Min => Some(AggregateFunction::Min),
        AggregateFunctionTag::Max => Some(AggregateFunction::Max),
        AggregateFunctionTag::Avg => Some(AggregateFunction::Avg),
        AggregateFunctionTag::Count => Some(AggregateFunction::Count),
        _ => None,
    }
}

/// Whether an aggregate can be read from a message.
pub open spec fn readable_aggregate(m: PhysicalAggregateModel) -> bool {
    (m.input_expr matches Some(e) && readable_expr(e)) && tagged_function(m.aggr_function) is Some
}

/// The aggregate that a message gives.
pub open spec fn read_aggregate(m: PhysicalAggregateModel) -> AggregateExprModel {
    AggregateExprModel {
        function: tagged_function(m.aggr_function).unwrap(),
        input: read_expr(m.input_expr.unwrap()),
    }
}

/// Whether every aggregate can be read.
pub open spec fn readable_aggregates(list: Seq<PhysicalAggregateModel>) -> bool {
    forall|i: int| 0 <= i < list.len() ==> readable_aggregate(#[trigger] list[i])
}

/// The aggregates that messages give.
pub open spec fn read_aggregates(list: Seq<PhysicalAggregateModel>) -> Seq<AggregateExprModel> {
    Seq::new(list.len(), |i: int| read_aggregate(list[i]))
}

/// The aggregate that a message gives.
pub fn deserialize_physical_aggr_expr(node: &PhysicalAggregateExprNode) -> (r: AggregateExpr)
    requires
        readable_aggregate(node@),
    ensures
        r@ == read_aggregate(node@),
{
    let function = match node.aggr_function {
        AggregateFunctionTag::Sum => AggregateFunction::Sum,
        AggregateFunctionTag::Min => AggregateFunction::Min,
        AggregateFunctionTag::Max => AggregateFunction::Max,
        AggregateFunctionTag::Avg => AggregateFunction::Avg,
        _ => AggregateFunction::Count,
    };
    let input = match &node.input_expr {
        Some(e) => deserialize_physical_expr(e),
        None => vstd::pervasive::unreached(),
    };
    AggregateExpr::new(function, input)
}

fn deserialize_aggregates(list: &Vec<PhysicalAggregateExprNode>) -> (r: Vec<AggregateExpr>)
    requires
        readable_aggregates(messages::aggregate_models(list@)),
    ensures
        aggregates::aggregates(r@) == read_aggregates(messages::aggregate_models(list@)),
{
    let mut r: Vec<AggregateExpr> = Vec::new();
    let mut i: usize = 0;
    while i < list.len()
        invariant
            readable_aggregates(messages::aggregate_models(list@)),
            i <= list.len(),
            r.len() == i,
            forall|j: int| 0 <= j < i ==> (#[trigger] r@[j])@ == read_aggregate(list@[j]@),
        decreases list.len() - i,
    {
        assert(readable_aggregate(messages::aggregate_models(list@)[i as int]));
        r.push(deserialize_physical_aggr_expr(&list[i]));
        i += 1;
    }
    assert(aggregates::aggregates(r@) == read_aggregates(messages::aggregate_models(list@)));
    r
}

/// The shuffle location that a message gives.
pub fn deserialize_shuffle_location(message: &ShuffleLocationMessage) -> (r: ShuffleLocation)
    ensures
        r@ == message@,
{
    ShuffleLocation::new(
        message.job_uuid.as_str(),
        message.stage_id,
        message.partition_id,
        message.executor_id.as_str(),
        message.executor_host.as_str(),
        message.executor_port,
    )
}

fn deserialize_locations(list: &Vec<ShuffleLocationMessage>) -> (r: Vec<ShuffleLocation>)
    ensures
        shuffle_location::locations(r@) == messages::location_messages(list@),
{
    let mut r: Vec<ShuffleLocation> = Vec::new();
    let mut i: usize = 0;
    while i < list.len()
        invariant
            i <= list.len(),
            r.len() == i,
            forall|j: int| 0 <= j < i ==> (#[trigger] r@[j])@ == list@[j]@,
        decreases list.len() - i,
    {
        r.push(deserialize_shuffle_location(&list[i]));
        i += 1;
    }
    assert(shuffle_location::locations(r@) == messages::location_messages(list@));
    r
}

/// The mode that a message gives: a mode without a name here is `Single`.
pub open spec fn read_mode(tag: AggregateModeTag) -> AggregateMode {
    match tag {
        AggregateModeTag::Complete => AggregateMode::Single,
        AggregateModeTag::Partial => AggregateMode::Partial,
        AggregateModeTag::Final => AggregateMode::Final,
        AggregateModeTag::Other(_) => AggregateMode::Single,
    }
}

/// The mode that a message gives.
pub fn aggregate_mode_from_proto(tag: AggregateModeTag) -> (r: AggregateMode)
    ensures
        r == read_mode(tag),
{
    match tag {
        AggregateModeTag::Complete | AggregateModeTag::Other(_) => AggregateMode::Single,
        AggregateModeTag::Partial => AggregateMode::Partial,
        AggregateModeTag::Final => AggregateMode::Final,
    }
}

/// Whether every name is that of a field.
pub open spec fn all_fields_known(full: Seq<FieldModel>, names: Seq<Seq<char>>) -> bool {
    forall|i: int|
        0 <= i < names.len() ==> schema::field_position(full, #[trigger] names[i]) is Some
}

/// Whether `projection` picks the fields with the given names; no names pick
/// nothing in particular.
pub open spec fn picks(
    projection: Option<Vec<usize>>,
    full: Seq<FieldModel>,
    names: Seq<Seq<char>>,
) -> bool {
    match projection {
        None => names.len() == 0,
        Some(indices) => names.len() > 0 && indices@.len() == names.len() && forall|i: int|
            0 <= i < names.len() ==> schema::field_position(full, names[i]) == Some(
                (#[trigger] indices@[i]) as int,
            ),
    }
}

/// The positions of the fields with the given names.
fn projection_positions(full: &Schema, names: &Vec<String>) -> (r: Option<Vec<usize>>)
    requires
        all_fields_known(full@, text::views(names@)),
    ensures
        picks(r, full@, text::views(names@)),
        data_source_exec::valid_projection(full@, r),
{
    if names.is_empty() {
        return None;
    }
    let ghost wanted = text::views(names@);
    let mut indices: Vec<usize> = Vec::new();
    let mut i: usize = 0;
    while i < names.len()
        invariant
            wanted == text::views(names@),
            all_fields_known(full@, wanted),
            i <= names.len(),
            indices.len() == i,
            forall|j: int|
                0 <= j < i ==> (#[trigger] indices@[j]) < full@.len() && schema::field_position(
                    full@,
                    wanted[j],
                ) == Some(indices@[j] as int),
        decreases names.len() - i,
    {
        assert(schema::field_position(full@, wanted[i as int]) is Some);
        match full.index_of(names[i].as_str()) {
            Some(at) => indices.push(at),
            None => vstd::pervasive::unreached(),
        }
        i += 1;
    }
    Some(indices)
}

/// Whether a plan can be read from a message: all parts are set and can be read,
/// and a scan names columns of its schema and a format that there is.
pub open spec fn readable_plan(m: PhysicalPlanModel) -> bool
    decreases m,
{
    match m {
        PhysicalPlanModel::Unset => false,
        PhysicalPlanModel::Scan { path, schema, projection, file_format } => (schema matches Some(s)
            && operators::readable_schema(s) && all_fields_known(
            operators::read_schema(s),
            projection,
        )) && (file_format == "csv"@ || file_format == "parquet"@),
        PhysicalPlanModel::Projection { input, schema, expr } => (input matches Some(i)
            && readable_plan(*i)) && (schema matches Some(s) && operators::readable_schema(s))
            && readable_exprs(expr),
        PhysicalPlanModel::Selection { input, expr } => (input matches Some(i) && readable_plan(*i))
            && (expr matches Some(e) && readable_expr(e)),
        PhysicalPlanModel::HashAggregate { input, group_expr, aggregate_expr, schema, mode } => (
        input matches Some(i) && readable_plan(*i)) && readable_exprs(group_expr)
            && readable_aggregates(aggregate_expr) && (schema matches Some(s)
            && operators::readable_schema(s)),
        PhysicalPlanModel::ShuffleWriter { input, partition_expr, .. } => (input matches Some(i)
            && readable_plan(*i)) && readable_exprs(partition_expr),
        PhysicalPlanModel::ShuffleReader { schema, shuffle_locations } => schema matches Some(s)
            && operators::readable_schema(s),
    }
}

/// Whether a file source is what a message gives. A file of comma-separated
/// values has headers, is read in batches of 1024 rows, and separates its values
/// by commas.
pub open spec fn source_reads_as(
    source: DataSource,
    path: Seq<char>,
    full: Seq<FieldModel>,
    projection: Seq<Seq<char>>,
    file_format: Seq<char>,
) -> bool {
    &&& source.wf()
    &&& source.spec_filename() == path
    &&& source.spec_full_schema() == full
    &&& picks(source.spec_projection(), full, projection)
    &&& source.spec_format() == file_format
    &&& source matches DataSource::Csv(c) ==> c.has_headers && c.batch_size == 1024 && c.delimiter
        == 44
}

/// Whether a grouping is by the given expressions, each named by its text, with
/// one group set that leaves none of them out.
pub open spec fn plain_grouping(group_by: PhysicalGroupBy, exprs: Seq<Expr>) -> bool {
    &&& !group_by.has_grouping_set
    &&& group_by.null_expr@.len() == 0
    &&& group_by.groups@.len() == 1
    &&& group_by.groups@[0]@ == Seq::new(exprs.len(), |i: int| false)
    &&& group_by.expr@.len() == exprs.len()
    &&& forall|i: int|
        0 <= i < exprs.len() ==> (#[trigger] group_by.expr@[i]).0@ == exprs[i]
            && group_by.expr@[i].1@ == expr::expr_text(exprs[i])
}

/// A single output partition of which nothing is known.
pub open spec fn one_partition(properties: PlanProperties) -> bool {
    properties.output_partitioning == Partitioning::UnknownPartitioning(1)
}

/// Whether a plan is what a message gives.
pub open spec fn reads_as(plan: ExecutionPlan, m: PhysicalPlanModel) -> bool
    decreases m,
{
    match m {
        PhysicalPlanModel::Unset => false,
        PhysicalPlanModel::Scan { path, schema, projection, file_format } => plan matches ExecutionPlan::DataSource(
            op,
        ) && source_reads_as(
            op.source,
            path,
            operators::read_schema(schema.unwrap()),
            projection,
            file_format,
        ) && op.schema@ == data_source_exec::projected_schema(
            op.source.spec_full_schema(),
            op.source.spec_projection(),
        ) && one_partition(op.properties),
        PhysicalPlanModel::Projection { input, schema, expr } => plan matches ExecutionPlan::Projection(
            op,
        ) && (input matches Some(i) && reads_as(*op.input, *i)) && op.schema@
            == operators::read_schema(schema.unwrap()) && expr::exprs(op.expr@) == read_exprs(expr)
            && one_partition(op.properties),
        PhysicalPlanModel::Selection { input, expr } => plan matches ExecutionPlan::Filter(op) && (
        input matches Some(i) && reads_as(*op.input, *i)) && op.predicate@ == read_expr(
            expr.unwrap(),
        ) && one_partition(op.properties),
        PhysicalPlanModel::HashAggregate { input, group_expr, aggregate_expr, schema, mode } =>
            plan matches ExecutionPlan::Aggregate(op) && (input matches Some(i) && reads_as(
            *op.input,
            *i,
        )) && plain_grouping(op.group_by, read_exprs(group_expr)) && aggregates::aggregates(
            op.aggr_expr@,
        ) == read_aggregates(aggregate_expr) && op.schema@ == operators::read_schema(
            schema.unwrap(),
        ) && op.input_schema@ == op.input.spec_schema() && op.mode == read_mode(mode)
            && op.filter_expr@ == Seq::new(aggregate_expr.len(), |i: int| None::<PhysicalExpr>)
            && one_partition(op.properties),
        PhysicalPlanModel::ShuffleWriter {
            input,
            partition_expr,
            job_uuid,
            stage_id,
            partition_count,
        } => plan matches ExecutionPlan::ShuffleWriter(op) && (input matches Some(i) && reads_as(
            *op.input,
            *i,
        )) && expr::exprs(op.partition_expr@) == read_exprs(partition_expr) && op.job_uuid@
            == job_uuid && op.stage_id == stage_id && op.partition_count == partition_count
            && one_partition(op.properties),
        PhysicalPlanModel::ShuffleReader { schema, shuffle_locations } => plan matches ExecutionPlan::ShuffleReader(
            op,
        ) && op.shuffle_schema@ == operators::read_schema(schema.unwrap())
            && shuffle_location::locations(op.shuffle_locations@) == shuffle_locations
            && one_partition(op.properties),
    }
}

fn read_scan(
    path: &String,
    schema: &SchemaMessage,
    projection: &Vec<String>,
    file_format: &String,
) -> (r: DataSource)
    requires
        operators::readable_schema(schema@),
        all_fields_known(operators::read_schema(schema@), text::views(projection@)),
        file_format@ == "csv"@ || file_format@ == "parquet"@,
    ensures
        source_reads_as(
            r,
            path@,
            operators::read_schema(schema@),
            text::views(projection@),
            file_format@,
        ),
{
    let full_schema = deserialize_schema(schema);
    let indices = projection_positions(&full_schema, projection);
    let csv: String = owned("csv");
    if same_text(file_format, &csv) {
        DataSource::Csv(
            CsvDataSourceConfig {
                filename: path.clone(),
                full_schema,
                projection: indices,
                has_headers: true,
                batch_size: 1024,
                delimiter: 44,
            },
        )
    } else {
        DataSource::Parquet(
            ParquetDataSourceConfig { filename: path.clone(), full_schema, projection: indices },
        )
    }
}

fn name_groups(groups: Vec<PhysicalExpr>) -> (r: Vec<(PhysicalExpr, String)>)
    ensures
        r@.len() == groups@.len(),
        forall|i: int|
            0 <= i < r@.len() ==> (#[trigger] r@[i]).0@ == groups@[i]@ && r@[i].1@
                == expr::expr_text(groups@[i]@),
{
    let mut r: Vec<(PhysicalExpr, String)> = Vec::new();
    let mut i: usize = 0;
    while i < groups.len()
        invariant
            i <= groups.len(),
            r.len() == i,
            forall|j: int|
                0 <= j < i ==> (#[trigger] r@[j]).0@ == groups@[j]@ && r@[j].1@
                    == expr::expr_text(groups@[j]@),
        decreases groups.len() - i,
    {
        let alias = groups[i].to_string();
        r.push((groups[i].clone(), alias));
        i += 1;
    }
    r
}

fn no_filters(n: usize) -> (r: Vec<Option<PhysicalExpr>>)
    ensures
        r@ == Seq::new(n as nat, |i: int| None::<PhysicalExpr>),
{
    let mut r: Vec<Option<PhysicalExpr>> = Vec::new();
    let mut i: usize = 0;
    while i < n
        invariant
            i <= n,
            r@ == Seq::new(i as nat, |i: int| None::<PhysicalExpr>),
        decreases n - i,
    {
        r.push(None);
        i += 1;
        assert(r@ == Seq::new(i as nat, |i: int| None::<PhysicalExpr>));
    }
    r
}

fn read_aggregation(
    input: ExecutionPlan,
    group_expr: &Vec<PhysicalExprNode>,
    aggregate_expr: &Vec<PhysicalAggregateExprNode>,
    schema: &SchemaMessage,
    mode: AggregateModeTag,
) -> (r: AggregateExec)
    requires
        readable_exprs(messages::expr_models(group_expr@)),
        readable_aggregates(messages::aggregate_models(aggregate_expr@)),
        operators::readable_schema(schema@),
    ensures
        *r.input == input,
        plain_grouping(r.group_by, read_exprs(messages::expr_models(group_expr@))),
        aggregates::aggregates(r.aggr_expr@) == read_aggregates(
            messages::aggregate_models(aggregate_expr@),
        ),
        r.schema@ == operators::read_schema(schema@),
        r.input_schema@ == input.spec_schema(),
        r.mode == read_mode(mode),
        r.filter_expr@ == Seq::new(aggregate_expr@.len(), |i: int| None::<PhysicalExpr>),
        one_partition(r.properties),
{
    let groups = deserialize_exprs(group_expr);
    let ghost group_values = expr::exprs(groups@);
    let pairs = name_groups(groups);
    let group_by = PhysicalGroupBy::new_single(pairs);
    proof {
        assert forall|i: int| 0 <= i < group_values.len() implies (#[trigger] group_by.expr@[i]).0@
            == group_values[i] && group_by.expr@[i].1@ == expr::expr_text(group_values[i]) by {
            assert(pairs@[i].0@ == group_values[i]);
        }
    }
    let aggregates = deserialize_aggregates(aggregate_expr);
    assert(aggregates::aggregates(aggregates@).len() == aggregate_expr@.len());
    let filters = no_filters(aggregate_expr.len());
    let input_schema = input.schema();
    let output_schema = deserialize_schema(schema);
    let made = AggregateExec::try_new(
        aggregate_mode_from_proto(mode),
        group_by,
        aggregates,
        filters,
        Arc::new(input),
        input_schema,
        output_schema,
    );
    made.unwrap()
}

/// The plan that a message gives.
pub fn deserialize_physical_plan(node: &PhysicalPlanNode) -> (r: ExecutionPlan)
    requires
        readable_plan(node@),
    ensures
        reads_as(r, node@),
    decreases node,
{
    match &node.plan_type {
        Some(
            PhysicalPlanType::Scan { path, schema: Some(schema), projection, file_format },
        ) => {
            let source = read_scan(path, schema, projection, file_format);
            ExecutionPlan::DataSource(DataSourceExec::new(source))
        },
        Some(
            PhysicalPlanType::Projection { input: Some(input), schema: Some(schema), expr },
        ) => {
            let below = deserialize_physical_plan(input);
            let exprs = deserialize_exprs(expr);
            ExecutionPlan::Projection(
                ProjectionExec::new(exprs, Arc::new(below), deserialize_schema(schema)),
            )
        },
        Some(PhysicalPlanType::Selection { input: Some(input), expr: Some(expr) }) => {
            let below = deserialize_physical_plan(input);
            let predicate = deserialize_physical_expr(expr);
            ExecutionPlan::Filter(FilterExec::new(predicate, Arc::new(below)))
        },
        Some(
            PhysicalPlanType::HashAggregate {
                input: Some(input),
                group_expr,
                aggregate_expr,
                schema: Some(schema),
                mode,
            },
        ) => {
            let below = deserialize_physical_plan(input);
            ExecutionPlan::Aggregate(
                read_aggregation(below, group_expr, aggregate_expr, schema, *mode),
            )
        },
        Some(
            PhysicalPlanType::ShuffleWriter {
                input: Some(input),
                partition_expr,
                job_uuid,
                stage_id,
                partition_count,
            },
        ) => {
            let below = deserialize_physical_plan(input);
            let exprs = deserialize_exprs(partition_expr);
            ExecutionPlan::ShuffleWriter(
                ShuffleWriterExec::new(
                    Arc::new(below),
                    exprs,
                    job_uuid.as_str(),
                    *stage_id,
                    *partition_count,
                ),
            )
        },
        Some(PhysicalPlanType::ShuffleReader { schema: Some(schema), shuffle_locations }) => {
            ExecutionPlan::ShuffleReader(
                ShuffleReaderExec::new(
                    deserialize_schema(schema),
                    deserialize_locations(shuffle_locations),
                ),
            )
        },
        _ => vstd::pervasive::unreached(),
    }
}

/// The task that a message gives.
pub fn deserialize_task(task: &TaskInfo) -> (r: Task)
    requires
        task.plan matches Some(plan) && readable_plan(plan@),
    ensures
        r.job_uuid@ == task.job_uuid@,
        r.stage_id == task.stage_id,
        r.task_id == task.task_id,
        r.partition_id == task.partition_id,
        task.plan matches Some(plan) && reads_as(*r.plan, plan@),
{
    let plan = match &task.plan {
        Some(node) => deserialize_physical_plan(node),
        None => vstd::pervasive::unreached(),
    };
    Task::new(
        task.job_uuid.as_str(),
        task.stage_id,
        task.task_id,
        task.partition_id,
        Arc::new(plan),
    )
}

} // verus!
