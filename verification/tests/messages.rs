use std::sync::Arc;

use fdapquery::aggregate_exec::AggregateExec;
use fdapquery::aggregates::{AggregateExpr, AggregateFunction, AggregateMode, PhysicalGroupBy};
use fdapquery::display::{DisplayAs, DisplayFormatType};
use fdapquery::expr::{Operator, PhysicalExpr};
use fdapquery::filter_exec::FilterExec;
use fdapquery::join_table::JoinType;
use fdapquery::logical_plan::{LogicalExpr, LogicalPlan, TableSource};
use fdapquery::plan::ExecutionPlan;
use fdapquery::plan_display::displayable;
use fdapquery::projection_exec::ProjectionExec;
use fdapquery::proto::operators::{
    data_type_to_proto, from_proto_arrow_type, operator_from_wire, operator_wire_name,
};
use fdapquery::proto::physical_plan_deserializer::{
    deserialize_physical_aggr_expr, deserialize_physical_expr, deserialize_physical_plan,
    deserialize_shuffle_location, deserialize_task,
};
use fdapquery::proto::physical_plan_serializer::{
    serialize_physical_aggr_expr, serialize_physical_expr, serialize_physical_plan,
    serialize_schema, serialize_shuffle_location, serialize_task,
};
use fdapquery::proto::messages::ActionMessage;
use fdapquery::proto::protobuf_deserializer::{
    deserialize_action, deserialize_logical_plan, deserialize_schema,
};
use fdapquery::proto::protobuf_serializer::serialize_logical_plan;
use fdapquery::scalar::ScalarValue;
use fdapquery::schema::{DataType, Field, Schema};
use fdapquery::shuffle_location::ShuffleLocation;
use fdapquery::shuffle_reader_exec::ShuffleReaderExec;
use fdapquery::shuffle_writer_exec::ShuffleWriterExec;
use fdapquery::task::Task;

const EMPLOYEE_CSV: &str = "../testdata/employee.csv";

fn column(name: &str) -> LogicalExpr {
    LogicalExpr::Column(name.to_string())
}

fn csv_scan() -> LogicalPlan {
    LogicalPlan::TableScan {
        path: EMPLOYEE_CSV.to_string(),
        source: TableSource::Csv { has_headers: true, batch_size: 1024 },
        projection: vec![],
    }
}

fn expr_text(expr: &LogicalExpr) -> String {
    match expr {
        LogicalExpr::Column(name) => format!("#{name}"),
        LogicalExpr::Literal(value) => value.to_string(),
        LogicalExpr::BinaryExpr { left, op, right } => {
            format!("{} {} {}", expr_text(left), op.symbol(), expr_text(right))
        }
        LogicalExpr::Alias { expr, alias } => format!("{} as {alias}", expr_text(expr)),
        LogicalExpr::AggregateFunction { func, args, distinct } => {
            let args: Vec<String> = args.iter().map(expr_text).collect();
            let distinct = if *distinct { "DISTINCT " } else { "" };
            format!("{}({distinct}{})", func.name(), args.join(", "))
        }
        LogicalExpr::Other(text) => text.clone(),
    }
}

fn list_text(list: &[LogicalExpr]) -> String {
    list.iter().map(expr_text).collect::<Vec<String>>().join(", ")
}

fn plan_text(plan: &LogicalPlan, depth: usize) -> String {
    let indent = "\t".repeat(depth);
    match plan {
        LogicalPlan::TableScan { path, projection, .. } => {
            let shown =
                if projection.is_empty() { "None".to_string() } else { projection.join(", ") };
            format!("{indent}TableScan: {path}; projection={shown}\n")
        }
        LogicalPlan::Projection { input, expr } => {
            format!("{indent}Projection: {}\n{}", list_text(expr), plan_text(input, depth + 1))
        }
        LogicalPlan::Filter { input, expr } => {
            format!("{indent}Filter: {}\n{}", expr_text(expr), plan_text(input, depth + 1))
        }
        LogicalPlan::Limit { input, limit } => {
            format!("{indent}Limit: {limit}\n{}", plan_text(input, depth + 1))
        }
        LogicalPlan::Aggregate { input, group_expr, aggregate_expr } => format!(
            "{indent}Aggregate: group={}, aggregates={}\n{}",
            list_text(group_expr),
            list_text(aggregate_expr),
            plan_text(input, depth + 1)
        ),
        LogicalPlan::Join { left, right, join_type, .. } => format!(
            "{indent}Join: {}\n{}{}",
            join_type.name(),
            plan_text(left, depth + 1),
            plan_text(right, depth + 1)
        ),
        _ => format!("{indent}?\n"),
    }
}

fn roundtrip(plan: &LogicalPlan) -> LogicalPlan {
    deserialize_logical_plan(&serialize_logical_plan(plan))
}

#[test]
fn convert_plan_to_protobuf() {
    let filter = LogicalPlan::Filter {
        input: Box::new(csv_scan()),
        expr: LogicalExpr::BinaryExpr {
            left: Box::new(column("state")),
            op: Operator::Eq,
            right: Box::new(LogicalExpr::Literal(ScalarValue::Utf8("CO".to_string()))),
        },
    };
    let plan = LogicalPlan::Projection {
        input: Box::new(filter),
        expr: vec![column("id"), column("first_name"), column("last_name")],
    };
    let logical_plan = roundtrip(&plan);
    let expected = "Projection: #id, #first_name, #last_name\n\
                    \tFilter: #state = CO\n\
                    \t\tTableScan: ../testdata/employee.csv; projection=None\n";
    assert_eq!(plan_text(&logical_plan, 0), expected);
}

#[test]
fn aggregates_limits_and_joins_survive_too() {
    let aggregate = LogicalPlan::Aggregate {
        input: Box::new(csv_scan()),
        group_expr: vec![column("state")],
        aggregate_expr: vec![LogicalExpr::AggregateFunction {
            func: AggregateFunction::Max,
            args: vec![column("salary")],
            distinct: false,
        }],
    };
    let limit = LogicalPlan::Limit { input: Box::new(aggregate), limit: 3 };
    assert_eq!(plan_text(&roundtrip(&limit), 0), plan_text(&limit, 0));
}

#[test]
fn column_name_survives_proto_round_trip() {
    let original = PhysicalExpr::column("salary", 5);
    let restored = deserialize_physical_expr(&serialize_physical_expr(&original));
    match restored {
        PhysicalExpr::Column { name, index } => {
            assert_eq!(name, "salary");
            assert_eq!(index, 5);
        }
        other => panic!("restored expr should be a Column, got {other:?}"),
    }
}

#[test]
fn literal_round_trip_preserves_value_and_display() {
    let cases: Vec<(ScalarValue, &str)> = vec![
        (ScalarValue::Int64(42), "42"),
        (ScalarValue::Float64(1.5f64.to_bits()), "1.5"),
        (ScalarValue::Utf8("CO".to_string()), "CO"),
        (ScalarValue::Date32(18750), "2021-05-03"),
    ];
    for (scalar, expected_display) in cases {
        let original = PhysicalExpr::literal(scalar.clone());
        let restored = deserialize_physical_expr(&serialize_physical_expr(&original));
        assert_eq!(restored.to_string(), expected_display);
        match restored {
            PhysicalExpr::Literal { value } => assert_eq!(value, scalar),
            other => panic!("restored expr should be a Literal, got {other:?}"),
        }
    }
}

#[test]
fn every_operator_has_a_name_that_reads_back() {
    for op in [
        Operator::Eq,
        Operator::NotEq,
        Operator::Lt,
        Operator::LtEq,
        Operator::Gt,
        Operator::GtEq,
        Operator::And,
        Operator::Or,
        Operator::Plus,
        Operator::Minus,
        Operator::Multiply,
        Operator::Divide,
    ] {
        let name = operator_wire_name(op).to_string();
        assert_eq!(operator_from_wire(&name), Some(op));
    }
    assert_eq!(operator_from_wire(&"xor".to_string()), None);
}

#[test]
fn types_read_back() {
    for t in [
        DataType::Boolean,
        DataType::Int8,
        DataType::Int64,
        DataType::UInt32,
        DataType::Float32,
        DataType::Float64,
        DataType::Utf8,
        DataType::Date32,
    ] {
        assert_eq!(from_proto_arrow_type(data_type_to_proto(t)), t);
    }
}

#[test]
fn schemas_read_back() {
    let schema = Schema::new(vec![
        Field::new("id", DataType::Int64, true),
        Field::new("name", DataType::Utf8, false),
    ]);
    let restored = deserialize_schema(&serialize_schema(&schema));
    let nullable = Schema::new(vec![
        Field::new("id", DataType::Int64, true),
        Field::new("name", DataType::Utf8, true),
    ]);
    assert_eq!(restored.fields, nullable.fields);
}

#[test]
fn nested_expressions_read_back() {
    let original = PhysicalExpr::binary(
        PhysicalExpr::cast(PhysicalExpr::column("a", 1), DataType::Float64),
        Operator::GtEq,
        PhysicalExpr::binary(
            PhysicalExpr::column("b", 2),
            Operator::Plus,
            PhysicalExpr::literal(ScalarValue::Int64(7)),
        ),
    );
    let restored = deserialize_physical_expr(&serialize_physical_expr(&original));
    assert_eq!(restored.to_string(), original.to_string());
}

#[test]
fn aggregate_expressions_read_back() {
    for function in [
        AggregateFunction::Min,
        AggregateFunction::Max,
        AggregateFunction::Sum,
        AggregateFunction::Avg,
        AggregateFunction::Count,
    ] {
        let original = AggregateExpr::new(function, PhysicalExpr::column("salary", 5));
        let restored = deserialize_physical_aggr_expr(&serialize_physical_aggr_expr(&original));
        assert_eq!(restored.to_string(), original.to_string());
        assert_eq!(restored.function, function);
    }
}

fn reader() -> Arc<ExecutionPlan> {
    let schema = Schema::new(vec![
        Field::new("id", DataType::Int64, true),
        Field::new("state", DataType::Utf8, true),
    ]);
    let location = ShuffleLocation::new("job", 1, 2, "exec-1", "127.0.0.1", 50051);
    Arc::new(ExecutionPlan::ShuffleReader(ShuffleReaderExec::new(schema, vec![location])))
}

fn distributed_plan() -> ExecutionPlan {
    let filter = ExecutionPlan::Filter(FilterExec::new(
        PhysicalExpr::binary(
            PhysicalExpr::column("id", 0),
            Operator::Gt,
            PhysicalExpr::literal(ScalarValue::Int64(2)),
        ),
        reader(),
    ));
    let projection = ExecutionPlan::Projection(ProjectionExec::new(
        vec![PhysicalExpr::column("state", 1)],
        Arc::new(filter),
        Schema::new(vec![Field::new("state", DataType::Utf8, true)]),
    ));
    ExecutionPlan::ShuffleWriter(ShuffleWriterExec::new(
        Arc::new(projection),
        vec![PhysicalExpr::column("state", 0)],
        "job",
        3,
        4,
    ))
}

#[test]
fn physical_plans_read_back() {
    let plan = distributed_plan();
    let restored = deserialize_physical_plan(&serialize_physical_plan(&plan));
    assert_eq!(displayable(&restored).indent(false), displayable(&plan).indent(false));
    assert_eq!(restored.schema().fields, plan.schema().fields);
}

#[test]
fn physical_aggregations_read_back() {
    let schema = Schema::new(vec![
        Field::new("state", DataType::Utf8, true),
        Field::new("max_id", DataType::Int64, true),
    ]);
    let state = PhysicalExpr::column("state", 1);
    let plan = ExecutionPlan::Aggregate(
        AggregateExec::try_new(
            AggregateMode::Partial,
            PhysicalGroupBy::new_single(vec![(state, "state@1".to_string())]),
            vec![AggregateExpr::new(AggregateFunction::Max, PhysicalExpr::column("id", 0))],
            vec![None],
            reader(),
            reader().schema(),
            schema,
        )
        .unwrap(),
    );
    let restored = deserialize_physical_plan(&serialize_physical_plan(&plan));
    assert_eq!(
        restored.fmt_as(DisplayFormatType::Default),
        "AggregateExec: mode=Partial, gby=[state@1], aggr=[MAX(id@0)]"
    );
    assert_eq!(restored.schema().fields, plan.schema().fields);
    match restored {
        ExecutionPlan::Aggregate(op) => assert_eq!(op.group_by.groups, vec![vec![false]]),
        other => panic!("unexpected operator {}", other.name()),
    }
}

#[test]
fn shuffle_locations_read_back() {
    let location = ShuffleLocation::new("job", 1, 2, "exec-1", "127.0.0.1", 50051);
    let restored = deserialize_shuffle_location(&serialize_shuffle_location(&location));
    assert_eq!(restored.job_uuid, "job");
    assert_eq!(restored.stage_id, 1);
    assert_eq!(restored.partition_id, 2);
    assert_eq!(restored.executor_id, "exec-1");
    assert_eq!(restored.executor_host, "127.0.0.1");
    assert_eq!(restored.executor_port, 50051);
}

#[test]
fn tasks_read_back() {
    let task = Task::new("job", 3, 5, 7, Arc::new(distributed_plan()));
    let restored = deserialize_task(&serialize_task(&task));
    assert_eq!(restored.job_uuid, "job");
    assert_eq!((restored.stage_id, restored.task_id, restored.partition_id), (3, 5, 7));
    assert_eq!(
        displayable(&restored.plan).indent(false),
        displayable(&distributed_plan()).indent(false)
    );
}

#[test]
fn join_types_have_names() {
    assert_eq!(JoinType::LeftSemi.name(), "LeftSemi");
    assert_eq!(JoinType::Inner.name(), "Inner");
}

#[test]
fn an_action_carries_a_query() {
    let action = ActionMessage { query: Some(serialize_logical_plan(&csv_scan())) };
    let restored = deserialize_action(&action);
    assert_eq!(plan_text(&restored.plan, 0), plan_text(&csv_scan(), 0));
}
