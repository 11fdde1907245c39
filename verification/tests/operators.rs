use std::sync::Arc;

use arrow_array::{ArrayRef, Int64Array, StringArray};
use fdapquery::batch::RecordBatch;
use fdapquery::boolean_expression::{BooleanExpression, ColumnVector};
use fdapquery::data_source_exec::{CsvDataSourceConfig, DataSource, DataSourceExec, ParquetDataSourceConfig};
use fdapquery::display::{DisplayAs, DisplayFormatType};
use fdapquery::error::FdapQueryError;
use fdapquery::expr::{Operator, PhysicalExpr};
use fdapquery::extension_exec::ExtensionExec;
use fdapquery::filter_exec::{FilterExec, SelectionExec};
use fdapquery::limit_exec::{GlobalLimitExec, LimitExec, LocalLimitExec};
use fdapquery::limits::LimitState;
use fdapquery::memory_exec::MemoryExec;
use fdapquery::plan::ExecutionPlan;
use fdapquery::plan_display::displayable;
use fdapquery::projection_exec::ProjectionExec;
use fdapquery::scalar::ScalarValue;
use fdapquery::scan_exec::ScanExec;
use fdapquery::schema::{DataType, Field, Schema};

fn employee_schema() -> Schema {
    Schema::new(vec![
        Field::new("id", DataType::Int64, true),
        Field::new("first_name", DataType::Utf8, true),
        Field::new("last_name", DataType::Utf8, true),
        Field::new("state", DataType::Utf8, true),
        Field::new("job_title", DataType::Utf8, true),
        Field::new("salary", DataType::Int64, true),
    ])
}

fn numbers(values: &[i64]) -> Vec<ScalarValue> {
    values.iter().map(|v| ScalarValue::Int64(*v)).collect()
}

fn texts(values: &[Option<&str>]) -> Vec<ScalarValue> {
    values
        .iter()
        .map(|v| match v {
            Some(s) => ScalarValue::Utf8(s.to_string()),
            None => ScalarValue::Null,
        })
        .collect()
}

fn employee_batch() -> RecordBatch {
    RecordBatch::try_new(
        employee_schema(),
        vec![
            numbers(&[1, 2, 3, 4]),
            texts(&[Some("Bill"), Some("Gregg"), Some("John"), Some("Von")]),
            texts(&[Some("Hopkins"), Some("Langford"), Some("Travis"), Some("Mill")]),
            texts(&[Some("CA"), Some("CO"), Some("CO"), None]),
            texts(&[
                Some("Manager"),
                Some("Driver"),
                Some("Manager, Software"),
                Some("Defensive End"),
            ]),
            numbers(&[12000, 10000, 11500, 11500]),
        ],
    )
    .unwrap()
}

fn employee_source() -> Arc<ExecutionPlan> {
    Arc::new(ExecutionPlan::Extension(ExtensionExec::leaf(
        "TestSourceExec",
        "TestSourceExec: batches=1",
        employee_schema(),
    )))
}

fn employee_scan() -> ScanExec {
    let columns: Vec<String> =
        employee_schema().fields.iter().map(|f| f.name.clone()).collect();
    ScanExec::new(employee_schema(), columns).unwrap()
}

fn limited(mut state: LimitState, batches: Vec<RecordBatch>) -> Vec<RecordBatch> {
    let mut out = Vec::new();
    for batch in batches {
        if !state.wants_more() {
            break;
        }
        if let Some(b) = state.next_batch(batch) {
            out.push(b);
        }
    }
    out
}

fn truncated(plan: &LimitExec, batches: Vec<RecordBatch>) -> Vec<RecordBatch> {
    let mut state = plan.execute(0).unwrap();
    let mut out = Vec::new();
    for batch in batches {
        if !state.wants_more() {
            break;
        }
        out.push(plan.next_batch(&mut state, batch).unwrap());
    }
    out
}

fn total_rows(batches: &[RecordBatch]) -> usize {
    batches.iter().map(|b| b.num_rows()).sum()
}

fn ids(batches: &[RecordBatch]) -> Vec<i64> {
    batches
        .iter()
        .flat_map(|b| b.columns[0].iter())
        .map(|v| match v {
            ScalarValue::Int64(n) => *n,
            other => panic!("id: {other:?}"),
        })
        .collect()
}

/// `id > 2`, for each row of a batch.
fn id_above_two(batch: &RecordBatch) -> Vec<ScalarValue> {
    let left = ColumnVector {
        data_type: DataType::Int64,
        values: batch.columns[0].iter().map(|v| v.clone()).collect(),
    };
    let right = ColumnVector {
        data_type: DataType::Int64,
        values: batch.columns[0].iter().map(|_| ScalarValue::Int64(2)).collect(),
    };
    BooleanExpression::Gt.evaluate_boolean(&left, &right).unwrap().values
}

fn predicate() -> PhysicalExpr {
    PhysicalExpr::binary(
        PhysicalExpr::column("id", 0),
        Operator::Gt,
        PhysicalExpr::literal(ScalarValue::Int64(2)),
    )
}

fn id_schema() -> Schema {
    Schema::new(vec![Field::new("id", DataType::Int64, true)])
}

fn id_column(batch: &RecordBatch) -> Vec<Vec<ScalarValue>> {
    vec![batch.columns[0].iter().map(|v| v.clone()).collect()]
}

#[test]
fn filter_exec_display_default_matches_datafusion() {
    let predicate_str = predicate().to_string();
    let filter = FilterExec::new(predicate(), employee_source());
    assert_eq!(filter.fmt_as(DisplayFormatType::Default), format!("FilterExec: {predicate_str}"));
    assert_eq!(predicate_str, "id@0 > 2");
}

#[test]
fn filter_exec_displayable_indent_default_first_line() {
    let predicate_str = predicate().to_string();
    let plan = ExecutionPlan::Filter(FilterExec::new(predicate(), employee_source()));
    let rendered = displayable(&plan).indent(false);
    let first_line = rendered.lines().next().unwrap();
    assert_eq!(first_line, format!("FilterExec: {predicate_str}"));
}

#[test]
fn predicate_and_input_accessors() {
    let filter = FilterExec::new(predicate(), employee_source());
    assert_eq!(filter.predicate().to_string(), predicate().to_string());
    assert_eq!(filter.input().name(), "TestSourceExec");
}

#[test]
fn global_limit_exec_scan_reads_all_rows() {
    let scan = employee_source();
    assert_eq!(total_rows(&[employee_batch()]), 4);
    assert!(scan.children().is_empty());
}

#[test]
fn global_limit_exec_limit_truncates_to_budget() {
    let plan = GlobalLimitExec::new(employee_source(), 0, Some(3));
    let out = limited(plan.execute(0).unwrap(), vec![employee_batch()]);
    assert_eq!(total_rows(&out), 3);
    assert_eq!(ids(&out), vec![1, 2, 3]);
}

#[test]
fn global_limit_exec_limit_above_total_keeps_everything() {
    let plan = GlobalLimitExec::new(employee_source(), 0, Some(100));
    let out = limited(plan.execute(0).unwrap(), vec![employee_batch()]);
    assert_eq!(total_rows(&out), 4);
}

#[test]
fn skip_drops_leading_rows() {
    let plan = GlobalLimitExec::new(employee_source(), 2, None);
    let out = limited(plan.execute(0).unwrap(), vec![employee_batch()]);
    assert_eq!(total_rows(&out), 2);
    assert_eq!(ids(&out), vec![3, 4]);
}

#[test]
fn skip_plus_fetch_window() {
    let plan = GlobalLimitExec::new(employee_source(), 1, Some(2));
    let out = limited(plan.execute(0).unwrap(), vec![employee_batch()]);
    assert_eq!(total_rows(&out), 2);
    assert_eq!(ids(&out), vec![2, 3]);
}

#[test]
fn skip_past_end_returns_empty() {
    let plan = GlobalLimitExec::new(employee_source(), 10, Some(5));
    let out = limited(plan.execute(0).unwrap(), vec![employee_batch()]);
    assert_eq!(total_rows(&out), 0);
}

#[test]
fn a_window_reaches_across_batches() {
    let plan = GlobalLimitExec::new(employee_source(), 3, Some(6));
    let batches = vec![employee_batch(), employee_batch(), employee_batch(), employee_batch()];
    let out = limited(plan.execute(0).unwrap(), batches);
    assert_eq!(ids(&out), vec![4, 1, 2, 3, 4, 1]);
    assert_eq!(out.len(), 3);
}

#[test]
fn a_limit_of_nothing_wants_nothing() {
    let plan = GlobalLimitExec::new(employee_source(), 0, Some(0));
    assert!(!plan.execute(0).unwrap().wants_more());
}

#[test]
fn limits_have_one_partition() {
    let error = GlobalLimitExec::new(employee_source(), 0, None).execute(2).unwrap_err();
    assert_eq!(
        error.message(),
        "GlobalLimitExec has 1 output partition; partition 2 is out of range"
    );
    assert!(LocalLimitExec::new(employee_source(), 1).execute(1).is_err());
    assert!(LimitExec::new(employee_source(), 1).execute(1).is_err());
}

#[test]
fn global_limit_exec_display_default_matches_datafusion() {
    let plan = GlobalLimitExec::new(employee_source(), 0, Some(10));
    assert_eq!(plan.fmt_as(DisplayFormatType::Default), "GlobalLimitExec: skip=0, fetch=10");

    let plan = GlobalLimitExec::new(employee_source(), 5, None);
    assert_eq!(plan.fmt_as(DisplayFormatType::Default), "GlobalLimitExec: skip=5, fetch=None");

    let plan = GlobalLimitExec::new(employee_source(), 3, Some(7));
    assert_eq!(plan.fmt_as(DisplayFormatType::Default), "GlobalLimitExec: skip=3, fetch=7");
}

#[test]
fn global_limit_exec_displayable_indent_default_first_line() {
    let plan = ExecutionPlan::GlobalLimit(GlobalLimitExec::new(employee_source(), 0, Some(10)));
    let rendered = displayable(&plan).indent(false);
    let first_line = rendered.lines().next().unwrap();
    assert_eq!(first_line, "GlobalLimitExec: skip=0, fetch=10");
    assert_eq!(rendered, "GlobalLimitExec: skip=0, fetch=10\n  TestSourceExec: batches=1\n");
}

#[test]
fn global_limit_exec_projection_keeps_one_column() {
    let proj = ProjectionExec::new(
        vec![PhysicalExpr::column("id", 0)],
        employee_source(),
        id_schema(),
    );
    let out = proj.next_batch(id_column(&employee_batch())).unwrap();
    assert_eq!(out.num_rows(), 4);
    assert_eq!(out.num_columns(), 1);
}

#[test]
fn filter_drops_non_matching_rows() {
    let filter = FilterExec::new(predicate(), employee_source());
    let batch = employee_batch();
    let out = filter.next_batch(&batch, &id_above_two(&batch)).unwrap();
    assert_eq!(out.num_rows(), 2);
    assert_eq!(ids(&[out]), vec![3, 4]);
    assert_eq!(ExecutionPlan::Filter(filter).schema().fields.len(), 6);
}

#[test]
fn a_null_predicate_drops_the_row() {
    let filter = FilterExec::new(predicate(), employee_source());
    let mask = vec![
        ScalarValue::Null,
        ScalarValue::Boolean(true),
        ScalarValue::Boolean(false),
        ScalarValue::Null,
    ];
    let out = filter.next_batch(&employee_batch(), &mask).unwrap();
    assert_eq!(ids(&[out]), vec![2]);
}

#[test]
fn global_limit_exec_pipeline_scan_select_project_limit() {
    let filter = FilterExec::new(predicate(), employee_source());
    let projection = ProjectionExec::new(
        vec![PhysicalExpr::column("id", 0)],
        Arc::new(ExecutionPlan::Filter(FilterExec::new(predicate(), employee_source()))),
        id_schema(),
    );
    let limit = GlobalLimitExec::new(
        Arc::new(ExecutionPlan::Projection(ProjectionExec::new(
            vec![PhysicalExpr::column("id", 0)],
            employee_source(),
            id_schema(),
        ))),
        0,
        Some(1),
    );
    let batch = employee_batch();
    let kept = filter.next_batch(&batch, &id_above_two(&batch)).unwrap();
    let projected = projection.next_batch(id_column(&kept)).unwrap();
    let out = limited(limit.execute(0).unwrap(), vec![projected]);
    assert_eq!(total_rows(&out), 1);
    assert!(out.iter().all(|b| b.num_columns() == 1));
    assert_eq!(ids(&out), vec![3]);
}

#[test]
fn limit_exec_scan_reads_all_rows() {
    let scan = ExecutionPlan::Scan(employee_scan());
    assert_eq!(scan.schema().fields.len(), 6);
    assert_eq!(total_rows(&[employee_batch()]), 4);
    assert!(scan.children().is_empty());
}

#[test]
fn limit_exec_limit_truncates_to_budget() {
    let plan = LimitExec::new(Arc::new(ExecutionPlan::Scan(employee_scan())), 3);
    let out = truncated(&plan, vec![employee_batch()]);
    assert_eq!(total_rows(&out), 3);
}

#[test]
fn limit_exec_limit_above_total_keeps_everything() {
    let plan = LimitExec::new(Arc::new(ExecutionPlan::Scan(employee_scan())), 100);
    let out = truncated(&plan, vec![employee_batch()]);
    assert_eq!(total_rows(&out), 4);
}

#[test]
fn a_cut_batch_must_fit_the_schema_of_the_input() {
    let plan = LimitExec::new(employee_source(), 2);
    let mut state = plan.execute(0).unwrap();
    let narrow = employee_batch().project(&vec![0]).unwrap();
    let error = plan.next_batch(&mut state, narrow).unwrap_err();
    assert_eq!(
        error.message(),
        "number of columns(1) must match number of fields(6) in schema"
    );
}

#[test]
fn limit_exec_projection_keeps_one_column() {
    let scan = Arc::new(ExecutionPlan::Scan(employee_scan()));
    let proj = ProjectionExec::new(vec![PhysicalExpr::column("id", 0)], scan, id_schema());
    let out = proj.next_batch(id_column(&employee_batch())).unwrap();
    assert_eq!(out.num_rows(), 4);
    assert_eq!(out.num_columns(), 1);
}

#[test]
fn selection_filters_rows() {
    let scan = Arc::new(ExecutionPlan::Scan(employee_scan()));
    let selection = SelectionExec::new(scan, predicate());
    let batch = employee_batch();
    let out = selection.next_batch(&batch, &id_above_two(&batch)).unwrap();
    assert_eq!(out.num_rows(), 2);
    assert_eq!(ExecutionPlan::Selection(selection).schema().fields.len(), 6);
}

#[test]
fn limit_exec_pipeline_scan_select_project_limit() {
    let scan = Arc::new(ExecutionPlan::Scan(employee_scan()));
    let selection = SelectionExec::new(scan, predicate());
    let batch = employee_batch();
    let kept = selection.next_batch(&batch, &id_above_two(&batch)).unwrap();
    let projection = ProjectionExec::new(
        vec![PhysicalExpr::column("id", 0)],
        Arc::new(ExecutionPlan::Selection(selection)),
        id_schema(),
    );
    let projected = projection.next_batch(id_column(&kept)).unwrap();
    let limit = LimitExec::new(Arc::new(ExecutionPlan::Projection(projection)), 1);
    let out = truncated(&limit, vec![projected]);
    assert_eq!(total_rows(&out), 1);
    assert!(out.iter().all(|b| b.num_columns() == 1));
}

#[test]
fn local_limit_truncates_to_fetch() {
    let plan = LocalLimitExec::new(employee_source(), 2);
    let out = limited(plan.execute(0).unwrap(), vec![employee_batch()]);
    assert_eq!(total_rows(&out), 2);
}

#[test]
fn local_limit_exec_display_default_matches_datafusion() {
    let plan = LocalLimitExec::new(employee_source(), 7);
    assert_eq!(plan.fmt_as(DisplayFormatType::Default), "LocalLimitExec: fetch=7");

    let plan = LocalLimitExec::new(employee_source(), 0);
    assert_eq!(plan.fmt_as(DisplayFormatType::Default), "LocalLimitExec: fetch=0");
}

#[test]
fn local_limit_exec_displayable_indent_default_first_line() {
    let plan = ExecutionPlan::LocalLimit(LocalLimitExec::new(employee_source(), 3));
    let rendered = displayable(&plan).indent(false);
    let first_line = rendered.lines().next().unwrap();
    assert_eq!(first_line, "LocalLimitExec: fetch=3");
}

#[test]
fn input_and_fetch_accessors() {
    let plan = LocalLimitExec::new(employee_source(), 5);
    assert_eq!(plan.input().name(), "TestSourceExec");
    assert_eq!(plan.fetch(), 5);
}

#[test]
fn projection_exec_display_default_matches_datafusion() {
    let col0_str = PhysicalExpr::column("id", 0).to_string();
    let proj = ProjectionExec::new(
        vec![PhysicalExpr::column("id", 0)],
        employee_source(),
        id_schema(),
    );
    assert_eq!(
        proj.fmt_as(DisplayFormatType::Default),
        format!("ProjectionExec: expr=[{col0_str}]")
    );

    let schema = Schema::new(vec![
        Field::new("id", DataType::Int64, true),
        Field::new("first_name", DataType::Utf8, true),
    ]);
    let c0_str = PhysicalExpr::column("id", 0).to_string();
    let c1_str = PhysicalExpr::column("first_name", 1).to_string();
    let proj = ProjectionExec::new(
        vec![PhysicalExpr::column("id", 0), PhysicalExpr::column("first_name", 1)],
        employee_source(),
        schema,
    );
    assert_eq!(
        proj.fmt_as(DisplayFormatType::Default),
        format!("ProjectionExec: expr=[{c0_str}, {c1_str}]")
    );
    assert_eq!(c1_str, "first_name@1");
}

#[test]
fn projection_exec_displayable_indent_default_first_line() {
    let col0_str = PhysicalExpr::column("id", 0).to_string();
    let plan = ExecutionPlan::Projection(ProjectionExec::new(
        vec![PhysicalExpr::column("id", 0)],
        employee_source(),
        id_schema(),
    ));
    let rendered = displayable(&plan).indent(false);
    let first_line = rendered.lines().next().unwrap();
    assert_eq!(first_line, format!("ProjectionExec: expr=[{col0_str}]"));
}

#[test]
fn expr_and_input_accessors() {
    let col0 = PhysicalExpr::column("id", 0);
    let proj = ProjectionExec::new(
        vec![PhysicalExpr::column("id", 0)],
        employee_source(),
        id_schema(),
    );
    assert_eq!(proj.expr().len(), 1);
    assert_eq!(proj.expr()[0].to_string(), col0.to_string());
    assert_eq!(proj.input().name(), "TestSourceExec");
}

#[test]
fn a_projection_refuses_columns_that_do_not_fit() {
    let proj = ProjectionExec::new(
        vec![PhysicalExpr::column("id", 0)],
        employee_source(),
        id_schema(),
    );
    let error = proj.next_batch(vec![numbers(&[1]), numbers(&[2])]).unwrap_err();
    assert!(matches!(error, FdapQueryError::ArrowError(_)));
    assert_eq!(
        error.message(),
        "number of columns(2) must match number of fields(1) in schema"
    );
}

fn one_col_schema() -> Schema {
    Schema::new(vec![Field::new("a", DataType::Int32, true)])
}

fn int_batch(values: &[i32]) -> RecordBatch {
    RecordBatch::try_new(
        one_col_schema(),
        vec![values.iter().map(|v| ScalarValue::Int32(*v)).collect()],
    )
    .unwrap()
}

#[test]
fn memory_exec_execute_yields_batches_in_order() {
    let plan = MemoryExec::new(one_col_schema(), vec![int_batch(&[1, 2]), int_batch(&[3, 4])]);
    let mut stream = plan.execute(0).unwrap();
    let mut collected = Vec::new();
    while let Some(batch) = stream.next() {
        collected.push(batch.unwrap());
    }
    assert_eq!(collected.len(), 2);
    assert_eq!(collected[0].columns, int_batch(&[1, 2]).columns);
    assert_eq!(collected[1].columns, int_batch(&[3, 4]).columns);
}

#[test]
fn memory_exec_rejects_nonzero_partition() {
    let plan = MemoryExec::new(one_col_schema(), vec![int_batch(&[1])]);
    let err = plan.execute(1).err().unwrap();
    assert!(err.message().contains("out of range"));
}

#[test]
fn memory_exec_with_new_children_rejects_non_empty() {
    let plan = MemoryExec::new(one_col_schema(), vec![]);
    assert!(plan.with_new_children(vec![]).is_ok());
    let plan = MemoryExec::new(one_col_schema(), vec![]);
    let child = Arc::new(ExecutionPlan::Memory(MemoryExec::new(one_col_schema(), vec![])));
    assert!(plan.with_new_children(vec![child]).is_err());
}

#[test]
fn memory_projects_every_batch() {
    let output = Schema::new(vec![
        Field::new("salary", DataType::Int64, true),
        Field::new("id", DataType::Int64, true),
    ]);
    let plan = MemoryExec::try_new(vec![employee_batch()], output, Some(vec![5, 0])).unwrap();
    let mut stream = plan.execute(0).unwrap();
    let batch = stream.next().unwrap().unwrap();
    assert_eq!(batch.columns, vec![numbers(&[12000, 10000, 11500, 11500]), numbers(&[1, 2, 3, 4])]);
    assert!(stream.next().is_none());
}

#[test]
fn memory_refuses_a_projection_beyond_the_schema() {
    let refused =
        MemoryExec::try_new(vec![employee_batch()], employee_schema(), Some(vec![0, 6])).unwrap_err();
    assert!(matches!(refused, FdapQueryError::ArrowError(_)));
    assert!(refused.message().contains("projection index 6 out of bounds for 6 columns"));
}

#[test]
fn memory_shows_what_it_holds() {
    let plan = MemoryExec::new(one_col_schema(), vec![int_batch(&[1]), int_batch(&[2])]);
    assert_eq!(plan.fmt_as(DisplayFormatType::Default), "MemoryExec: batches=2");
}

#[test]
fn scan_yields_all_rows_via_async_stream() {
    let scan = employee_scan();
    assert_eq!(scan.execute(0).unwrap().fields.len(), 6);
    assert_eq!(total_rows(&[employee_batch()]), 4);
}

#[test]
fn scan_rejects_non_zero_partition() {
    let err = employee_scan().execute(1).map(|_| ()).unwrap_err();
    assert!(matches!(err, FdapQueryError::Internal(_)));
}

#[test]
fn properties_returns_cached_single_partition() {
    let scan = ExecutionPlan::Scan(employee_scan());
    assert_eq!(scan.properties().partition_count(), 1);
}

#[test]
fn with_new_children_rejects_non_empty() {
    let inner = Arc::new(ExecutionPlan::Scan(employee_scan()));
    let err = employee_scan().with_new_children(vec![inner]).map(|_| ()).unwrap_err();
    assert!(matches!(err, FdapQueryError::Internal(_)));
}

#[test]
fn a_scan_selects_the_named_columns_in_their_order() {
    let scan =
        ScanExec::new(employee_schema(), vec!["salary".to_string(), "id".to_string()]).unwrap();
    let names: Vec<&str> = scan.schema.fields.iter().map(|f| f.name.as_str()).collect();
    assert_eq!(names, vec!["salary", "id"]);
}

#[test]
fn a_scan_of_an_unknown_column_is_refused() {
    let error = ScanExec::new(employee_schema(), vec!["wage".to_string()]).unwrap_err();
    assert!(matches!(error, FdapQueryError::SchemaError(_)));
}

#[test]
fn a_data_source_shows_its_columns_after_projection() {
    let csv = DataSource::Csv(CsvDataSourceConfig {
        filename: "employee.csv".to_string(),
        full_schema: employee_schema(),
        projection: Some(vec![0, 3]),
        has_headers: true,
        batch_size: 1024,
        delimiter: b',',
    });
    let exec = DataSourceExec::new(csv);
    let names: Vec<&str> = exec.schema.fields.iter().map(|f| f.name.as_str()).collect();
    assert_eq!(names, vec!["id", "state"]);

    let parquet = DataSource::Parquet(ParquetDataSourceConfig {
        filename: "employee.parquet".to_string(),
        full_schema: employee_schema(),
        projection: None,
    });
    let exec = DataSourceExec::new(parquet);
    assert_eq!(exec.schema.fields.len(), 6);
    assert!(exec.fmt_as(DisplayFormatType::Default).contains("employee.parquet"));
}

#[test]
fn rebuilding_an_operator_keeps_what_it_does() {
    let plan = ExecutionPlan::GlobalLimit(GlobalLimitExec::new(employee_source(), 2, Some(9)));
    let inner = Arc::new(ExecutionPlan::LocalLimit(LocalLimitExec::new(employee_source(), 1)));
    let rebuilt = plan.with_new_children(vec![inner]).unwrap();
    assert_eq!(rebuilt.name(), "GlobalLimitExec");
    assert_eq!(rebuilt.children().len(), 1);
    assert_eq!(rebuilt.children()[0].name(), "LocalLimitExec");
    assert_eq!(
        rebuilt.fmt_as(DisplayFormatType::Default),
        "GlobalLimitExec: skip=2, fetch=9"
    );
}

#[test]
fn rebuilding_with_the_wrong_number_of_children_is_refused() {
    let plan = ExecutionPlan::LocalLimit(LocalLimitExec::new(employee_source(), 1));
    let error = plan.with_new_children(vec![]).unwrap_err();
    assert_eq!(error.message(), "LocalLimitExec::with_new_children expected 1 child, got 0");
    assert!(matches!(error, FdapQueryError::Internal(_)));
}

#[test]
fn projecting_a_batch_reorders_and_repeats_columns() {
    let batch = employee_batch();
    let projected = batch.project(&vec![5, 0, 0]).unwrap();
    assert_eq!(
        projected.columns,
        vec![numbers(&[12000, 10000, 11500, 11500]), numbers(&[1, 2, 3, 4]), numbers(&[1, 2, 3, 4])]
    );
    assert!(batch.project(&vec![6]).is_err());
    assert_eq!(batch.project(&vec![]).unwrap().num_rows(), 4);
}

#[test]
fn a_batch_needs_columns_of_one_length() {
    let schema = Schema::new(vec![
        Field::new("a", DataType::Int64, true),
        Field::new("b", DataType::Int64, true),
    ]);
    let error = RecordBatch::try_new(schema, vec![numbers(&[1]), numbers(&[1, 2])]).unwrap_err();
    assert_eq!(error.message(), "all columns in a record batch must have the same length");
}

#[test]
fn a_null_needs_a_nullable_field() {
    let schema = Schema::new(vec![
        Field::new("a", DataType::Int64, true),
        Field::new("b", DataType::Int64, false),
    ]);
    let nulls = || vec![ScalarValue::Null];
    let error = RecordBatch::try_new(schema.clone(), vec![nulls(), nulls()]).unwrap_err();
    assert_eq!(
        error.message(),
        "Column 'b' is declared as non-nullable but contains null values"
    );
    assert!(RecordBatch::try_new(schema, vec![nulls(), numbers(&[1])]).is_ok());
}

#[test]
fn a_column_has_the_type_of_its_field() {
    let schema = Schema::new(vec![
        Field::new("a", DataType::Int64, true),
        Field::new("b", DataType::Int64, true),
    ]);
    let error =
        RecordBatch::try_new(schema, vec![numbers(&[1]), texts(&[Some("x")])]).unwrap_err();
    assert_eq!(
        error.message(),
        "column types must match schema types, expected Int64 but found Utf8 at column index 1"
    );
}

#[test]
fn batches_are_refused_as_the_columnar_layer_refuses_them() {
    let arrow_schema = Arc::new(arrow_schema::Schema::new(vec![
        arrow_schema::Field::new("a", arrow_schema::DataType::Int64, false),
        arrow_schema::Field::new("b", arrow_schema::DataType::Utf8, true),
    ]));
    let schema = || {
        Schema::new(vec![
            Field::new("a", DataType::Int64, false),
            Field::new("b", DataType::Utf8, true),
        ])
    };
    let int = |values: Vec<Option<i64>>| -> ArrayRef { Arc::new(Int64Array::from(values)) };
    let string = |values: Vec<Option<&str>>| -> ArrayRef { Arc::new(StringArray::from(values)) };
    let cells = |values: &[Option<i64>]| -> Vec<ScalarValue> {
        values.iter().map(|v| v.map_or(ScalarValue::Null, ScalarValue::Int64)).collect()
    };
    let cases: Vec<(Vec<ArrayRef>, Vec<Vec<ScalarValue>>)> = vec![
        (vec![int(vec![Some(1)])], vec![cells(&[Some(1)])]),
        (
            vec![int(vec![None, Some(1)]), string(vec![Some("x")])],
            vec![cells(&[None, Some(1)]), texts(&[Some("x")])],
        ),
        (
            vec![int(vec![Some(1)]), string(vec![Some("x"), None])],
            vec![cells(&[Some(1)]), texts(&[Some("x"), None])],
        ),
        (
            vec![int(vec![Some(1)]), int(vec![Some(2)])],
            vec![cells(&[Some(1)]), cells(&[Some(2)])],
        ),
    ];
    for (arrays, columns) in cases {
        let expected =
            arrow_array::RecordBatch::try_new(arrow_schema.clone(), arrays).unwrap_err();
        let error = RecordBatch::try_new(schema(), columns).unwrap_err();
        assert_eq!(
            format!("Invalid argument error: {}", error.message()),
            expected.to_string()
        );
    }
}

#[test]
fn expressions_render_as_text() {
    let nested = PhysicalExpr::binary(
        PhysicalExpr::cast(PhysicalExpr::column("a", 1), DataType::Float64),
        Operator::Plus,
        PhysicalExpr::literal(ScalarValue::Float64(1.5f64.to_bits())),
    );
    assert_eq!(nested.to_string(), "CAST(a@1 AS Float64) + 1.5");
    assert_eq!(PhysicalExpr::literal(ScalarValue::Date32(18750)).to_string(), "2021-05-03");
    assert_eq!(
        PhysicalExpr::literal(ScalarValue::Float32(0.1f32.to_bits())).to_string(),
        format!("{}", 0.1f32)
    );
}

fn arrow_type(t: DataType) -> arrow_schema::DataType {
    match t {
        DataType::Int64 => arrow_schema::DataType::Int64,
        DataType::Utf8 => arrow_schema::DataType::Utf8,
        other => panic!("unexpected type {other:?}"),
    }
}

#[test]
fn schemas_show_as_the_columnar_layer_shows_them() {
    let schema = Schema::new(vec![
        Field::new("id", DataType::Int64, true),
        Field::new("tricky \"name\"\n", DataType::Utf8, false),
    ]);
    let arrow = arrow_schema::Schema::new(
        schema
            .fields
            .iter()
            .map(|f| arrow_schema::Field::new(f.name.as_str(), arrow_type(f.data_type), f.nullable))
            .collect::<Vec<_>>(),
    );
    assert_eq!(schema.debug_string(), format!("{arrow:?}"));
}

fn other_values(ids: &[i64]) -> Vec<ScalarValue> {
    ids.iter().map(|id| ScalarValue::Other { kind: 7, id: *id }).collect()
}

fn other_batch(ids: &[i64]) -> RecordBatch {
    let schema = Schema::new(vec![Field::new("shape", DataType::Other(7), true)]);
    RecordBatch::try_new(schema, vec![other_values(ids)]).unwrap()
}

#[test]
fn columns_of_other_types_are_passed_on() {
    let out = limited(LimitState::new(1, Some(3)), vec![other_batch(&[4, 0]), other_batch(&[9, 2, 5])]);
    let columns: Vec<_> = out.into_iter().flat_map(|b| b.columns).collect();
    assert_eq!(columns, vec![other_values(&[0]), other_values(&[9, 2])]);

    let plan = MemoryExec::new(other_batch(&[]).schema, vec![other_batch(&[3, 1])]);
    let mut stream = plan.execute(0).unwrap();
    assert_eq!(stream.next().unwrap().unwrap().columns, vec![other_values(&[3, 1])]);
    assert!(stream.next().is_none());
}

#[test]
fn columns_of_other_types_must_match_the_schema() {
    let schema = Schema::new(vec![Field::new("shape", DataType::Other(8), true)]);
    let refused = RecordBatch::try_new(schema, vec![other_values(&[1])]).unwrap_err();
    assert!(refused.message().contains("expected Other(8) but found Other(7)"), "{}", refused.message());
}
