use std::collections::HashMap;
use std::sync::Arc;

use fdapquery::aggregate_exec::{state_cell, AccumulatorValue, AggregateExec, Intake};
use fdapquery::aggregates::{AggregateExpr, AggregateFunction, AggregateMode, PhysicalGroupBy};
use fdapquery::display::{DisplayAs, DisplayFormatType};
use fdapquery::error::FdapQueryError;
use fdapquery::expr::PhysicalExpr;
use fdapquery::extension_exec::ExtensionExec;
use fdapquery::group_table::GroupTable;
use fdapquery::plan::ExecutionPlan;
use fdapquery::plan_display::displayable;
use fdapquery::row_key::RowKey;
use fdapquery::scalar::ScalarValue;
use fdapquery::schema::{DataType, Field, Schema};

fn employee_schema() -> Schema {
    Schema::new(vec![
        Field::new("id", DataType::Int64, true),
        Field::new("first_name", DataType::Utf8, true),
        Field::new("last_name", DataType::Utf8, true),
        Field::new("state", DataType::Utf8, true),
        Field::new("job_title", DataType::Utf8, true),
        Field::new("salary", DataType::Int64, true),
    ])
}

fn employee_source() -> Arc<ExecutionPlan> {
    Arc::new(ExecutionPlan::Extension(ExtensionExec::leaf(
        "TestSourceExec",
        "TestSourceExec: batches=1",
        employee_schema(),
    )))
}

fn simple_group_by(exprs: Vec<PhysicalExpr>) -> PhysicalGroupBy {
    PhysicalGroupBy::new_single(
        exprs
            .into_iter()
            .map(|e| {
                let alias = e.to_string();
                (e, alias)
            })
            .collect(),
    )
}

fn aggregate(
    mode: AggregateMode,
    group_exprs: Vec<PhysicalExpr>,
    aggr_exprs: Vec<AggregateExpr>,
    out_schema: Schema,
) -> AggregateExec {
    let filters = aggr_exprs.iter().map(|_| None).collect();
    AggregateExec::try_new(
        mode,
        simple_group_by(group_exprs),
        aggr_exprs,
        filters,
        employee_source(),
        employee_schema(),
        out_schema,
    )
    .unwrap()
}

fn single_mode_aggregate(
    group_exprs: Vec<PhysicalExpr>,
    aggr_exprs: Vec<AggregateExpr>,
    out_schema: Schema,
) -> AggregateExec {
    aggregate(AggregateMode::Single, group_exprs, aggr_exprs, out_schema)
}

fn of_salary(function: AggregateFunction) -> AggregateExpr {
    AggregateExpr::new(function, PhysicalExpr::column("salary", 5))
}

fn state_and_min() -> Schema {
    Schema::new(vec![
        Field::new("state", DataType::Utf8, true),
        Field::new("min_salary", DataType::Int64, true),
    ])
}

fn text(value: Option<&str>) -> ScalarValue {
    match value {
        Some(s) => ScalarValue::Utf8(s.to_string()),
        None => ScalarValue::Null,
    }
}

#[test]
fn group_by_state_min_max_count() {
    let out_schema = Schema::new(vec![
        Field::new("state", DataType::Utf8, true),
        Field::new("min_salary", DataType::Int64, true),
        Field::new("max_salary", DataType::Int64, true),
        Field::new("count_salary", DataType::Int32, true),
    ]);
    let agg = single_mode_aggregate(
        vec![PhysicalExpr::column("state", 3)],
        vec![
            of_salary(AggregateFunction::Min),
            of_salary(AggregateFunction::Max),
            of_salary(AggregateFunction::Count),
        ],
        out_schema,
    );
    let states = vec![text(Some("CA")), text(Some("CO")), text(Some("CO")), text(None)];
    let salaries: [i64; 4] = [12000, 10000, 11500, 11500];

    let mut stream = agg.execute(0).unwrap();
    assert_eq!(stream.intake(), Intake::Accumulate);
    assert!(!stream.emits_state());
    let groups = stream.on_batch(&vec![states], 4);
    assert_eq!(groups.len(), 4);

    let mut totals: Vec<Option<(i64, i64, i32)>> = vec![None; stream.table.len()];
    for (row, group) in groups.iter().enumerate() {
        let n = salaries[row];
        totals[*group] = Some(match totals[*group] {
            None => (n, n, 1),
            Some((mn, mx, c)) => (mn.min(n), mx.max(n), c + 1),
        });
    }
    let outputs: Vec<Vec<ScalarValue>> = totals
        .iter()
        .map(|t| {
            let (mn, mx, c) = t.unwrap();
            vec![ScalarValue::Int64(mn), ScalarValue::Int64(mx), ScalarValue::Int32(c)]
        })
        .collect();
    let batch = stream.finish(&outputs).unwrap();
    assert_eq!(batch.num_rows(), 3);

    let mut got: HashMap<Option<String>, (i64, i64, i32)> = HashMap::new();
    for i in 0..batch.num_rows() {
        let state = match &batch.columns[0][i] {
            ScalarValue::Utf8(s) => Some(s.clone()),
            ScalarValue::Null => None,
            other => panic!("unexpected state value: {other:?}"),
        };
        let mn = match &batch.columns[1][i] {
            ScalarValue::Int64(n) => *n,
            o => panic!("min: {o:?}"),
        };
        let mx = match &batch.columns[2][i] {
            ScalarValue::Int64(n) => *n,
            o => panic!("max: {o:?}"),
        };
        let c = match &batch.columns[3][i] {
            ScalarValue::Int32(n) => *n,
            o => panic!("count: {o:?}"),
        };
        got.insert(state, (mn, mx, c));
    }
    assert_eq!(got.get(&Some("CA".to_string())), Some(&(12000, 12000, 1)));
    assert_eq!(got.get(&Some("CO".to_string())), Some(&(10000, 11500, 2)));
    assert_eq!(got.get(&None), Some(&(11500, 11500, 1)));
}

#[test]
fn aggregate_exec_accessor_method_names_match_datafusion() {
    let agg = single_mode_aggregate(
        vec![PhysicalExpr::column("state", 3)],
        vec![of_salary(AggregateFunction::Min)],
        state_and_min(),
    );
    assert_eq!(*agg.mode(), AggregateMode::Single);
    assert_eq!(agg.group_expr().expr().len(), 1);
    assert_eq!(agg.aggr_expr().len(), 1);
    assert_eq!(agg.filter_expr().len(), 1);
    assert!(agg.filter_expr().iter().all(|f| f.is_none()));
    assert_eq!(agg.input().name(), "TestSourceExec");
    assert_eq!(agg.input_schema().fields.len(), 6);
}

#[test]
fn aggregate_exec_display_default_matches_datafusion() {
    let agg = single_mode_aggregate(
        vec![PhysicalExpr::column("state", 3)],
        vec![of_salary(AggregateFunction::Min)],
        state_and_min(),
    );
    assert_eq!(
        agg.fmt_as(DisplayFormatType::Default),
        "AggregateExec: mode=Single, gby=[state@3], aggr=[MIN(salary@5)]"
    );

    let out_schema = Schema::new(vec![
        Field::new("state", DataType::Utf8, true),
        Field::new("job_title", DataType::Utf8, true),
        Field::new("min_salary", DataType::Int64, true),
        Field::new("max_salary", DataType::Int64, true),
    ]);
    let agg = single_mode_aggregate(
        vec![PhysicalExpr::column("state", 3), PhysicalExpr::column("job_title", 4)],
        vec![of_salary(AggregateFunction::Min), of_salary(AggregateFunction::Max)],
        out_schema,
    );
    assert_eq!(
        agg.fmt_as(DisplayFormatType::Default),
        "AggregateExec: mode=Single, gby=[state@3, job_title@4], aggr=[MIN(salary@5), MAX(salary@5)]"
    );

    let out_schema = Schema::new(vec![Field::new("max_salary", DataType::Int64, true)]);
    let agg = single_mode_aggregate(vec![], vec![of_salary(AggregateFunction::Max)], out_schema);
    assert_eq!(
        agg.fmt_as(DisplayFormatType::Default),
        "AggregateExec: mode=Single, gby=[], aggr=[MAX(salary@5)]"
    );
}

#[test]
fn aggregate_exec_displayable_indent_default_first_line() {
    let plan = ExecutionPlan::Aggregate(single_mode_aggregate(
        vec![PhysicalExpr::column("state", 3)],
        vec![of_salary(AggregateFunction::Min)],
        state_and_min(),
    ));
    let rendered = displayable(&plan).indent(false);
    let first_line = rendered.lines().next().unwrap();
    assert_eq!(first_line, "AggregateExec: mode=Single, gby=[state@3], aggr=[MIN(salary@5)]");
}

#[test]
fn later_stages_merge_and_earlier_ones_emit_state() {
    let start = |mode: AggregateMode| {
        aggregate(
            mode,
            vec![PhysicalExpr::column("state", 3)],
            vec![of_salary(AggregateFunction::Min)],
            state_and_min(),
        )
        .execute(0)
        .unwrap()
    };
    for (mode, intake, state) in [
        (AggregateMode::Single, Intake::Accumulate, false),
        (AggregateMode::SinglePartitioned, Intake::Accumulate, false),
        (AggregateMode::Partial, Intake::Accumulate, true),
        (AggregateMode::Final, Intake::Merge, false),
        (AggregateMode::FinalPartitioned, Intake::Merge, false),
        (AggregateMode::PartialReduce, Intake::Accumulate, true),
    ] {
        assert_eq!(start(mode).intake(), intake);
        assert_eq!(start(mode).emits_state(), state);
    }
}

#[test]
fn an_average_has_no_cell_for_its_state() {
    assert_eq!(
        state_cell(AccumulatorValue::Scalar(ScalarValue::Int64(4))).unwrap(),
        ScalarValue::Int64(4)
    );
    let error =
        state_cell(AccumulatorValue::AvgState { sum: 1.0f64.to_bits(), count: 2 }).unwrap_err();
    assert!(matches!(error, FdapQueryError::NotImplemented(_)));
}

#[test]
fn keys_are_numbered_in_the_order_they_come() {
    let mut table = GroupTable::new();
    let key = |n: i64| RowKey(vec![ScalarValue::Int64(n)]);
    assert_eq!(table.assign(key(7)), 0);
    assert_eq!(table.assign(key(3)), 1);
    assert_eq!(table.assign(key(7)), 0);
    assert_eq!(table.assign(RowKey(vec![ScalarValue::Null])), 2);
    assert_eq!(table.assign(RowKey(vec![ScalarValue::Null])), 2);
    assert_eq!(table.len(), 3);
}

#[test]
fn groups_last_across_batches() {
    let agg = single_mode_aggregate(
        vec![PhysicalExpr::column("state", 3)],
        vec![of_salary(AggregateFunction::Min)],
        state_and_min(),
    );
    let mut stream = agg.execute(0).unwrap();
    let first = stream.on_batch(&vec![vec![text(Some("CO")), text(Some("CA"))]], 2);
    let second = stream.on_batch(&vec![vec![text(Some("CA")), text(None)]], 2);
    assert_eq!(first, vec![0, 1]);
    assert_eq!(second, vec![1, 2]);
}

#[test]
fn an_aggregation_without_groups_has_one_group() {
    let out_schema = Schema::new(vec![Field::new("max_salary", DataType::Int64, true)]);
    let agg = single_mode_aggregate(vec![], vec![of_salary(AggregateFunction::Max)], out_schema);
    let mut stream = agg.execute(0).unwrap();
    assert_eq!(stream.on_batch(&vec![], 3), vec![0, 0, 0]);
    let out = stream.finish(&vec![vec![ScalarValue::Int64(12000)]]).unwrap();
    assert_eq!(out.columns, vec![vec![ScalarValue::Int64(12000)]]);
}

#[test]
fn a_renamed_group_shows_its_alias() {
    let group_by = PhysicalGroupBy::new_single(vec![(
        PhysicalExpr::column("state", 3),
        "where".to_string(),
    )]);
    assert_eq!(group_by.term_strings(), vec!["state@3 as where".to_string()]);
    assert!(group_by.is_single());
    assert!(!group_by.is_empty());
    assert!(!group_by.is_true_no_grouping());
    assert_eq!(group_by.input_exprs().len(), 1);
    assert!(PhysicalGroupBy::default().is_empty());
}

#[test]
fn an_aggregation_of_nothing_has_no_rows() {
    let agg = single_mode_aggregate(
        vec![PhysicalExpr::column("state", 3)],
        vec![of_salary(AggregateFunction::Min)],
        state_and_min(),
    );
    assert_eq!(agg.execute(0).unwrap().finish(&vec![]).unwrap().num_rows(), 0);
    assert!(agg.execute(1).is_err());
}
