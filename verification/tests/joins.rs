use std::collections::HashSet;
use std::sync::Arc;

use fdapquery::batch::RecordBatch;
use fdapquery::display::{DisplayAs, DisplayFormatType};
use fdapquery::error::FdapQueryError;
use fdapquery::expr::{Operator, PhysicalExpr};
use fdapquery::extension_exec::ExtensionExec;
use fdapquery::hash_join_exec::{
    ColumnIndex, HashJoinExec, JoinFilter, JoinOn, JoinOnRef, JoinSide, NullEquality,
    PartitionMode,
};
use fdapquery::hash_join_stream::JoinAction;
use fdapquery::join_table::JoinType;
use fdapquery::plan::ExecutionPlan;
use fdapquery::plan_display::displayable;
use fdapquery::scalar::ScalarValue;
use fdapquery::schema::{DataType, Field, Schema};

type Row = (Option<i64>, Option<String>, Option<String>);

fn schema(second: &str) -> Schema {
    Schema::new(vec![
        Field::new("id", DataType::Int64, true),
        Field::new(second, DataType::Utf8, true),
    ])
}

fn exec(second: &str) -> Arc<ExecutionPlan> {
    Arc::new(ExecutionPlan::Extension(ExtensionExec::leaf("VecExec", "VecExec", schema(second))))
}

fn number(value: Option<i64>) -> ScalarValue {
    match value {
        Some(n) => ScalarValue::Int64(n),
        None => ScalarValue::Null,
    }
}

fn batch(second: &str, rows: &[(Option<i64>, &str)]) -> RecordBatch {
    RecordBatch::try_new(
        schema(second),
        vec![
            rows.iter().map(|r| number(r.0)).collect(),
            rows.iter().map(|r| ScalarValue::Utf8(r.1.to_string())).collect(),
        ],
    )
    .unwrap()
}

fn left_batch() -> RecordBatch {
    batch("name", &[(Some(1), "a"), (Some(2), "b"), (Some(3), "c")])
}

fn right_batch() -> RecordBatch {
    batch("dept", &[(Some(1), "eng"), (Some(2), "sales")])
}

fn out_schema() -> Schema {
    Schema::new(vec![
        Field::new("id", DataType::Int64, true),
        Field::new("name", DataType::Utf8, true),
        Field::new("dept", DataType::Utf8, true),
    ])
}

fn on_id_id() -> JoinOn {
    vec![(PhysicalExpr::column("id", 0), PhysicalExpr::column("id", 0))]
}

fn build_join(join_type: JoinType) -> HashJoinExec {
    HashJoinExec::try_new(
        exec("name"),
        exec("dept"),
        on_id_id(),
        None,
        &join_type,
        None,
        PartitionMode::Partitioned,
        NullEquality::NullEqualsNothing,
        false,
    )
    .unwrap()
    .with_join_schema(out_schema())
    .with_right_columns_to_exclude(HashSet::from([0]))
}

/// Runs a join over the given inputs, as often as the join opens them.
fn run(join: &HashJoinExec, left: &[RecordBatch], right: &[RecordBatch]) -> Vec<RecordBatch> {
    let mut stream = join.execute(0).unwrap();
    let mut out = Vec::new();
    for b in right {
        assert_eq!(stream.on_right(Some(b.clone())), JoinAction::PullRight);
    }
    let mut next = stream.on_right(None);
    while next == JoinAction::OpenLeft {
        for b in left {
            let step = stream.on_left(Some(b.clone())).unwrap();
            assert_eq!(step.next, JoinAction::PullLeft);
            out.extend(step.output);
        }
        let step = stream.on_left(None).unwrap();
        out.extend(step.output);
        next = step.next;
    }
    assert_eq!(next, JoinAction::Finish);
    out
}

fn text(value: &ScalarValue) -> Option<String> {
    match value {
        ScalarValue::Utf8(s) => Some(s.clone()),
        ScalarValue::Null => None,
        other => panic!("text: {other:?}"),
    }
}

fn collect_rows(batches: &[RecordBatch]) -> Vec<Row> {
    let mut out = Vec::new();
    for b in batches {
        for i in 0..b.num_rows() {
            let id = match &b.columns[0][i] {
                ScalarValue::Int64(n) => Some(*n),
                ScalarValue::Null => None,
                other => panic!("id: {other:?}"),
            };
            out.push((id, text(&b.columns[1][i]), text(&b.columns[2][i])));
        }
    }
    out
}

fn row(id: Option<i64>, name: Option<&str>, dept: Option<&str>) -> Row {
    (id, name.map(|s| s.to_string()), dept.map(|s| s.to_string()))
}

#[test]
fn inner_join_on_id() {
    let join = build_join(JoinType::Inner);
    let mut rows = collect_rows(&run(&join, &[left_batch()], &[right_batch()]));
    rows.sort();
    assert_eq!(
        rows,
        vec![
            (Some(1), Some("a".to_string()), Some("eng".to_string())),
            (Some(2), Some("b".to_string()), Some("sales".to_string())),
        ]
    );
}

#[test]
fn left_join_keeps_unmatched_left() {
    let join = build_join(JoinType::Left);
    let mut rows = collect_rows(&run(&join, &[left_batch()], &[right_batch()]));
    rows.sort();
    assert_eq!(
        rows,
        vec![
            (Some(1), Some("a".to_string()), Some("eng".to_string())),
            (Some(2), Some("b".to_string()), Some("sales".to_string())),
            (Some(3), Some("c".to_string()), None),
        ]
    );
}

#[test]
fn right_join_keeps_unmatched_right() {
    let join = build_join(JoinType::Right);
    let right = batch("dept", &[(Some(1), "eng"), (Some(9), "ops"), (Some(9), "law")]);
    let rows = collect_rows(&run(&join, &[left_batch()], &[right]));
    assert_eq!(
        rows,
        vec![
            row(Some(1), Some("a"), Some("eng")),
            row(None, None, Some("ops")),
            row(None, None, Some("law")),
        ]
    );
}

#[test]
fn a_row_is_joined_with_every_partner() {
    let join = build_join(JoinType::Inner);
    let right = [
        batch("dept", &[(Some(1), "eng"), (Some(2), "sales")]),
        batch("dept", &[(Some(1), "ops")]),
    ];
    let left = [batch("name", &[(Some(1), "a")]), batch("name", &[(Some(1), "b")])];
    let rows = collect_rows(&run(&join, &left, &right));
    assert_eq!(
        rows,
        vec![
            row(Some(1), Some("a"), Some("eng")),
            row(Some(1), Some("a"), Some("ops")),
            row(Some(1), Some("b"), Some("eng")),
            row(Some(1), Some("b"), Some("ops")),
        ]
    );
}

#[test]
fn an_empty_right_input_leaves_only_the_rows_an_outer_join_keeps() {
    assert!(run(&build_join(JoinType::Inner), &[left_batch()], &[]).is_empty());
    assert!(run(&build_join(JoinType::Right), &[left_batch()], &[]).is_empty());
    let rows = collect_rows(&run(&build_join(JoinType::Left), &[left_batch()], &[]));
    assert_eq!(rows.len(), 3);
    assert!(rows.iter().all(|r| r.2.is_none()));
}

#[test]
fn null_keys_meet_only_where_nulls_are_equal() {
    let left = [batch("name", &[(None, "a"), (Some(1), "b")])];
    let right = [batch("dept", &[(None, "eng"), (Some(1), "ops")])];
    let with = |join_type: JoinType, nulls: NullEquality| {
        let mut join = build_join(join_type);
        join.null_equality = nulls;
        collect_rows(&run(&join, &left, &right))
    };
    let met = row(Some(1), Some("b"), Some("ops"));
    assert_eq!(with(JoinType::Inner, NullEquality::NullEqualsNothing), vec![met.clone()]);
    assert_eq!(
        with(JoinType::Left, NullEquality::NullEqualsNothing),
        vec![row(None, Some("a"), None), met.clone()]
    );
    assert_eq!(
        with(JoinType::Right, NullEquality::NullEqualsNothing),
        vec![met.clone(), row(None, None, Some("eng"))]
    );
    for join_type in [JoinType::Inner, JoinType::Left, JoinType::Right] {
        assert_eq!(
            with(join_type, NullEquality::NullEqualsNull),
            vec![row(None, Some("a"), Some("eng")), met.clone()]
        );
    }
}

#[test]
fn batches_without_rows_join_to_nothing_whatever_the_keys() {
    for join_type in [JoinType::Inner, JoinType::Left, JoinType::Right] {
        let mut join = build_join(join_type);
        join.on = vec![(PhysicalExpr::column("x", 7), PhysicalExpr::column("y", 8))];
        assert!(run(&join, &[batch("name", &[])], &[batch("dept", &[])]).is_empty());
    }
}

#[test]
fn no_column_left_out_keeps_both_keys() {
    let join = HashJoinExec::try_new(
        exec("name"),
        exec("dept"),
        on_id_id(),
        None,
        &JoinType::Inner,
        None,
        PartitionMode::CollectLeft,
        NullEquality::NullEqualsNothing,
        false,
    )
    .unwrap()
    .with_join_schema(Schema::new(vec![
        Field::new("id", DataType::Int64, true),
        Field::new("name", DataType::Utf8, true),
        Field::new("id", DataType::Int64, true),
        Field::new("dept", DataType::Utf8, true),
    ]));
    let out = run(&join, &[left_batch()], &[right_batch()]);
    assert_eq!(out.len(), 1);
    assert_eq!(out[0].columns[0], out[0].columns[2]);
    assert_eq!(out[0].num_columns(), 4);
}

#[test]
fn joins_other_than_inner_left_and_right_do_not_run() {
    let error = build_join(JoinType::Full).execute(0).unwrap_err();
    assert!(matches!(error, FdapQueryError::Internal(_)));
    assert_eq!(
        error.message(),
        "HashJoinExec: JoinType::Full is not yet implemented; supported variants are Inner, Left, Right"
    );
}

#[test]
fn a_join_key_must_be_a_column() {
    let mut join = build_join(JoinType::Inner);
    join.on = vec![(PhysicalExpr::column("id", 0), PhysicalExpr::literal(ScalarValue::Int64(4)))];
    let error = join.execute(0).unwrap_err();
    assert_eq!(
        error.message(),
        "HashJoinExec: right join key must be a Column expression, got: 4"
    );
}

#[test]
fn a_join_has_one_partition() {
    let error = build_join(JoinType::Inner).execute(3).unwrap_err();
    assert_eq!(
        error.message(),
        "HashJoinExec has 1 output partition; partition 3 is out of range"
    );
}

#[test]
fn hash_join_exec_display_default_matches_datafusion() {
    let join = build_join(JoinType::Inner);
    assert_eq!(
        join.fmt_as(DisplayFormatType::Default),
        "HashJoinExec: mode=Partitioned, join_type=Inner, on=[(id@0, id@0)]"
    );

    let on_multi: JoinOn = vec![
        (PhysicalExpr::column("id", 0), PhysicalExpr::column("id", 0)),
        (PhysicalExpr::column("name", 1), PhysicalExpr::column("col2", 2)),
    ];
    let join_multi = HashJoinExec::try_new(
        exec("name"),
        exec("dept"),
        on_multi,
        None,
        &JoinType::Left,
        None,
        PartitionMode::CollectLeft,
        NullEquality::NullEqualsNothing,
        false,
    )
    .unwrap()
    .with_join_schema(out_schema());
    assert_eq!(
        join_multi.fmt_as(DisplayFormatType::Default),
        "HashJoinExec: mode=CollectLeft, join_type=Left, on=[(id@0, id@0), (name@1, col2@2)]"
    );

    let join_full = HashJoinExec::try_new(
        exec("name"),
        exec("dept"),
        on_id_id(),
        None,
        &JoinType::Full,
        None,
        PartitionMode::Partitioned,
        NullEquality::NullEqualsNull,
        true,
    )
    .unwrap()
    .with_join_schema(out_schema());
    assert_eq!(
        join_full.fmt_as(DisplayFormatType::Default),
        "HashJoinExec: mode=Partitioned, join_type=Full, on=[(id@0, id@0)], NullsEqual: true, null_aware"
    );
}

#[test]
fn hash_join_exec_displayable_indent_default_first_line() {
    let plan = ExecutionPlan::HashJoin(build_join(JoinType::Inner));
    let rendered = displayable(&plan).indent(false);
    let first_line = rendered.lines().next().unwrap();
    assert_eq!(
        first_line,
        "HashJoinExec: mode=Partitioned, join_type=Inner, on=[(id@0, id@0)]"
    );
}

#[test]
fn hash_join_exec_accessor_method_names_match_datafusion() {
    let _: fn(&HashJoinExec) -> &Arc<ExecutionPlan> = HashJoinExec::left;
    let _: fn(&HashJoinExec) -> &Arc<ExecutionPlan> = HashJoinExec::right;
    let _: fn(&HashJoinExec) -> JoinOnRef<'_> = HashJoinExec::on;
    let _: fn(&HashJoinExec) -> Option<&JoinFilter> = HashJoinExec::filter;
    let _: fn(&HashJoinExec) -> &JoinType = HashJoinExec::join_type;
    let _: fn(&HashJoinExec) -> &Schema = HashJoinExec::join_schema;
    let _: fn(&HashJoinExec) -> &PartitionMode = HashJoinExec::partition_mode;
    let _: fn(&HashJoinExec) -> NullEquality = HashJoinExec::null_equality;
    let _: fn(&HashJoinExec) -> &[ColumnIndex] = HashJoinExec::column_indices;
}

#[test]
fn rebuilding_a_join_keeps_the_columns_left_out() {
    let join = build_join(JoinType::Inner);
    let rebuilt = join.with_new_children(vec![exec("name"), exec("dept")]).unwrap();
    assert!(rebuilt.right_columns_to_exclude.contains(&0));
    assert_eq!(rebuilt.right_columns_to_exclude.len(), 1);
    let rows = collect_rows(&run(&rebuilt, &[left_batch()], &[right_batch()]));
    assert_eq!(rows.len(), 2);
    let error = build_join(JoinType::Inner).with_new_children(vec![exec("name")]).unwrap_err();
    assert!(matches!(error, FdapQueryError::Internal(_)));
}

#[test]
fn an_undecided_partition_mode_becomes_partitioned() {
    let join = HashJoinExec::try_new(
        exec("name"),
        exec("dept"),
        on_id_id(),
        None,
        &JoinType::Inner,
        None,
        PartitionMode::Auto,
        NullEquality::NullEqualsNothing,
        false,
    )
    .unwrap();
    assert_eq!(*join.partition_mode(), PartitionMode::Partitioned);
}

#[test]
fn an_outer_join_needs_nullable_columns() {
    let narrow = Schema::new(vec![
        Field::new("id", DataType::Int64, true),
        Field::new("name", DataType::Utf8, true),
        Field::new("dept", DataType::Utf8, false),
    ]);
    let join = build_join(JoinType::Left).with_join_schema(narrow);
    let mut stream = join.execute(0).unwrap();
    stream.on_right(Some(right_batch()));
    stream.on_right(None);
    let error = stream.on_left(Some(left_batch())).unwrap_err();
    assert_eq!(
        error.message(),
        "Column 'dept' is declared as non-nullable but contains null values"
    );
}

#[test]
fn a_join_schema_wider_than_the_rows_is_refused() {
    let mut fields = out_schema().fields;
    fields.push(Field::new("extra", DataType::Utf8, true));
    let join = build_join(JoinType::Inner).with_join_schema(Schema::new(fields));
    let mut stream = join.execute(0).unwrap();
    stream.on_right(Some(right_batch()));
    stream.on_right(None);
    let error = stream.on_left(Some(left_batch())).unwrap_err();
    assert_eq!(error.message(), "all columns in a record batch must have the same length");
}

#[test]
fn a_filter_and_a_projection_are_shown() {
    let filter = JoinFilter::new(
        PhysicalExpr::binary(
            PhysicalExpr::column("id", 0),
            Operator::Gt,
            PhysicalExpr::literal(ScalarValue::Int64(1)),
        ),
        vec![ColumnIndex { index: 0, side: JoinSide::Left }],
        schema("name"),
    );
    let join = HashJoinExec::try_new(
        exec("name"),
        exec("dept"),
        on_id_id(),
        Some(filter),
        &JoinType::Inner,
        Some(vec![0]),
        PartitionMode::Partitioned,
        NullEquality::NullEqualsNothing,
        false,
    )
    .unwrap()
    .with_join_schema(out_schema())
    .with_column_indices(vec![ColumnIndex { index: 1, side: JoinSide::Right }]);
    assert!(join.contains_projection());
    assert!(!build_join(JoinType::Inner).contains_projection());
    assert_eq!(join.column_indices(), &[ColumnIndex { index: 1, side: JoinSide::Right }]);
    assert_eq!(
        join.fmt_as(DisplayFormatType::Default),
        "HashJoinExec: mode=Partitioned, join_type=Inner, on=[(id@0, id@0)], filter=id@0 > 1, projection=[id@0]"
    );
}
