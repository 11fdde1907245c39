use std::sync::Arc;

use arrow_array::{
    new_null_array, ArrayRef, Int32Array, Int64Array, RecordBatch as ArrowBatch, StringArray,
};
use arrow_schema::{DataType as ArrowType, Field as ArrowField, Schema as ArrowSchema};
use fdapquery::batch::RecordBatch;
use fdapquery::concat::concat_batches;
use fdapquery::display::{DisplayAs, DisplayFormatType};
use fdapquery::error::FdapQueryError;
use fdapquery::expr::PhysicalExpr;
use fdapquery::extension_exec::ExtensionExec;
use fdapquery::partitioning::Partitioning;
use fdapquery::plan::ExecutionPlan;
use fdapquery::plan_display::displayable;
use fdapquery::plan_properties::PlanProperties;
use fdapquery::scalar::ScalarValue;
use fdapquery::schema::{DataType, Field, Schema};
use fdapquery::sort_exec::{LexOrdering, SortExec};
use fdapquery::sorting::{sort_batch, PhysicalSortExpr, SortKey, SortOptions};

fn employee_source() -> Arc<ExecutionPlan> {
    Arc::new(ExecutionPlan::Extension(ExtensionExec::leaf(
        "TestSourceExec",
        "TestSourceExec: batches=1",
        schema_of(DataType::Int64),
    )))
}

fn key(col: &str, idx: usize, descending: bool, nulls_first: bool) -> LexOrdering {
    vec![PhysicalSortExpr::new(
        PhysicalExpr::column(col, idx),
        SortOptions { descending, nulls_first },
    )]
}

fn schema_of(data_type: DataType) -> Schema {
    Schema::new(vec![Field::new("v", data_type, true)])
}

fn batch_of(data_type: DataType, values: Vec<ScalarValue>) -> RecordBatch {
    RecordBatch::try_new(schema_of(data_type), vec![values]).unwrap()
}

fn copies(values: &[ScalarValue]) -> Vec<ScalarValue> {
    values.iter().map(|v| v.clone()).collect()
}

/// Sorts batches of one column by that column.
fn sorted(plan: &SortExec, batches: Vec<RecordBatch>) -> Vec<ScalarValue> {
    plan.execute(0).unwrap();
    let combined = match plan.combine(&batches).unwrap() {
        Some(all) => all,
        None => return vec![],
    };
    let keys = vec![SortKey {
        values: copies(&combined.columns[0]),
        options: plan.expr()[0].options,
    }];
    copies(&plan.finish(&combined, &keys).unwrap().columns[0])
}

fn numbers(values: &[i64]) -> Vec<ScalarValue> {
    values.iter().map(|v| ScalarValue::Int64(*v)).collect()
}

fn ordered(values: Vec<ScalarValue>, descending: bool, nulls_first: bool) -> Vec<ScalarValue> {
    let data_type = values[0].data_type();
    let batch = batch_of(data_type, copies(&values));
    let keys = vec![SortKey { values, options: SortOptions { descending, nulls_first } }];
    copies(&sort_batch(&batch, &keys, None).unwrap().columns[0])
}

#[test]
fn display_default_single_key_no_fetch() {
    let plan = SortExec::new(key("a", 0, false, false), employee_source());
    assert_eq!(
        plan.fmt_as(DisplayFormatType::Default),
        "SortExec: expr=[a@0 ASC NULLS LAST], preserve_partitioning=[false]"
    );
}

#[test]
fn display_default_with_fetch_renders_as_topk() {
    let plan = SortExec::new(key("a", 0, false, false), employee_source()).with_fetch(Some(10));
    assert_eq!(
        plan.fmt_as(DisplayFormatType::Default),
        "SortExec: TopK(fetch=10), expr=[a@0 ASC NULLS LAST], preserve_partitioning=[false]"
    );
}

#[test]
fn display_default_multi_key_mixed_directions() {
    let mut lex = key("a", 0, false, false);
    lex.extend(key("b", 1, true, false));
    let plan = SortExec::new(lex, employee_source());
    assert_eq!(
        plan.fmt_as(DisplayFormatType::Default),
        "SortExec: expr=[a@0 ASC NULLS LAST, b@1 DESC NULLS LAST], preserve_partitioning=[false]"
    );
}

#[test]
fn sort_displayable_indent_default_first_line() {
    let plan = ExecutionPlan::Sort(SortExec::new(key("a", 0, false, false), employee_source()));
    let rendered = displayable(&plan).indent(false);
    let first_line = rendered.lines().next().unwrap();
    assert_eq!(
        first_line,
        "SortExec: expr=[a@0 ASC NULLS LAST], preserve_partitioning=[false]"
    );
}

#[test]
fn sorts_single_key_ascending() {
    let plan = SortExec::new(key("v", 0, false, false), employee_source());
    let out = sorted(&plan, vec![batch_of(DataType::Int64, numbers(&[3, 1, 2]))]);
    assert_eq!(out, numbers(&[1, 2, 3]));
}

#[test]
fn sorts_single_key_descending() {
    let plan = SortExec::new(key("v", 0, true, false), employee_source());
    let out = sorted(&plan, vec![batch_of(DataType::Int64, numbers(&[1, 2, 3]))]);
    assert_eq!(out, numbers(&[3, 2, 1]));
}

#[test]
fn topk_limits_to_fetch() {
    let mut values: Vec<i64> = (0..100).collect();
    values.reverse();
    let plan = SortExec::new(key("v", 0, false, false), employee_source()).with_fetch(Some(5));
    let out = sorted(&plan, vec![batch_of(DataType::Int64, numbers(&values))]);
    assert_eq!(out, numbers(&[0, 1, 2, 3, 4]));
}

#[test]
fn sort_accessor_method_names_match_datafusion() {
    let lex = key("a", 0, false, false);
    let plan = SortExec::new(key("a", 0, false, false), employee_source())
        .with_fetch(Some(7))
        .with_preserve_partitioning(false);
    let _: &Arc<ExecutionPlan> = plan.input();
    assert_eq!(plan.expr().len(), lex.len());
    assert_eq!(plan.fetch(), Some(7));
    assert!(!plan.preserve_partitioning());
}

#[test]
fn with_new_children_preserves_config() {
    let plan = SortExec::new(key("a", 0, true, false), employee_source())
        .with_fetch(Some(3))
        .with_preserve_partitioning(false);
    let rebuilt = ExecutionPlan::Sort(plan.clone()).with_new_children(vec![employee_source()]);
    match rebuilt.unwrap() {
        ExecutionPlan::Sort(sort) => {
            assert_eq!(sort.fetch(), Some(3));
            assert!(!sort.preserve_partitioning());
            assert_eq!(sort.expr().len(), 1);
        }
        other => panic!("unexpected operator {}", other.name()),
    }
}

#[test]
fn with_new_children_rejects_wrong_arity() {
    let plan = ExecutionPlan::Sort(SortExec::new(key("a", 0, false, false), employee_source()));
    assert!(plan.with_new_children(vec![]).is_err());
}

#[test]
fn batches_are_sorted_together() {
    let plan = SortExec::new(key("v", 0, false, false), employee_source());
    let out = sorted(
        &plan,
        vec![
            batch_of(DataType::Int64, numbers(&[5, 1])),
            batch_of(DataType::Int64, numbers(&[])),
            batch_of(DataType::Int64, numbers(&[4, 2, 3])),
        ],
    );
    assert_eq!(out, numbers(&[1, 2, 3, 4, 5]));
    assert!(sorted(&plan, vec![]).is_empty());
}

/// Arrow's own word on putting columns of one batch each together.
fn arrow_reason(nullable: bool, data_type: ArrowType, columns: Vec<ArrayRef>) -> String {
    let batches: Vec<ArrowBatch> = columns
        .into_iter()
        .map(|c| {
            let field = ArrowField::new("v", c.data_type().clone(), true);
            ArrowBatch::try_new(Arc::new(ArrowSchema::new(vec![field])), vec![c]).unwrap()
        })
        .collect();
    let field = ArrowField::new("v", data_type, nullable);
    let schema = Arc::new(ArrowSchema::new(vec![field]));
    match arrow_select::concat::concat_batches(&schema, &batches) {
        Ok(_) => panic!("the batches fit"),
        Err(e) => e.to_string(),
    }
}

fn source_of(data_type: DataType, nullable: bool) -> Arc<ExecutionPlan> {
    Arc::new(ExecutionPlan::Extension(ExtensionExec::leaf(
        "TestSourceExec",
        "TestSourceExec",
        Schema::new(vec![Field::new("v", data_type, nullable)]),
    )))
}

fn combine_error(source: Arc<ExecutionPlan>, batches: Vec<RecordBatch>) -> String {
    match SortExec::new(key("v", 0, false, false), source).combine(&batches) {
        Err(FdapQueryError::Internal(message)) => message,
        other => panic!("unexpected outcome {other:?}"),
    }
}

#[test]
fn batches_of_different_types_are_not_put_together() {
    let reason = arrow_reason(
        true,
        ArrowType::Int64,
        vec![
            Arc::new(Int64Array::from(vec![1])),
            Arc::new(StringArray::from(vec!["a"])),
            Arc::new(Int64Array::from(vec![2])),
            Arc::new(Int32Array::from(vec![3])),
        ],
    );
    let error = combine_error(
        employee_source(),
        vec![
            batch_of(DataType::Int64, numbers(&[1])),
            batch_of(DataType::Utf8, vec![ScalarValue::Utf8("a".to_string())]),
            batch_of(DataType::Int64, numbers(&[2])),
            batch_of(DataType::Int32, vec![ScalarValue::Int32(3)]),
        ],
    );
    assert_eq!(error, format!("SortExec: concat_batches failed: {reason}"));
}

#[test]
fn no_more_than_ten_types_are_named() {
    let pairs = [
        (DataType::Int8, ArrowType::Int8),
        (DataType::Int16, ArrowType::Int16),
        (DataType::Int32, ArrowType::Int32),
        (DataType::Int64, ArrowType::Int64),
        (DataType::UInt8, ArrowType::UInt8),
        (DataType::UInt16, ArrowType::UInt16),
        (DataType::UInt32, ArrowType::UInt32),
        (DataType::UInt64, ArrowType::UInt64),
        (DataType::Float32, ArrowType::Float32),
        (DataType::Float64, ArrowType::Float64),
        (DataType::Date32, ArrowType::Date32),
        (DataType::Boolean, ArrowType::Boolean),
    ];
    for n in [2, 10, 11, 12] {
        let arrays = pairs[..n].iter().map(|p| new_null_array(&p.1, 1)).collect();
        let reason = arrow_reason(true, ArrowType::Int64, arrays);
        let batches: Vec<RecordBatch> =
            pairs[..n].iter().map(|p| batch_of(p.0, vec![ScalarValue::Null])).collect();
        assert_eq!(
            combine_error(employee_source(), batches),
            format!("SortExec: concat_batches failed: {reason}")
        );
    }
}

#[test]
fn batches_must_fit_the_schema_of_the_input() {
    let reason =
        arrow_reason(false, ArrowType::Int64, vec![new_null_array(&ArrowType::Int64, 1)]);
    assert_eq!(
        combine_error(
            source_of(DataType::Int64, false),
            vec![batch_of(DataType::Int64, vec![ScalarValue::Null])]
        ),
        format!("SortExec: concat_batches failed: {reason}")
    );
    let reason = arrow_reason(true, ArrowType::Utf8, vec![new_null_array(&ArrowType::Int64, 1)]);
    assert_eq!(
        combine_error(
            source_of(DataType::Utf8, true),
            vec![batch_of(DataType::Int64, vec![ScalarValue::Null])]
        ),
        format!("SortExec: concat_batches failed: {reason}")
    );
}

#[test]
fn columns_beyond_the_schema_are_left_out() {
    let wide = RecordBatch::try_new(
        Schema::new(vec![
            Field::new("a", DataType::Int64, true),
            Field::new("b", DataType::Int64, true),
        ]),
        vec![numbers(&[1, 2]), numbers(&[3, 4])],
    )
    .unwrap();
    let narrow = batch_of(DataType::Int64, numbers(&[5]));
    let all = concat_batches(&schema_of(DataType::Int64), &vec![wide, narrow]).unwrap();
    assert_eq!(all.num_rows(), 3);
    assert_eq!(all.columns, vec![numbers(&[1, 2, 5])]);
    assert_eq!(all.schema.fields[0].name, "v");
}

#[test]
fn nulls_go_where_the_key_says() {
    let values = || vec![ScalarValue::Int64(2), ScalarValue::Null, ScalarValue::Int64(1)];
    let one = ScalarValue::Int64(1);
    let two = ScalarValue::Int64(2);
    assert_eq!(ordered(values(), false, true), vec![ScalarValue::Null, one.clone(), two.clone()]);
    assert_eq!(ordered(values(), false, false), vec![one.clone(), two.clone(), ScalarValue::Null]);
    assert_eq!(ordered(values(), true, true), vec![ScalarValue::Null, two.clone(), one.clone()]);
    assert_eq!(ordered(values(), true, false), vec![two, one, ScalarValue::Null]);
}

#[test]
fn texts_are_sorted_by_their_bytes() {
    let out = ordered(
        vec![
            ScalarValue::Utf8("b".to_string()),
            ScalarValue::Utf8("é".to_string()),
            ScalarValue::Utf8("Z".to_string()),
            ScalarValue::Utf8("".to_string()),
            ScalarValue::Utf8("ab".to_string()),
        ],
        false,
        false,
    );
    let got: Vec<String> = out.iter().map(|v| v.to_string()).collect();
    let mut expected: Vec<String> =
        ["b", "é", "Z", "", "ab"].iter().map(|s| s.to_string()).collect();
    expected.sort();
    assert_eq!(got, expected);
}

#[test]
fn bytes_are_sorted_one_after_another() {
    let out = ordered(
        vec![
            ScalarValue::Binary(vec![1, 255]),
            ScalarValue::Binary(vec![2]),
            ScalarValue::Binary(vec![1]),
        ],
        false,
        false,
    );
    assert_eq!(
        out,
        vec![
            ScalarValue::Binary(vec![1]),
            ScalarValue::Binary(vec![1, 255]),
            ScalarValue::Binary(vec![2]),
        ]
    );
}

#[test]
fn large_unsigned_numbers_stay_above_small_ones() {
    let out = ordered(
        vec![
            ScalarValue::UInt64(u64::MAX),
            ScalarValue::UInt64(0),
            ScalarValue::UInt64(1 << 63),
            ScalarValue::UInt64(7),
        ],
        false,
        false,
    );
    assert_eq!(
        out,
        vec![
            ScalarValue::UInt64(0),
            ScalarValue::UInt64(7),
            ScalarValue::UInt64(1 << 63),
            ScalarValue::UInt64(u64::MAX),
        ]
    );
}

#[test]
fn doubles_are_sorted_by_the_total_order() {
    let values = [2.5f64, -0.0, f64::NAN, f64::NEG_INFINITY, 0.0, -f64::NAN, f64::INFINITY, -1.0];
    let cells = values.iter().map(|v| ScalarValue::Float64(v.to_bits())).collect();
    let mut expected = values;
    expected.sort_by(|a, b| a.total_cmp(b));
    let expected: Vec<ScalarValue> =
        expected.iter().map(|v| ScalarValue::Float64(v.to_bits())).collect();
    assert_eq!(ordered(cells, false, false), expected);
}

#[test]
fn singles_are_sorted_by_the_total_order() {
    let values = [2.5f32, -0.0, f32::NAN, f32::NEG_INFINITY, 0.0, -f32::NAN, f32::INFINITY, -1.0];
    let cells = values.iter().map(|v| ScalarValue::Float32(v.to_bits())).collect();
    let mut expected = values;
    expected.sort_by(|a, b| a.total_cmp(b));
    let expected: Vec<ScalarValue> =
        expected.iter().map(|v| ScalarValue::Float32(v.to_bits())).collect();
    assert_eq!(ordered(cells, false, false), expected);
}

#[test]
fn false_comes_before_true_and_days_in_order() {
    assert_eq!(
        ordered(vec![ScalarValue::Boolean(true), ScalarValue::Boolean(false)], false, false),
        vec![ScalarValue::Boolean(false), ScalarValue::Boolean(true)]
    );
    assert_eq!(
        ordered(vec![ScalarValue::Date32(3), ScalarValue::Date32(-4)], false, false),
        vec![ScalarValue::Date32(-4), ScalarValue::Date32(3)]
    );
}

#[test]
fn a_later_key_decides_where_an_earlier_one_does_not() {
    let schema = Schema::new(vec![
        Field::new("a", DataType::Int64, false),
        Field::new("b", DataType::Int64, false),
    ]);
    let batch =
        RecordBatch::try_new(schema, vec![numbers(&[1, 2, 1, 2]), numbers(&[5, 6, 7, 8])]).unwrap();
    let keys = vec![
        SortKey {
            values: numbers(&[1, 2, 1, 2]),
            options: SortOptions { descending: false, nulls_first: false },
        },
        SortKey {
            values: numbers(&[5, 6, 7, 8]),
            options: SortOptions { descending: true, nulls_first: false },
        },
    ];
    let out = sort_batch(&batch, &keys, Some(3)).unwrap();
    assert_eq!(out.columns, vec![numbers(&[1, 1, 2]), numbers(&[7, 5, 8])]);
}

#[test]
fn sorting_by_nothing_is_refused() {
    let batch = batch_of(DataType::Int64, numbers(&[1]));
    let error = sort_batch(&batch, &vec![], None).unwrap_err();
    assert!(matches!(error, FdapQueryError::Internal(_)));
    assert_eq!(
        error.message(),
        "SortExec: lexsort_to_indices failed: Invalid argument error: Sort requires at least one column"
    );
}

#[test]
fn preserving_the_partitioning_sorts_each_partition() {
    let mut leaf = ExtensionExec::leaf("Parts", "Parts", schema_of(DataType::Int64));
    leaf.properties = PlanProperties::new(Partitioning::UnknownPartitioning(4));
    let input = Arc::new(ExecutionPlan::Extension(leaf));
    let plan = SortExec::new(key("v", 0, false, false), input);
    assert_eq!(plan.cache.partition_count(), 1);
    assert!(plan.execute(3).is_err());
    let plan = plan.with_preserve_partitioning(true);
    assert_eq!(plan.cache.partition_count(), 4);
    assert!(plan.execute(3).is_ok());
}

#[test]
fn columns_of_other_types_are_sorted_along() {
    let other = |id: i64| ScalarValue::Other { kind: 7, id };
    let schema = Schema::new(vec![
        Field::new("v", DataType::Int64, true),
        Field::new("shape", DataType::Other(7), true),
    ]);
    let batch = RecordBatch::try_new(
        schema,
        vec![numbers(&[2, 3, 1]), vec![other(20), ScalarValue::Null, other(10)]],
    )
    .unwrap();
    let options = SortOptions { descending: false, nulls_first: false };
    let keys = vec![SortKey { values: numbers(&[2, 3, 1]), options }];
    let out = sort_batch(&batch, &keys, None).unwrap();
    assert_eq!(out.columns[1], vec![other(10), other(20), ScalarValue::Null]);
    assert_eq!(
        ordered(vec![other(5), ScalarValue::Null, other(9), other(-1)], true, true),
        vec![ScalarValue::Null, other(9), other(5), other(-1)]
    );
}
