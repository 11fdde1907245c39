use fdapquery::boolean_expression::{and3, or3, BooleanExpression, ColumnVector};
use fdapquery::error::FdapQueryError;
use fdapquery::scalar::ScalarValue;
use fdapquery::schema::DataType;

fn column(data_type: DataType, values: Vec<ScalarValue>) -> ColumnVector {
    ColumnVector { data_type, values }
}

fn apply(op: BooleanExpression, a: ColumnVector, b: ColumnVector) -> Vec<ScalarValue> {
    op.evaluate_boolean(&a, &b).unwrap().values
}

#[test]
fn gteq_bytes() {
    let a: Vec<i8> = vec![10, 20, 30, i8::MIN, i8::MAX];
    let b: Vec<i8> = vec![10, 30, 20, i8::MAX, i8::MIN];
    let result = apply(
        BooleanExpression::GtEq,
        column(DataType::Int8, a.iter().map(|v| ScalarValue::Int8(*v)).collect()),
        column(DataType::Int8, b.iter().map(|v| ScalarValue::Int8(*v)).collect()),
    );
    assert_eq!(result.len(), a.len());
    for i in 0..result.len() {
        assert_eq!(result[i], ScalarValue::Boolean(a[i] >= b[i]));
    }
}

#[test]
fn gteq_shorts() {
    let a: Vec<i16> = vec![111, 222, 333, i16::MIN, i16::MAX];
    let b: Vec<i16> = vec![111, 333, 222, i16::MAX, i16::MIN];
    let result = apply(
        BooleanExpression::GtEq,
        column(DataType::Int16, a.iter().map(|v| ScalarValue::Int16(*v)).collect()),
        column(DataType::Int16, b.iter().map(|v| ScalarValue::Int16(*v)).collect()),
    );
    assert_eq!(result.len(), a.len());
    for i in 0..result.len() {
        assert_eq!(result[i], ScalarValue::Boolean(a[i] >= b[i]));
    }
}

#[test]
fn gteq_ints() {
    let a: Vec<i32> = vec![111, 222, 333, i32::MIN, i32::MAX];
    let b: Vec<i32> = vec![111, 333, 222, i32::MAX, i32::MIN];
    let result = apply(
        BooleanExpression::GtEq,
        column(DataType::Int32, a.iter().map(|v| ScalarValue::Int32(*v)).collect()),
        column(DataType::Int32, b.iter().map(|v| ScalarValue::Int32(*v)).collect()),
    );
    assert_eq!(result.len(), a.len());
    for i in 0..result.len() {
        assert_eq!(result[i], ScalarValue::Boolean(a[i] >= b[i]));
    }
}

#[test]
fn gteq_longs() {
    let a: Vec<i64> = vec![111, 222, 333, i64::MIN, i64::MAX];
    let b: Vec<i64> = vec![111, 333, 222, i64::MAX, i64::MIN];
    let result = apply(
        BooleanExpression::GtEq,
        column(DataType::Int64, a.iter().map(|v| ScalarValue::Int64(*v)).collect()),
        column(DataType::Int64, b.iter().map(|v| ScalarValue::Int64(*v)).collect()),
    );
    assert_eq!(result.len(), a.len());
    for i in 0..result.len() {
        assert_eq!(result[i], ScalarValue::Boolean(a[i] >= b[i]));
    }
}

#[test]
fn gteq_doubles() {
    let a: Vec<f64> = vec![0.0, 1.0, f64::MIN_POSITIVE, f64::MAX, f64::NAN];
    let b: Vec<f64> = a.iter().copied().rev().collect();
    let result = apply(
        BooleanExpression::GtEq,
        column(DataType::Float64, a.iter().map(|v| ScalarValue::Float64(v.to_bits())).collect()),
        column(DataType::Float64, b.iter().map(|v| ScalarValue::Float64(v.to_bits())).collect()),
    );
    assert_eq!(result.len(), a.len());
    for i in 0..result.len() {
        assert_eq!(result[i], ScalarValue::Boolean(a[i] >= b[i]));
    }
}

fn text(s: &str) -> ScalarValue {
    ScalarValue::Utf8(s.to_string())
}

fn states() -> ColumnVector {
    column(DataType::Utf8, vec![text("CO"), ScalarValue::Null, text("CA")])
}

fn all_co() -> ColumnVector {
    column(DataType::Utf8, vec![text("CO"), text("CO"), text("CO")])
}

#[test]
fn eq_with_null_string_is_unknown_not_panic() {
    let result = apply(BooleanExpression::Eq, states(), all_co());
    assert_eq!(result[0], ScalarValue::Boolean(true));
    assert_eq!(result[1], ScalarValue::Null);
    assert_eq!(result[2], ScalarValue::Boolean(false));
}

#[test]
fn neq_with_null_string_is_unknown_not_true() {
    let result = apply(BooleanExpression::Neq, states(), all_co());
    assert_eq!(result[0], ScalarValue::Boolean(false));
    assert_eq!(result[1], ScalarValue::Null);
    assert_eq!(result[2], ScalarValue::Boolean(true));
}

#[test]
fn numeric_compare_with_null_is_unknown_not_panic() {
    let a = column(
        DataType::Int32,
        vec![ScalarValue::Int32(5), ScalarValue::Null, ScalarValue::Int32(20)],
    );
    let b = column(
        DataType::Int32,
        vec![ScalarValue::Int32(10), ScalarValue::Int32(10), ScalarValue::Int32(10)],
    );
    let result = apply(BooleanExpression::Gt, a, b);
    assert_eq!(result[0], ScalarValue::Boolean(false));
    assert_eq!(result[1], ScalarValue::Null);
    assert_eq!(result[2], ScalarValue::Boolean(true));
}

#[test]
fn and_or_kleene_three_valued_logic() {
    let (t, f, n) = (Some(true), Some(false), None);
    assert_eq!(and3(f, n), Some(false));
    assert_eq!(and3(t, n), None);
    assert_eq!(and3(n, n), None);
    assert_eq!(and3(t, t), Some(true));
    assert_eq!(or3(t, n), Some(true));
    assert_eq!(or3(f, n), None);
    assert_eq!(or3(f, f), Some(false));
}

#[test]
fn gteq_strings() {
    let a = vec!["aaa", "bbb", "ccc"];
    let b = vec!["aaa", "ccc", "bbb"];
    let result = apply(
        BooleanExpression::GtEq,
        column(DataType::Utf8, a.iter().map(|s| text(s)).collect()),
        column(DataType::Utf8, b.iter().map(|s| text(s)).collect()),
    );
    assert_eq!(result.len(), a.len());
    for i in 0..result.len() {
        assert_eq!(result[i], ScalarValue::Boolean(a[i] >= b[i]));
    }
}

#[test]
fn every_double_comparison_agrees_with_the_machine() {
    let values = [
        0.0, -0.0, 1.0, -1.0, 0.5, f64::INFINITY, f64::NEG_INFINITY, f64::NAN, -f64::NAN, f64::MAX,
        f64::MIN, f64::MIN_POSITIVE, 5e-324, -5e-324,
    ];
    for a in values {
        for b in values {
            let l = ScalarValue::Float64(a.to_bits());
            let r = ScalarValue::Float64(b.to_bits());
            let t = DataType::Float64;
            assert_eq!(BooleanExpression::Eq.compare_value(&l, &r, &t).unwrap(), Some(a == b));
            assert_eq!(BooleanExpression::Neq.compare_value(&l, &r, &t).unwrap(), Some(a != b));
            assert_eq!(BooleanExpression::Lt.compare_value(&l, &r, &t).unwrap(), Some(a < b));
            assert_eq!(BooleanExpression::LtEq.compare_value(&l, &r, &t).unwrap(), Some(a <= b));
            assert_eq!(BooleanExpression::Gt.compare_value(&l, &r, &t).unwrap(), Some(a > b));
            assert_eq!(BooleanExpression::GtEq.compare_value(&l, &r, &t).unwrap(), Some(a >= b));
        }
    }
}

#[test]
fn every_single_comparison_agrees_with_the_machine() {
    let values = [0.0f32, -0.0, 1.0, -1.5, f32::INFINITY, f32::NEG_INFINITY, f32::NAN, f32::MAX, 1e-45];
    for a in values {
        for b in values {
            let l = ScalarValue::Float32(a.to_bits());
            let r = ScalarValue::Float32(b.to_bits());
            let t = DataType::Float32;
            assert_eq!(BooleanExpression::Eq.compare_value(&l, &r, &t).unwrap(), Some(a == b));
            assert_eq!(BooleanExpression::Lt.compare_value(&l, &r, &t).unwrap(), Some(a < b));
            assert_eq!(BooleanExpression::GtEq.compare_value(&l, &r, &t).unwrap(), Some(a >= b));
        }
    }
}

#[test]
fn columns_of_different_lengths_are_refused() {
    let a = column(DataType::Int8, vec![ScalarValue::Int8(1)]);
    let b = column(DataType::Int8, vec![]);
    assert!(BooleanExpression::Eq.evaluate_boolean(&a, &b).is_err());
}

#[test]
fn columns_of_different_types_are_refused() {
    let a = column(DataType::Int8, vec![ScalarValue::Int8(1)]);
    let b = column(DataType::Int16, vec![ScalarValue::Int16(1)]);
    let e = BooleanExpression::Eq.evaluate_boolean(&a, &b).unwrap_err();
    assert!(matches!(e, FdapQueryError::Internal(_) | FdapQueryError::Plan(_) | FdapQueryError::Execution(_)));
}

#[test]
fn bytes_are_compared_as_text() {
    let a = column(DataType::Utf8, vec![ScalarValue::Binary(b"bee".to_vec())]);
    let b = column(DataType::Utf8, vec![text("bee")]);
    assert_eq!(apply(BooleanExpression::Eq, a, b)[0], ScalarValue::Boolean(true));
}

#[test]
fn operators_have_names() {
    assert_eq!(BooleanExpression::And.op_name(), "and");
    assert_eq!(BooleanExpression::Neq.op_name(), "neq");
    assert_eq!(BooleanExpression::LtEq.op_name(), "lteq");
}
