//! Comparisons and logical operators over cells, with three-valued logic.
//!
//! `None` stands for UNKNOWN, which is what a comparison with null gives. It
//! propagates through the comparisons; the logical operators follow Kleene.
use vstd::prelude::*;
use crate::error::{Fault, FdapQueryError};
use crate::scalar::{Scalar, ScalarValue};
use crate::schema::DataType;
use crate::text::{is_text_less, owned, push_decimal, same_text};
use crate::text;

verus! {

/// A binary operator whose result is a boolean cell.
#[derive(Clone, Copy, Debug, PartialEq, Eq, Structural)]
pub enum BooleanExpression {
    And,
    Or,
    Eq,
    Neq,
    Lt,
    LtEq,
    Gt,
    GtEq,
}

/// A column of cells of one type; any cell may be null.
#[derive(Debug)]
pub struct ColumnVector {
    pub data_type: DataType,
    pub values: Vec<ScalarValue>,
}

/// Kleene conjunction: false dominates, true is neutral.
pub open spec fn kleene_and(l: Option<bool>, r: Option<bool>) -> Option<bool> {
    if l == Some(false) || r == Some(false) {
        Some(false)
    } else if l == Some(true) && r == Some(true) {
        Some(true)
    } else {
        None
    }
}

/// Kleene disjunction: true dominates, false is neutral.
pub open spec fn kleene_or(l: Option<bool>, r: Option<bool>) -> Option<bool> {
    if l == Some(true) || r == Some(true) {
        Some(true)
    } else if l == Some(false) && r == Some(false) {
        Some(false)
    } else {
        None
    }
}

/// Kleene negation.
pub open spec fn kleene_not(b: Option<bool>) -> Option<bool> {
    match b {
        Some(x) => Some(!x),
        None => None,
    }
}

/// Kleene conjunction.
pub fn and3(l: Option<bool>, r: Option<bool>) -> (b: Option<bool>)
    ensures
        b == kleene_and(l, r),
{
    match (l, r) {
        (Some(false), _) => Some(false),
        (_, Some(false)) => Some(false),
        (Some(true), Some(true)) => Some(true),
        _ => None,
    }
}

/// Kleene disjunction.
pub fn or3(l: Option<bool>, r: Option<bool>) -> (b: Option<bool>)
    ensures
        b == kleene_or(l, r),
{
    match (l, r) {
        (Some(true), _) => Some(true),
        (_, Some(true)) => Some(true),
        (Some(false), Some(false)) => Some(false),
        _ => None,
    }
}

/// Conjunction and disjunction are commutative, and each is the other seen
/// through negation.
pub proof fn kleene_laws(l: Option<bool>, r: Option<bool>)
    ensures
        kleene_and(l, r) == kleene_and(r, l),
        kleene_or(l, r) == kleene_or(r, l),
        kleene_not(kleene_and(l, r)) == kleene_or(kleene_not(l), kleene_not(r)),
        kleene_not(kleene_or(l, r)) == kleene_and(kleene_not(l), kleene_not(r)),
        kleene_and(Some(true), l) == l,
        kleene_or(Some(false), l) == l,
{
}

/// Whether a comparison holds between two things of which `less` and `equal`
/// say how they are ordered.
pub open spec fn holds(op: BooleanExpression, less: bool, equal: bool) -> bool {
    match op {
        BooleanExpression::Eq => equal,
        BooleanExpression::Neq => !equal,
        BooleanExpression::Lt => less,
        BooleanExpression::LtEq => less || equal,
        BooleanExpression::Gt => !less && !equal,
        BooleanExpression::GtEq => !less,
        _ => false,
    }
}

/// Whether a comparison holds between two numbers.
pub open spec fn numbers_compare(op: BooleanExpression, a: int, b: int) -> bool {
    holds(op, a < b, a == b)
}

/// Whether a comparison holds between two texts, in code point order.
pub open spec fn texts_compare(op: BooleanExpression, a: Seq<char>, b: Seq<char>) -> bool {
    holds(op, text::text_less(a, b), a == b)
}

/// Whether a bit pattern is a double-precision not-a-number.
pub open spec fn is_nan64(bits: u64) -> bool {
    bits % 0x8000_0000_0000_0000 > 0x7ff0_0000_0000_0000
}

/// A number that orders the double-precision numbers as they are ordered: the
/// pattern without its sign, negated where the sign is set. Both zeros get zero.
pub open spec fn float64_rank(bits: u64) -> int {
    if bits >= 0x8000_0000_0000_0000 {
        -(bits - 0x8000_0000_0000_0000)
    } else {
        bits as int
    }
}

/// Whether a bit pattern is a single-precision not-a-number.
pub open spec fn is_nan32(bits: u32) -> bool {
    bits % 0x8000_0000 > 0x7f80_0000
}

/// A number that orders the single-precision numbers as they are ordered.
pub open spec fn float32_rank(bits: u32) -> int {
    if bits >= 0x8000_0000 {
        -(bits - 0x8000_0000)
    } else {
        bits as int
    }
}

/// Whether a comparison holds between two double-precision numbers: with
/// not-a-number only inequality does.
pub open spec fn floats64_compare(op: BooleanExpression, a: u64, b: u64) -> bool {
    if is_nan64(a) || is_nan64(b) {
        op == BooleanExpression::Neq
    } else {
        numbers_compare(op, float64_rank(a), float64_rank(b))
    }
}

/// Whether a comparison holds between two single-precision numbers.
pub open spec fn floats32_compare(op: BooleanExpression, a: u32, b: u32) -> bool {
    if is_nan32(a) || is_nan32(b) {
        op == BooleanExpression::Neq
    } else {
        numbers_compare(op, float32_rank(a), float32_rank(b))
    }
}

/// What reading a cell as a value of some type gives: a value, nothing for null,
/// or a refusal because the cell is of another type.
pub enum Reading<T> {
    Value(T),
    Unknown,
    Refused,
}

/// A cell read as the bytes of a text.
pub open spec fn read_text(v: Scalar) -> Reading<Seq<char>> {
    match v {
        Scalar::Null => Reading::Unknown,
        Scalar::Utf8(s) => Reading::Value(s),
        Scalar::Binary(b) => if vstd::utf8::valid_utf8(b) {
            Reading::Value(vstd::utf8::decode_utf8(b))
        } else {
            Reading::Unknown
        },
        _ => Reading::Refused,
    }
}

/// A cell read as a truth value: integers are true when they are one.
pub open spec fn read_bool(v: Scalar) -> Reading<bool> {
    match v {
        Scalar::Null => Reading::Unknown,
        Scalar::Boolean(b) => Reading::Value(b),
        Scalar::Int8(n) => Reading::Value(n == 1),
        Scalar::Int16(n) => Reading::Value(n == 1),
        Scalar::Int32(n) => Reading::Value(n == 1),
        Scalar::Int64(n) => Reading::Value(n == 1),
        Scalar::UInt8(n) => Reading::Value(n == 1),
        Scalar::UInt16(n) => Reading::Value(n == 1),
        Scalar::UInt32(n) => Reading::Value(n == 1),
        Scalar::UInt64(n) => Reading::Value(n == 1),
        _ => Reading::Refused,
    }
}

/// A cell read as a number of the given type.
pub open spec fn read_number(v: Scalar, t: DataType) -> Reading<int> {
    match (v, t) {
        (Scalar::Null, _) => Reading::Unknown,
        (Scalar::Int8(n), DataType::Int8) => Reading::Value(n as int),
        (Scalar::Int16(n), DataType::Int16) => Reading::Value(n as int),
        (Scalar::Int32(n), DataType::Int32) => Reading::Value(n as int),
        (Scalar::Int64(n), DataType::Int64) => Reading::Value(n as int),
        (Scalar::Date32(n), DataType::Date32) => Reading::Value(n as int),
        _ => Reading::Refused,
    }
}

/// A cell read as a double-precision number.
pub open spec fn read_float64(v: Scalar) -> Reading<u64> {
    match v {
        Scalar::Null => Reading::Unknown,
        Scalar::Float64(n) => Reading::Value(n),
        _ => Reading::Refused,
    }
}

/// A cell read as a single-precision number.
pub open spec fn read_float32(v: Scalar) -> Reading<u32> {
    match v {
        Scalar::Null => Reading::Unknown,
        Scalar::Float32(n) => Reading::Value(n),
        _ => Reading::Refused,
    }
}

/// Whether the comparisons know the type.
pub open spec fn comparable(t: DataType) -> bool {
    match t {
        DataType::Int8 => true,
        DataType::Int16 => true,
        DataType::Int32 => true,
        DataType::Int64 => true,
        DataType::Float32 => true,
        DataType::Float64 => true,
        DataType::Utf8 => true,
        DataType::Date32 => true,
        _ => false,
    }
}

/// The name of the reader of a type, and what it expects.
pub open spec fn reader_name(t: DataType) -> Seq<char> {
    match t {
        DataType::Int8 => "as_opt_i8: expected Int8"@,
        DataType::Int16 => "as_opt_i16: expected Int16"@,
        DataType::Int32 => "as_opt_i32: expected Int32"@,
        DataType::Int64 => "as_opt_i64: expected Int64"@,
        DataType::Float32 => "as_opt_f32: expected Float32"@,
        DataType::Float64 => "as_opt_f64: expected Float64"@,
        DataType::Date32 => "as_opt_date: expected Date32"@,
        _ => "as_opt_str: expected Utf8/Binary"@,
    }
}

/// The error for a cell that is not of the type it is read as.
pub open spec fn wrong_type(t: DataType, v: Scalar) -> Fault {
    Fault::Internal(reader_name(t) + ", got "@ + v.data_type().spec_name())
}

/// The error for a cell that is no truth value.
pub open spec fn no_bool(v: Scalar) -> Fault {
    Fault::Internal("as_opt_bool: cannot convert "@ + v.data_type().spec_name() + " to bool"@)
}

/// Whether a cell can be read as a value of the type.
pub open spec fn readable_as(v: Scalar, t: DataType) -> bool {
    match t {
        DataType::Utf8 => !(read_text(v) is Refused),
        DataType::Float64 => !(read_float64(v) is Refused),
        DataType::Float32 => !(read_float32(v) is Refused),
        _ => !(read_number(v, t) is Refused),
    }
}

/// The result of a comparison of two cells that can be read as values of the
/// type: unknown when one of them is not known.
pub open spec fn compared(op: BooleanExpression, l: Scalar, r: Scalar, t: DataType) -> Option<
    bool,
> {
    match t {
        DataType::Utf8 => match (read_text(l), read_text(r)) {
            (Reading::Value(a), Reading::Value(b)) => Some(texts_compare(op, a, b)),
            _ => None,
        },
        DataType::Float64 => match (read_float64(l), read_float64(r)) {
            (Reading::Value(a), Reading::Value(b)) => Some(floats64_compare(op, a, b)),
            _ => None,
        },
        DataType::Float32 => match (read_float32(l), read_float32(r)) {
            (Reading::Value(a), Reading::Value(b)) => Some(floats32_compare(op, a, b)),
            _ => None,
        },
        _ => match (read_number(l, t), read_number(r, t)) {
            (Reading::Value(a), Reading::Value(b)) => Some(numbers_compare(op, a, b)),
            _ => None,
        },
    }
}

/// A truth value that was read.
pub open spec fn truth(r: Reading<bool>) -> Option<bool> {
    match r {
        Reading::Value(b) => Some(b),
        _ => None,
    }
}

/// The result of an operator on two cells of the given type, or the error.
pub open spec fn cell_result(op: BooleanExpression, l: Scalar, r: Scalar, t: DataType) -> Result<
    Option<bool>,
    Fault,
> {
    if op == BooleanExpression::And || op == BooleanExpression::Or {
        if read_bool(l) is Refused {
            Err(no_bool(l))
        } else if read_bool(r) is Refused {
            Err(no_bool(r))
        } else if op == BooleanExpression::And {
            Ok(kleene_and(truth(read_bool(l)), truth(read_bool(r))))
        } else {
            Ok(kleene_or(truth(read_bool(l)), truth(read_bool(r))))
        }
    } else if !comparable(t) {
        Err(
            Fault::Internal(
                "compare_typed: unsupported data type from child evaluators: "@ + t.spec_name(),
            ),
        )
    } else if !readable_as(l, t) {
        Err(wrong_type(t, l))
    } else if !readable_as(r, t) {
        Err(wrong_type(t, r))
    } else {
        Ok(compared(op, l, r, t))
    }
}

/// The cell of a result: a boolean, or null for unknown.
pub open spec fn result_cell(b: Option<bool>) -> Scalar {
    match b {
        Some(x) => Scalar::Boolean(x),
        None => Scalar::Null,
    }
}

/// `std::str::from_utf8`: the text of a byte string where it is valid UTF-8, and
/// nothing elsewhere.
#[verifier::external_body]
fn text_of_bytes(bytes: &Vec<u8>) -> (r: Option<String>)
    ensures
        r.is_some() == vstd::utf8::valid_utf8(bytes@),
        r.is_some() ==> r.unwrap()@ == vstd::utf8::decode_utf8(bytes@),
{
    std::str::from_utf8(bytes).ok().map(|text| text.to_owned())
}

fn wrong_type_error(expected: &str, v: &ScalarValue) -> (r: FdapQueryError)
    ensures
        r@ == Fault::Internal(expected@ + ", got "@ + v@.data_type().spec_name()),
{
    let mut m: String = owned(expected);
    m.append(", got ");
    m.append(v.data_type().name().as_str());
    FdapQueryError::Internal(m)
}

fn reader(t: &DataType) -> (r: &'static str)
    ensures
        r@ == reader_name(*t),
{
    match t {
        DataType::Int8 => "as_opt_i8: expected Int8",
        DataType::Int16 => "as_opt_i16: expected Int16",
        DataType::Int32 => "as_opt_i32: expected Int32",
        DataType::Int64 => "as_opt_i64: expected Int64",
        DataType::Float32 => "as_opt_f32: expected Float32",
        DataType::Float64 => "as_opt_f64: expected Float64",
        DataType::Date32 => "as_opt_date: expected Date32",
        _ => "as_opt_str: expected Utf8/Binary",
    }
}

/// Reads a cell as a number of the given type.
fn as_opt_number(v: &ScalarValue, t: &DataType) -> (r: Result<Option<i64>, FdapQueryError>)
    ensures
        match r {
            Ok(Some(n)) => read_number(v@, *t) == Reading::<int>::Value(n as int),
            Ok(None) => read_number(v@, *t) is Unknown,
            Err(e) => read_number(v@, *t) is Refused && e@ == wrong_type(*t, v@),
        },
{
    match (v, t) {
        (ScalarValue::Null, _) => Ok(None),
        (ScalarValue::Int8(n), DataType::Int8) => Ok(Some(*n as i64)),
        (ScalarValue::Int16(n), DataType::Int16) => Ok(Some(*n as i64)),
        (ScalarValue::Int32(n), DataType::Int32) => Ok(Some(*n as i64)),
        (ScalarValue::Int64(n), DataType::Int64) => Ok(Some(*n)),
        (ScalarValue::Date32(n), DataType::Date32) => Ok(Some(*n as i64)),
        _ => Err(wrong_type_error(reader(t), v)),
    }
}

/// Reads a cell as a single-precision number.
fn as_opt_f32(v: &ScalarValue) -> (r: Result<Option<u32>, FdapQueryError>)
    ensures
        match r {
            Ok(Some(n)) => read_float32(v@) == Reading::Value(n),
            Ok(None) => read_float32(v@) is Unknown,
            Err(e) => read_float32(v@) is Refused && e@ == wrong_type(DataType::Float32, v@),
        },
{
    match v {
        ScalarValue::Null => Ok(None),
        ScalarValue::Float32(n) => Ok(Some(*n)),
        _ => Err(wrong_type_error("as_opt_f32: expected Float32", v)),
    }
}

/// Reads a cell as a double-precision number.
fn as_opt_f64(v: &ScalarValue) -> (r: Result<Option<u64>, FdapQueryError>)
    ensures
        match r {
            Ok(Some(n)) => read_float64(v@) == Reading::Value(n),
            Ok(None) => read_float64(v@) is Unknown,
            Err(e) => read_float64(v@) is Refused && e@ == wrong_type(DataType::Float64, v@),
        },
{
    match v {
        ScalarValue::Null => Ok(None),
        ScalarValue::Float64(n) => Ok(Some(*n)),
        _ => Err(wrong_type_error("as_opt_f64: expected Float64", v)),
    }
}

/// Reads a cell as a text.
fn as_opt_str(v: &ScalarValue) -> (r: Result<Option<String>, FdapQueryError>)
    ensures
        match r {
            Ok(Some(s)) => read_text(v@) == Reading::Value(s@),
            Ok(None) => read_text(v@) is Unknown,
            Err(e) => read_text(v@) is Refused && e@ == wrong_type(DataType::Utf8, v@),
        },
{
    match v {
        ScalarValue::Null => Ok(None),
        ScalarValue::Utf8(s) => Ok(Some(s.clone())),
        ScalarValue::Binary(b) => Ok(text_of_bytes(b)),
        _ => Err(wrong_type_error("as_opt_str: expected Utf8/Binary", v)),
    }
}

/// Reads a cell as a truth value.
fn as_opt_bool(v: &ScalarValue) -> (r: Result<Option<bool>, FdapQueryError>)
    ensures
        match r {
            Ok(b) => !(read_bool(v@) is Refused) && b == truth(read_bool(v@)),
            Err(e) => read_bool(v@) is Refused && e@ == no_bool(v@),
        },
{
    match v {
        ScalarValue::Null => Ok(None),
        ScalarValue::Boolean(b) => Ok(Some(*b)),
        ScalarValue::Int8(n) => Ok(Some(*n == 1)),
        ScalarValue::Int16(n) => Ok(Some(*n == 1)),
        ScalarValue::Int32(n) => Ok(Some(*n == 1)),
        ScalarValue::Int64(n) => Ok(Some(*n == 1)),
        ScalarValue::UInt8(n) => Ok(Some(*n == 1)),
        ScalarValue::UInt16(n) => Ok(Some(*n == 1)),
        ScalarValue::UInt32(n) => Ok(Some(*n == 1)),
        ScalarValue::UInt64(n) => Ok(Some(*n == 1)),
        _ => {
            let mut m: String = owned("as_opt_bool: cannot convert ");
            m.append(v.data_type().name().as_str());
            m.append(" to bool");
            Err(FdapQueryError::Internal(m))
        },
    }
}

impl BooleanExpression {
    fn decide(&self, less: bool, equal: bool) -> (r: bool)
        ensures
            r == holds(*self, less, equal),
    {
        match self {
            BooleanExpression::Eq => equal,
            BooleanExpression::Neq => !equal,
            BooleanExpression::Lt => less,
            BooleanExpression::LtEq => less || equal,
            BooleanExpression::Gt => !less && !equal,
            BooleanExpression::GtEq => !less,
            _ => false,
        }
    }

    fn compare_floats64(&self, a: u64, b: u64) -> (r: bool)
        ensures
            r == floats64_compare(*self, a, b),
    {
        let magnitude: u64 = 0x8000_0000_0000_0000;
        let infinity: u64 = 0x7ff0_0000_0000_0000;
        if a % magnitude > infinity || b % magnitude > infinity {
            *self == BooleanExpression::Neq
        } else {
            let x: i128 = if a >= magnitude {
                -((a - magnitude) as i128)
            } else {
                a as i128
            };
            let y: i128 = if b >= magnitude {
                -((b - magnitude) as i128)
            } else {
                b as i128
            };
            self.decide(x < y, x == y)
        }
    }

    fn compare_floats32(&self, a: u32, b: u32) -> (r: bool)
        ensures
            r == floats32_compare(*self, a, b),
    {
        let magnitude: u32 = 0x8000_0000;
        let infinity: u32 = 0x7f80_0000;
        if a % magnitude > infinity || b % magnitude > infinity {
            *self == BooleanExpression::Neq
        } else {
            let x: i64 = if a >= magnitude {
                -((a - magnitude) as i64)
            } else {
                a as i64
            };
            let y: i64 = if b >= magnitude {
                -((b - magnitude) as i64)
            } else {
                b as i64
            };
            self.decide(x < y, x == y)
        }
    }

    /// The name of the operator on the wire.
    pub open spec fn spec_op_name(self) -> Seq<char> {
        match self {
            BooleanExpression::And => "and"@,
            BooleanExpression::Or => "or"@,
            BooleanExpression::Eq => "eq"@,
            BooleanExpression::Neq => "neq"@,
            BooleanExpression::Lt => "lt"@,
            BooleanExpression::LtEq => "lteq"@,
            BooleanExpression::Gt => "gt"@,
            BooleanExpression::GtEq => "gteq"@,
        }
    }

    /// The name of the operator on the wire.
    pub fn op_name(&self) -> (r: &'static str)
        ensures
            r@ == self.spec_op_name(),
    {
        match self {
            BooleanExpression::And => "and",
            BooleanExpression::Or => "or",
            BooleanExpression::Eq => "eq",
            BooleanExpression::Neq => "neq",
            BooleanExpression::Lt => "lt",
            BooleanExpression::LtEq => "lteq",
            BooleanExpression::Gt => "gt",
            BooleanExpression::GtEq => "gteq",
        }
    }

    /// Applies the operator to two cells of the given type.
    pub fn compare_value(&self, l: &ScalarValue, r: &ScalarValue, arrow_type: &DataType) -> (result:
        Result<Option<bool>, FdapQueryError>)
        ensures
            match result {
                Ok(b) => cell_result(*self, l@, r@, *arrow_type) == Ok::<Option<bool>, Fault>(b),
                Err(e) => cell_result(*self, l@, r@, *arrow_type) == Err::<Option<bool>, Fault>(e@),
            },
    {
        if *self == BooleanExpression::And || *self == BooleanExpression::Or {
            let a = match as_opt_bool(l) {
                Ok(a) => a,
                Err(e) => return Err(e),
            };
            let b = match as_opt_bool(r) {
                Ok(b) => b,
                Err(e) => return Err(e),
            };
            if *self == BooleanExpression::And {
                return Ok(and3(a, b));
            }
            return Ok(or3(a, b));
        }
        match arrow_type {
            DataType::Float32 => {
                let a = match as_opt_f32(l) {
                    Ok(a) => a,
                    Err(e) => return Err(e),
                };
                let b = match as_opt_f32(r) {
                    Ok(b) => b,
                    Err(e) => return Err(e),
                };
                match (a, b) {
                    (Some(a), Some(b)) => Ok(Some(self.compare_floats32(a, b))),
                    _ => Ok(None),
                }
            },
            DataType::Float64 => {
                let a = match as_opt_f64(l) {
                    Ok(a) => a,
                    Err(e) => return Err(e),
                };
                let b = match as_opt_f64(r) {
                    Ok(b) => b,
                    Err(e) => return Err(e),
                };
                match (a, b) {
                    (Some(a), Some(b)) => Ok(Some(self.compare_floats64(a, b))),
                    _ => Ok(None),
                }
            },
            DataType::Utf8 => {
                let a = match as_opt_str(l) {
                    Ok(a) => a,
                    Err(e) => return Err(e),
                };
                let b = match as_opt_str(r) {
                    Ok(b) => b,
                    Err(e) => return Err(e),
                };
                match (a, b) {
                    (Some(a), Some(b)) => Ok(
                        Some(
                            self.decide(
                                is_text_less(a.as_str(), b.as_str()),
                                same_text(&a, &b),
                            ),
                        ),
                    ),
                    _ => Ok(None),
                }
            },
            DataType::Int8 | DataType::Int16 | DataType::Int32 | DataType::Int64
            | DataType::Date32 => {
                let a = match as_opt_number(l, arrow_type) {
                    Ok(a) => a,
                    Err(e) => return Err(e),
                };
                let b = match as_opt_number(r, arrow_type) {
                    Ok(b) => b,
                    Err(e) => return Err(e),
                };
                match (a, b) {
                    (Some(a), Some(b)) => Ok(Some(self.decide(a < b, a == b))),
                    _ => Ok(None),
                }
            },
            _ => {
                let mut m: String = owned(
                    "compare_typed: unsupported data type from child evaluators: ",
                );
                m.append(arrow_type.name().as_str());
                Err(FdapQueryError::Internal(m))
            },
        }
    }

    /// Applies the operator cell by cell to two columns of one length and one
    /// type. The first cell that fails decides the error; unknown results are
    /// null cells.
    pub fn evaluate_boolean(&self, ll: &ColumnVector, rr: &ColumnVector) -> (result: Result<
        ColumnVector,
        FdapQueryError,
    >)
        ensures
            match result {
                Ok(column) => {
                    &&& ll.values@.len() == rr.values@.len()
                    &&& ll.data_type == rr.data_type
                    &&& column.data_type == DataType::Boolean
                    &&& column.values@.len() == ll.values@.len()
                    &&& forall|i: int|
                        0 <= i < ll.values@.len() ==> {
                            let cell = cell_result(
                                *self,
                                ll.values@[i]@,
                                rr.values@[i]@,
                                ll.data_type,
                            );
                            cell is Ok && (#[trigger] column.values@[i])@ == result_cell(
                                cell->Ok_0,
                            )
                        }
                },
                Err(e) => {
                    ||| ll.values@.len() != rr.values@.len() && e@ == Fault::Internal(
                        "boolean expression operands have mismatched sizes: "@ + text::decimal(
                            ll.values@.len(),
                        ) + " vs "@ + text::decimal(rr.values@.len()),
                    )
                    ||| ll.values@.len() == rr.values@.len() && ll.data_type != rr.data_type && e@
                        == Fault::Plan(
                        "cannot compare values of different type: "@ + ll.data_type.spec_name()
                            + " != "@ + rr.data_type.spec_name(),
                    )
                    ||| ll.values@.len() == rr.values@.len() && ll.data_type == rr.data_type
                        && exists|i: int|
                        #![trigger ll.values@[i]]
                        0 <= i < ll.values@.len() && cell_result(
                            *self,
                            ll.values@[i]@,
                            rr.values@[i]@,
                            ll.data_type,
                        ) == Err::<Option<bool>, Fault>(e@) && forall|j: int|
                            0 <= j < i ==> cell_result(
                                *self,
                                (#[trigger] ll.values@[j])@,
                                rr.values@[j]@,
                                ll.data_type,
                            ) is Ok
                },
            },
    {
        if ll.values.len() != rr.values.len() {
            let mut m: String = owned("boolean expression operands have mismatched sizes: ");
            push_decimal(&mut m, ll.values.len() as u128);
            m.append(" vs ");
            push_decimal(&mut m, rr.values.len() as u128);
            return Err(FdapQueryError::Internal(m));
        }
        if ll.data_type != rr.data_type {
            let mut m: String = owned("cannot compare values of different type: ");
            m.append(ll.data_type.name().as_str());
            m.append(" != ");
            m.append(rr.data_type.name().as_str());
            return Err(FdapQueryError::Plan(m));
        }
        let mut values: Vec<ScalarValue> = Vec::new();
        let mut i: usize = 0;
        while i < ll.values.len()
            invariant
                ll.values@.len() == rr.values@.len(),
                ll.data_type == rr.data_type,
                i <= ll.values.len(),
                values@.len() == i,
                forall|j: int|
                    0 <= j < i ==> {
                        let cell = cell_result(
                            *self,
                            ll.values@[j]@,
                            rr.values@[j]@,
                            ll.data_type,
                        );
                        cell is Ok && (#[trigger] values@[j])@ == result_cell(cell->Ok_0)
                    },
            decreases ll.values.len() - i,
        {
            match self.compare_value(&ll.values[i], &rr.values[i], &ll.data_type) {
                Ok(Some(b)) => values.push(ScalarValue::Boolean(b)),
                Ok(None) => values.push(ScalarValue::Null),
                Err(e) => {
                    proof {
                        assert forall|j: int| 0 <= j < i implies cell_result(
                            *self,
                            (#[trigger] ll.values@[j])@,
                            rr.values@[j]@,
                            ll.data_type,
                        ) is Ok by {
                            let _ = values@[j];
                        }
                        assert(cell_result(
                            *self,
                            ll.values@[i as int]@,
                            rr.values@[i as int]@,
                            ll.data_type,
                        ) == Err::<Option<bool>, Fault>(e@));
                    }
                    return Err(e);
                },
            }
            i += 1;
        }
        Ok(ColumnVector { data_type: DataType::Boolean, values })
    }
}

/// A comparison with null is unknown, whatever the operator and the other cell.
pub proof fn comparison_with_null_is_unknown(
    op: BooleanExpression,
    v: Scalar,
    t: DataType,
)
    requires
        op != BooleanExpression::And,
        op != BooleanExpression::Or,
        comparable(t),
        readable_as(v, t),
    ensures
        cell_result(op, Scalar::Null, v, t) == Ok::<Option<bool>, Fault>(None),
        cell_result(op, v, Scalar::Null, t) == Ok::<Option<bool>, Fault>(None),
{
}

/// On known values of a type without not-a-number, each comparison is the
/// negation of its opposite.
pub proof fn comparisons_oppose(l: Scalar, r: Scalar, t: DataType)
    requires
        comparable(t),
        t != DataType::Float32,
        t != DataType::Float64,
        readable_as(l, t),
        readable_as(r, t),
    ensures
        compared(BooleanExpression::Neq, l, r, t) == kleene_not(
            compared(BooleanExpression::Eq, l, r, t),
        ),
        compared(BooleanExpression::GtEq, l, r, t) == kleene_not(
            compared(BooleanExpression::Lt, l, r, t),
        ),
        compared(BooleanExpression::Gt, l, r, t) == kleene_not(
            compared(BooleanExpression::LtEq, l, r, t),
        ),
        compared(BooleanExpression::Gt, l, r, t) == compared(BooleanExpression::Lt, r, l, t),
{
    if t == DataType::Utf8 {
        match (read_text(l), read_text(r)) {
            (Reading::Value(a), Reading::Value(b)) => {
                text::text_less_total(a, b);
            },
            _ => {},
        }
    }
}

} // verus!
