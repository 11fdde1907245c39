//! Single cells: typed values that may be null.
//!
//! A floating-point cell is held by its bit pattern. Keys of joins, groups and
//! shuffles compare bit patterns, so that two not-a-number cells of the same
//! pattern are the same key; the comparison operators read the pattern as an
//! IEEE 754 number (see [`crate::boolean_expression`]).
use vstd::prelude::*;
use crate::schema::DataType;
use crate::text::same_text;

verus! {

/// A single typed value, or null.
#[derive(Debug)]
pub enum ScalarValue {
    Null,
    Boolean(bool),
    Int8(i8),
    Int16(i16),
    Int32(i32),
    Int64(i64),
    UInt8(u8),
    UInt16(u16),
    UInt32(u32),
    UInt64(u64),
    /// A single-precision number, by its bit pattern.
    Float32(u32),
    /// A double-precision number, by its bit pattern.
    Float64(u64),
    Utf8(String),
    Binary(Vec<u8>),
    /// Days since the Unix epoch.
    Date32(i32),
    /// A value that is passed on without being looked into, by the numbers under
    /// which the caller knows its type and finds it again. Values of one type are
    /// numbered in their order.
    Other { kind: u32, id: i64 },
}

/// The mathematical value of a cell.
pub enum Scalar {
    Null,
    Boolean(bool),
    Int8(i8),
    Int16(i16),
    Int32(i32),
    Int64(i64),
    UInt8(u8),
    UInt16(u16),
    UInt32(u32),
    UInt64(u64),
    Float32(u32),
    Float64(u64),
    Utf8(Seq<char>),
    Binary(Seq<u8>),
    Date32(i32),
    Other { kind: u32, id: i64 },
}

impl View for ScalarValue {
    type V = Scalar;

    open spec fn view(&self) -> Scalar {
        match *self {
            ScalarValue::Null => Scalar::Null,
            ScalarValue::Boolean(x) => Scalar::Boolean(x),
            ScalarValue::Int8(x) => Scalar::Int8(x),
            ScalarValue::Int16(x) => Scalar::Int16(x),
            ScalarValue::Int32(x) => Scalar::Int32(x),
            ScalarValue::Int64(x) => Scalar::Int64(x),
            ScalarValue::UInt8(x) => Scalar::UInt8(x),
            ScalarValue::UInt16(x) => Scalar::UInt16(x),
            ScalarValue::UInt32(x) => Scalar::UInt32(x),
            ScalarValue::UInt64(x) => Scalar::UInt64(x),
            ScalarValue::Float32(x) => Scalar::Float32(x),
            ScalarValue::Float64(x) => Scalar::Float64(x),
            ScalarValue::Utf8(x) => Scalar::Utf8(x@),
            ScalarValue::Binary(x) => Scalar::Binary(x@),
            ScalarValue::Date32(x) => Scalar::Date32(x),
            ScalarValue::Other { kind, id } => Scalar::Other { kind, id },
        }
    }
}

/// The cells of a row or of a column.
pub open spec fn cells(row: Seq<ScalarValue>) -> Seq<Scalar> {
    Seq::new(row.len(), |i: int| row[i]@)
}

/// The rows of a table.
pub open spec fn rows_of(rows: Seq<Vec<ScalarValue>>) -> Seq<Seq<Scalar>> {
    Seq::new(rows.len(), |i: int| cells(rows[i]@))
}

/// A copy of `bytes`.
pub fn copy_bytes(bytes: &Vec<u8>) -> (r: Vec<u8>)
    ensures
        r@ == bytes@,
{
    let mut r: Vec<u8> = Vec::new();
    let mut i: usize = 0;
    while i < bytes.len()
        invariant
            i <= bytes.len(),
            r@ == bytes@.take(i as int),
        decreases bytes.len() - i,
    {
        r.push(bytes[i]);
        i += 1;
    }
    assert(bytes@.take(i as int) == bytes@);
    r
}

/// Whether two byte strings are equal.
pub fn same_bytes(a: &Vec<u8>, b: &Vec<u8>) -> (r: bool)
    ensures
        r == (a@ == b@),
{
    if a.len() != b.len() {
        return false;
    }
    let mut i: usize = 0;
    while i < a.len()
        invariant
            i <= a.len(),
            a.len() == b.len(),
            a@.take(i as int) == b@.take(i as int),
        decreases a.len() - i,
    {
        if a[i] != b[i] {
            return false;
        }
        assert(a@.take(i + 1) == a@.take(i as int).push(a@[i as int]));
        assert(b@.take(i + 1) == b@.take(i as int).push(b@[i as int]));
        i += 1;
    }
    assert(a@.take(i as int) == a@);
    assert(b@.take(i as int) == b@);
    true
}

impl Clone for ScalarValue {
    fn clone(&self) -> (r: Self)
        ensures
            r@ == self@,
    {
        match self {
            ScalarValue::Null => ScalarValue::Null,
            ScalarValue::Boolean(x) => ScalarValue::Boolean(*x),
            ScalarValue::Int8(x) => ScalarValue::Int8(*x),
            ScalarValue::Int16(x) => ScalarValue::Int16(*x),
            ScalarValue::Int32(x) => ScalarValue::Int32(*x),
            ScalarValue::Int64(x) => ScalarValue::Int64(*x),
            ScalarValue::UInt8(x) => ScalarValue::UInt8(*x),
            ScalarValue::UInt16(x) => ScalarValue::UInt16(*x),
            ScalarValue::UInt32(x) => ScalarValue::UInt32(*x),
            ScalarValue::UInt64(x) => ScalarValue::UInt64(*x),
            ScalarValue::Float32(x) => ScalarValue::Float32(*x),
            ScalarValue::Float64(x) => ScalarValue::Float64(*x),
            ScalarValue::Utf8(x) => ScalarValue::Utf8(x.clone()),
            ScalarValue::Binary(x) => ScalarValue::Binary(copy_bytes(x)),
            ScalarValue::Date32(x) => ScalarValue::Date32(*x),
            ScalarValue::Other { kind, id } => ScalarValue::Other { kind: *kind, id: *id },
        }
    }
}

impl PartialEq for ScalarValue {
    fn eq(&self, other: &Self) -> (r: bool) {
        match (self, other) {
            (ScalarValue::Null, ScalarValue::Null) => true,
            (ScalarValue::Boolean(a), ScalarValue::Boolean(b)) => *a == *b,
            (ScalarValue::Int8(a), ScalarValue::Int8(b)) => *a == *b,
            (ScalarValue::Int16(a), ScalarValue::Int16(b)) => *a == *b,
            (ScalarValue::Int32(a), ScalarValue::Int32(b)) => *a == *b,
            (ScalarValue::Int64(a), ScalarValue::Int64(b)) => *a == *b,
            (ScalarValue::UInt8(a), ScalarValue::UInt8(b)) => *a == *b,
            (ScalarValue::UInt16(a), ScalarValue::UInt16(b)) => *a == *b,
            (ScalarValue::UInt32(a), ScalarValue::UInt32(b)) => *a == *b,
            (ScalarValue::UInt64(a), ScalarValue::UInt64(b)) => *a == *b,
            (ScalarValue::Float32(a), ScalarValue::Float32(b)) => *a == *b,
            (ScalarValue::Float64(a), ScalarValue::Float64(b)) => *a == *b,
            (ScalarValue::Utf8(a), ScalarValue::Utf8(b)) => same_text(a, b),
            (ScalarValue::Binary(a), ScalarValue::Binary(b)) => same_bytes(a, b),
            (ScalarValue::Date32(a), ScalarValue::Date32(b)) => *a == *b,
            (
                ScalarValue::Other { kind: k, id: a },
                ScalarValue::Other { kind: l, id: b },
            ) => *k == *l && *a == *b,
            _ => false,
        }
    }
}

impl vstd::std_specs::cmp::PartialEqSpecImpl for ScalarValue {
    open spec fn obeys_eq_spec() -> bool {
        true
    }

    open spec fn eq_spec(&self, other: &Self) -> bool {
        self@ == other@
    }
}

impl Scalar {
    /// The type of the cell.
    pub open spec fn data_type(self) -> DataType {
        match self {
            Scalar::Null => DataType::Null,
            Scalar::Boolean(_) => DataType::Boolean,
            Scalar::Int8(_) => DataType::Int8,
            Scalar::Int16(_) => DataType::Int16,
            Scalar::Int32(_) => DataType::Int32,
            Scalar::Int64(_) => DataType::Int64,
            Scalar::UInt8(_) => DataType::UInt8,
            Scalar::UInt16(_) => DataType::UInt16,
            Scalar::UInt32(_) => DataType::UInt32,
            Scalar::UInt64(_) => DataType::UInt64,
            Scalar::Float32(_) => DataType::Float32,
            Scalar::Float64(_) => DataType::Float64,
            Scalar::Utf8(_) => DataType::Utf8,
            Scalar::Binary(_) => DataType::Binary,
            Scalar::Date32(_) => DataType::Date32,
            Scalar::Other { kind, .. } => DataType::Other(kind),
        }
    }
}

impl ScalarValue {
    /// The type of the cell; a null cell has the null type.
    pub fn data_type(&self) -> (r: DataType)
        ensures
            r == self@.data_type(),
    {
        match self {
            ScalarValue::Null => DataType::Null,
            ScalarValue::Boolean(_) => DataType::Boolean,
            ScalarValue::Int8(_) => DataType::Int8,
            ScalarValue::Int16(_) => DataType::Int16,
            ScalarValue::Int32(_) => DataType::Int32,
            ScalarValue::Int64(_) => DataType::Int64,
            ScalarValue::UInt8(_) => DataType::UInt8,
            ScalarValue::UInt16(_) => DataType::UInt16,
            ScalarValue::UInt32(_) => DataType::UInt32,
            ScalarValue::UInt64(_) => DataType::UInt64,
            ScalarValue::Float32(_) => DataType::Float32,
            ScalarValue::Float64(_) => DataType::Float64,
            ScalarValue::Utf8(_) => DataType::Utf8,
            ScalarValue::Binary(_) => DataType::Binary,
            ScalarValue::Date32(_) => DataType::Date32,
            ScalarValue::Other { kind, .. } => DataType::Other(*kind),
        }
    }
}

/// A copy of a row or of a column.
pub fn copy_cells(row: &Vec<ScalarValue>) -> (r: Vec<ScalarValue>)
    ensures
        cells(r@) == cells(row@),
{
    let mut r: Vec<ScalarValue> = Vec::new();
    let mut i: usize = 0;
    while i < row.len()
        invariant
            i <= row.len(),
            r.len() == i,
            forall|j: int| 0 <= j < i ==> (#[trigger] r@[j])@ == row@[j]@,
        decreases row.len() - i,
    {
        r.push(row[i].clone());
        i += 1;
    }
    assert(cells(r@) == cells(row@));
    r
}

/// Whether two rows hold the same cells.
pub fn same_cells(a: &Vec<ScalarValue>, b: &Vec<ScalarValue>) -> (r: bool)
    ensures
        r == (cells(a@) == cells(b@)),
{
    if a.len() != b.len() {
        assert(cells(a@).len() != cells(b@).len());
        return false;
    }
    let mut i: usize = 0;
    while i < a.len()
        invariant
            i <= a.len(),
            a.len() == b.len(),
            forall|j: int| 0 <= j < i ==> (#[trigger] cells(a@)[j]) == cells(b@)[j],
        decreases a.len() - i,
    {
        if !(a[i] == b[i]) {
            assert(cells(a@)[i as int] != cells(b@)[i as int]);
            return false;
        }
        assert(cells(a@)[i as int] == cells(b@)[i as int]);
        i += 1;
    }
    assert(cells(a@) == cells(b@));
    true
}

} // verus!
