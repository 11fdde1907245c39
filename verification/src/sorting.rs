//! Sorting the rows of a batch by key columns.
use vstd::prelude::*;
use std::sync::Arc;
use arrow_array::{ArrayRef, Int64Array, LargeBinaryArray};
use arrow_ord::sort::SortColumn;
use arrow_schema::SortOptions as ArrowSortOptions;
use crate::batch::RecordBatch;
use crate::error::{Fault, FdapQueryError};
use crate::expr::PhysicalExpr;
use crate::scalar::{Scalar, ScalarValue};
use crate::text::owned;
use crate::{batch, expr, scalar, text};

verus! {

/// The direction of a sort key, and where its nulls go.
#[derive(Clone, Copy, Debug, PartialEq, Eq, Structural)]
pub struct SortOptions {
    pub descending: bool,
    pub nulls_first: bool,
}

/// A sort key: an expression and its direction.
#[derive(Debug)]
pub struct PhysicalSortExpr {
    pub expr: PhysicalExpr,
    pub options: SortOptions,
}

/// The text of a direction; nulls come first unless the text says that they come
/// last.
pub open spec fn options_text(o: SortOptions) -> Seq<char> {
    match (o.descending, o.nulls_first) {
        (true, true) => "DESC"@,
        (true, false) => "DESC NULLS LAST"@,
        (false, true) => "ASC"@,
        (false, false) => "ASC NULLS LAST"@,
    }
}

/// The text of a sort key.
pub open spec fn sort_expr_text(e: PhysicalSortExpr) -> Seq<char> {
    expr::expr_text(e.expr@) + " "@ + options_text(e.options)
}

/// The text of a list of sort keys.
pub open spec fn ordering_text(keys: Seq<PhysicalSortExpr>) -> Seq<char> {
    text::join(Seq::new(keys.len(), |i: int| sort_expr_text(keys[i])), ", "@)
}

impl Clone for PhysicalSortExpr {
    fn clone(&self) -> (r: Self)
        ensures
            r.expr@ == self.expr@,
            r.options == self.options,
    {
        PhysicalSortExpr { expr: self.expr.clone(), options: self.options }
    }
}

impl PhysicalSortExpr {
    /// A sort key.
    pub fn new(expr: PhysicalExpr, options: SortOptions) -> (r: Self)
        ensures
            r == (PhysicalSortExpr { expr, options }),
    {
        PhysicalSortExpr { expr, options }
    }

    /// The text of the sort key.
    pub fn to_string(&self) -> (r: String)
        ensures
            r@ == sort_expr_text(*self),
    {
        let mut out: String = self.expr.to_string();
        out.append(" ");
        match (self.options.descending, self.options.nulls_first) {
            (true, true) => out.append("DESC"),
            (true, false) => out.append("DESC NULLS LAST"),
            (false, true) => out.append("ASC"),
            (false, false) => out.append("ASC NULLS LAST"),
        }
        out
    }
}

/// The text of a list of sort keys.
pub fn format_exprs(exprs: &Vec<PhysicalSortExpr>) -> (r: String)
    ensures
        r@ == ordering_text(exprs@),
{
    let mut parts: Vec<String> = Vec::new();
    let mut i: usize = 0;
    while i < exprs.len()
        invariant
            i <= exprs.len(),
            parts.len() == i,
            forall|j: int| 0 <= j < i ==> (#[trigger] parts@[j])@ == sort_expr_text(exprs@[j]),
        decreases exprs.len() - i,
    {
        parts.push(exprs[i].to_string());
        i += 1;
    }
    assert(text::views(parts@) == Seq::new(exprs@.len(), |i: int| sort_expr_text(exprs@[i])));
    text::joined(&parts, ", ")
}

/// What a cell is sorted by: a number, or bytes.
pub enum SortCell {
    Null,
    Number(i64),
    Bytes(Seq<u8>),
}

/// Byte strings in lexicographic order.
pub open spec fn bytes_less(a: Seq<u8>, b: Seq<u8>) -> bool
    decreases a.len(),
{
    if b.len() == 0 {
        false
    } else if a.len() == 0 {
        true
    } else if a[0] != b[0] {
        a[0] < b[0]
    } else {
        bytes_less(a.drop_first(), b.drop_first())
    }
}

/// Whether `a` is less than `b`, null aside: numbers by value, bytes
/// lexicographically.
pub open spec fn value_less(a: SortCell, b: SortCell) -> bool {
    match (a, b) {
        (SortCell::Number(x), SortCell::Number(y)) => x < y,
        (SortCell::Bytes(x), SortCell::Bytes(y)) => bytes_less(x, y),
        _ => false,
    }
}

/// Whether a cell comes before another in a column sorted by the given options.
pub open spec fn cell_before(a: SortCell, b: SortCell, o: SortOptions) -> bool {
    if a is Null || b is Null {
        if o.nulls_first {
            a is Null && !(b is Null)
        } else {
            b is Null && !(a is Null)
        }
    } else if o.descending {
        value_less(b, a)
    } else {
        value_less(a, b)
    }
}

/// A column of what rows are sorted by, and the options it is sorted by.
pub struct SortKeys {
    pub cells: Seq<SortCell>,
    pub options: SortOptions,
}

/// Whether row `i` comes before row `j`: the first column in which one comes
/// before the other decides.
pub open spec fn row_before(columns: Seq<SortKeys>, i: int, j: int) -> bool
    decreases columns.len(),
{
    if columns.len() == 0 {
        false
    } else {
        let c = columns[0];
        if cell_before(c.cells[i], c.cells[j], c.options) {
            true
        } else if cell_before(c.cells[j], c.cells[i], c.options) {
            false
        } else {
            row_before(columns.drop_first(), i, j)
        }
    }
}

/// How many of `n` rows are taken.
pub open spec fn taken(n: int, limit: Option<usize>) -> int {
    match limit {
        Some(l) => if l < n { l as int } else { n },
        None => n,
    }
}

/// Whether `positions` are the first rows of the sorted order: different rows of
/// the `n` there are, none before one that precedes it, and none left out that
/// comes before one that was taken. Rows neither of which comes before the other
/// may stand in any order.
pub open spec fn first_in_order(
    positions: Seq<int>,
    columns: Seq<SortKeys>,
    n: int,
    limit: Option<usize>,
) -> bool {
    &&& positions.len() == taken(n, limit)
    &&& forall|i: int| 0 <= i < positions.len() ==> 0 <= #[trigger] positions[i] < n
    &&& forall|i: int, j: int|
        0 <= i < j < positions.len() ==> #[trigger] positions[i] != #[trigger] positions[j]
    &&& forall|i: int, j: int|
        0 <= i < j < positions.len() ==> !row_before(
            columns,
            #[trigger] positions[j],
            #[trigger] positions[i],
        )
    &&& forall|k: int, i: int|
        0 <= k < n && !positions.contains(k) && 0 <= i < positions.len() ==> !#[trigger] row_before(
            columns,
            k,
            positions[i],
        )
}

/// `arrow_ord::sort::SortColumn`, a column of values with the options it is
/// sorted by.
#[verifier::external_type_specification]
#[verifier::external_body]
pub struct ExSortColumn(arrow_ord::sort::SortColumn);

/// What the rows of an arrow sort column are sorted by.
pub uninterp spec fn sort_column_cells(column: SortColumn) -> Seq<SortCell>;

/// The options an arrow sort column is sorted by, as a pair: whether it is
/// descending, and whether nulls come first.
pub uninterp spec fn sort_column_options(column: SortColumn) -> (bool, bool);

/// The keys that an arrow sort column holds.
pub open spec fn keys_of(column: SortColumn) -> SortKeys {
    SortKeys {
        cells: sort_column_cells(column),
        options: SortOptions {
            descending: sort_column_options(column).0,
            nulls_first: sort_column_options(column).1,
        },
    }
}

/// The keys that some arrow sort columns hold.
pub open spec fn all_keys_of(columns: Seq<SortColumn>) -> Seq<SortKeys> {
    Seq::new(columns.len(), |i: int| keys_of(columns[i]))
}

/// `Int64Array::from`, put into a `SortColumn`: a column of these numbers and
/// nulls, sorted by these options.
#[verifier::external_body]
fn number_sort_column(values: Vec<Option<i64>>, descending: bool, nulls_first: bool) -> (r: SortColumn)
    ensures
        sort_column_cells(r) == Seq::new(
            values@.len(),
            |i: int|
                match values@[i] {
                    Some(n) => SortCell::Number(n),
                    None => SortCell::Null,
                },
        ),
        sort_column_options(r) == (descending, nulls_first),
{
    let values: ArrayRef = Arc::new(Int64Array::from(values));
    SortColumn { values, options: Some(ArrowSortOptions { descending, nulls_first }) }
}

/// `LargeBinaryArray::from_iter`, put into a `SortColumn`: a column of these byte
/// strings and nulls, sorted by these options.
#[verifier::external_body]
fn bytes_sort_column(values: Vec<Option<Vec<u8>>>, descending: bool, nulls_first: bool) -> (r: SortColumn)
    ensures
        sort_column_cells(r) == Seq::new(
            values@.len(),
            |i: int|
                match values@[i] {
                    Some(b) => SortCell::Bytes(b@),
                    None => SortCell::Null,
                },
        ),
        sort_column_options(r) == (descending, nulls_first),
{
    let values: ArrayRef = Arc::new(LargeBinaryArray::from_iter(values));
    SortColumn { values, options: Some(ArrowSortOptions { descending, nulls_first }) }
}

/// `lexsort_to_indices`: the positions of the first rows in lexicographic order
/// of the columns, nulls where the options put them. Rows that compare equal may
/// come in any order. Without columns, or with columns of different lengths,
/// there is an error, of which the text is given.
#[verifier::external_body]
fn lexsort(columns: &Vec<SortColumn>, limit: Option<usize>) -> (r: Result<Vec<u32>, String>)
    requires
        forall|i: int|
            0 <= i < columns@.len() ==> sort_column_cells(#[trigger] columns@[i]).len() <= u32::MAX,
    ensures
        match r {
            Ok(positions) => {
                &&& columns@.len() > 0
                &&& forall|i: int|
                    0 <= i < columns@.len() ==> sort_column_cells(#[trigger] columns@[i]).len()
                        == sort_column_cells(columns@[0]).len()
                &&& first_in_order(
                    Seq::new(positions@.len(), |i: int| positions@[i] as int),
                    all_keys_of(columns@),
                    sort_column_cells(columns@[0]).len() as int,
                    limit,
                )
            },
            Err(text) => {
                ||| columns@.len() == 0 && text@
                    == "Invalid argument error: Sort requires at least one column"@
                ||| columns@.len() > 1 && (exists|i: int|
                    0 <= i < columns@.len() && sort_column_cells(#[trigger] columns@[i]).len()
                        != sort_column_cells(columns@[0]).len()) && text@
                    == "Compute error: lexical sort columns have different row counts"@
            },
        },
{
    match arrow_ord::sort::lexsort_to_indices(columns, limit) {
        Ok(positions) => Ok(positions.values().to_vec()),
        Err(error) => Err(error.to_string()),
    }
}

/// A number that orders double-precision bit patterns from the negative
/// not-a-numbers up to the positive ones; the negative zero is before the
/// positive zero.
pub open spec fn float64_position(bits: u64) -> int {
    if bits >= 0x8000_0000_0000_0000 {
        0x8000_0000_0000_0000 - bits - 1
    } else {
        bits as int
    }
}

/// A number that orders single-precision bit patterns in the same way.
pub open spec fn float32_position(bits: u32) -> int {
    if bits >= 0x8000_0000 {
        0x8000_0000 - bits - 1
    } else {
        bits as int
    }
}

/// What a cell is sorted by: fixed-width values by a number of the same order,
/// texts by their UTF-8 bytes, and values that are not looked into by the numbers
/// that stand for them.
pub open spec fn sort_cell(v: Scalar) -> SortCell {
    match v {
        Scalar::Null => SortCell::Null,
        Scalar::Boolean(b) => SortCell::Number(if b { 1 } else { 0 }),
        Scalar::Int8(n) => SortCell::Number(n as i64),
        Scalar::Int16(n) => SortCell::Number(n as i64),
        Scalar::Int32(n) => SortCell::Number(n as i64),
        Scalar::Int64(n) => SortCell::Number(n),
        Scalar::UInt8(n) => SortCell::Number(n as i64),
        Scalar::UInt16(n) => SortCell::Number(n as i64),
        Scalar::UInt32(n) => SortCell::Number(n as i64),
        Scalar::UInt64(n) => SortCell::Number((n - 0x8000_0000_0000_0000) as i64),
        Scalar::Float32(bits) => SortCell::Number(float32_position(bits) as i64),
        Scalar::Float64(bits) => SortCell::Number(float64_position(bits) as i64),
        Scalar::Utf8(s) => SortCell::Bytes(vstd::utf8::encode_utf8(s)),
        Scalar::Binary(b) => SortCell::Bytes(b),
        Scalar::Date32(n) => SortCell::Number(n as i64),
        Scalar::Other { id, .. } => SortCell::Number(id),
    }
}

/// Whether a cell is sorted by bytes.
pub open spec fn sorted_by_bytes(v: Scalar) -> bool {
    v is Utf8 || v is Binary
}

/// Whether the cells of a column can be sorted together: all by numbers, or all
/// by bytes.
pub open spec fn sortable(values: Seq<ScalarValue>) -> bool {
    (forall|i: int| 0 <= i < values.len() ==> !sorted_by_bytes((#[trigger] values[i])@)) || (
    forall|i: int|
        0 <= i < values.len() ==> (#[trigger] values[i])@ is Null || sorted_by_bytes(values[i]@))
}

/// A column of what rows are sorted by, given by its cells.
pub open spec fn column_keys(values: Seq<ScalarValue>, options: SortOptions) -> SortKeys {
    SortKeys { cells: Seq::new(values.len(), |i: int| sort_cell(values[i]@)), options }
}

fn sort_number(v: &ScalarValue) -> (r: Option<i64>)
    requires
        !sorted_by_bytes(v@),
    ensures
        sort_cell(v@) == match r {
            Some(n) => SortCell::Number(n),
            None => SortCell::Null,
        },
{
    let sign64: u64 = 0x8000_0000_0000_0000;
    let sign32: u32 = 0x8000_0000;
    match v {
        ScalarValue::Null => None,
        ScalarValue::Boolean(b) => Some(
            if *b {
                1
            } else {
                0
            },
        ),
        ScalarValue::Int8(n) => Some(*n as i64),
        ScalarValue::Int16(n) => Some(*n as i64),
        ScalarValue::Int32(n) => Some(*n as i64),
        ScalarValue::Int64(n) => Some(*n),
        ScalarValue::UInt8(n) => Some(*n as i64),
        ScalarValue::UInt16(n) => Some(*n as i64),
        ScalarValue::UInt32(n) => Some(*n as i64),
        ScalarValue::UInt64(n) => Some((*n as i128 - sign64 as i128) as i64),
        ScalarValue::Float32(bits) => Some(
            if *bits >= sign32 {
                sign32 as i64 - *bits as i64 - 1
            } else {
                *bits as i64
            },
        ),
        ScalarValue::Float64(bits) => Some(
            if *bits >= sign64 {
                (sign64 as i128 - *bits as i128 - 1) as i64
            } else {
                *bits as i64
            },
        ),
        ScalarValue::Date32(n) => Some(*n as i64),
        ScalarValue::Other { id, .. } => Some(*id),
        _ => None,
    }
}

fn sort_bytes(v: &ScalarValue) -> (r: Option<Vec<u8>>)
    requires
        v@ is Null || sorted_by_bytes(v@),
    ensures
        sort_cell(v@) == match r {
            Some(b) => SortCell::Bytes(b@),
            None => SortCell::Null,
        },
{
    match v {
        ScalarValue::Utf8(s) => Some(s.as_str().as_bytes_vec()),
        ScalarValue::Binary(b) => Some(scalar::copy_bytes(b)),
        _ => None,
    }
}

fn is_sorted_by_bytes(v: &ScalarValue) -> (r: bool)
    ensures
        r == sorted_by_bytes(v@),
{
    match v {
        ScalarValue::Utf8(_) => true,
        ScalarValue::Binary(_) => true,
        _ => false,
    }
}

/// The arrow sort column of some cells.
fn sort_column(values: &Vec<ScalarValue>, options: SortOptions) -> (r: SortColumn)
    requires
        sortable(values@),
    ensures
        keys_of(r) == column_keys(values@, options),
{
    let mut bytes: bool = false;
    let mut i: usize = 0;
    while i < values.len()
        invariant
            i <= values.len(),
            bytes <==> exists|j: int| 0 <= j < i && sorted_by_bytes((#[trigger] values@[j])@),
        decreases values.len() - i,
    {
        if is_sorted_by_bytes(&values[i]) {
            assert(sorted_by_bytes(values@[i as int]@));
            bytes = true;
        }
        i += 1;
    }
    if bytes {
        let mut cells: Vec<Option<Vec<u8>>> = Vec::new();
        let mut k: usize = 0;
        while k < values.len()
            invariant
                k <= values.len(),
                forall|i: int|
                    0 <= i < values@.len() ==> (#[trigger] values@[i])@ is Null || sorted_by_bytes(
                        values@[i]@,
                    ),
                cells.len() == k,
                forall|j: int|
                    0 <= j < k ==> sort_cell(values@[j]@) == match (#[trigger] cells@[j]) {
                        Some(b) => SortCell::Bytes(b@),
                        None => SortCell::Null,
                    },
            decreases values.len() - k,
        {
            cells.push(sort_bytes(&values[k]));
            k += 1;
        }
        let r = bytes_sort_column(cells, options.descending, options.nulls_first);
        assert(keys_of(r).cells =~= column_keys(values@, options).cells);
        r
    } else {
        let mut cells: Vec<Option<i64>> = Vec::new();
        let mut k: usize = 0;
        while k < values.len()
            invariant
                k <= values.len(),
                forall|i: int| 0 <= i < values@.len() ==> !sorted_by_bytes((#[trigger] values@[i])@),
                cells.len() == k,
                forall|j: int|
                    0 <= j < k ==> sort_cell(values@[j]@) == match (#[trigger] cells@[j]) {
                        Some(n) => SortCell::Number(n),
                        None => SortCell::Null,
                    },
            decreases values.len() - k,
        {
            cells.push(sort_number(&values[k]));
            k += 1;
        }
        let r = number_sort_column(cells, options.descending, options.nulls_first);
        assert(keys_of(r).cells =~= column_keys(values@, options).cells);
        r
    }
}

/// An evaluated sort key: the cells of the key for each row, and its direction.
#[derive(Debug)]
pub struct SortKey {
    pub values: Vec<ScalarValue>,
    pub options: SortOptions,
}

/// The columns that some evaluated sort keys are sorted by.
pub open spec fn sort_keys(keys: Seq<SortKey>) -> Seq<SortKeys> {
    Seq::new(keys.len(), |i: int| column_keys(keys[i].values@, keys[i].options))
}

/// The rows of a batch in the order of its sort keys, and no more than `limit`
/// of them.
pub fn sort_batch(combined: &RecordBatch, keys: &Vec<SortKey>, limit: Option<usize>) -> (r: Result<
    RecordBatch,
    FdapQueryError,
>)
    requires
        combined.wf(),
        combined.num_rows <= u32::MAX,
        forall|i: int|
            0 <= i < keys@.len() ==> (#[trigger] keys@[i]).values@.len() == combined.num_rows
                && sortable(keys@[i].values@),
    ensures
        match r {
            Ok(sorted) => keys@.len() > 0 && sorted.wf() && sorted.schema@ == combined.schema@
                && exists|positions: Seq<int>|
                #[trigger] first_in_order(
                    positions,
                    sort_keys(keys@),
                    combined.num_rows as int,
                    limit,
                ) && sorted.rows() == batch::gathered(combined.rows(), positions),
            Err(e) => keys@.len() == 0 && e@ == Fault::Internal(
                "SortExec: lexsort_to_indices failed: Invalid argument error: Sort requires at least one column"@,
            ),
        },
{
    let mut columns: Vec<SortColumn> = Vec::new();
    let mut i: usize = 0;
    while i < keys.len()
        invariant
            forall|i: int|
                0 <= i < keys@.len() ==> (#[trigger] keys@[i]).values@.len() == combined.num_rows
                    && sortable(keys@[i].values@),
            i <= keys.len(),
            columns.len() == i,
            forall|j: int|
                0 <= j < i ==> keys_of(#[trigger] columns@[j]) == column_keys(
                    keys@[j].values@,
                    keys@[j].options,
                ),
        decreases keys.len() - i,
    {
        columns.push(sort_column(&keys[i].values, keys[i].options));
        i += 1;
    }
    proof {
        assert(all_keys_of(columns@) == sort_keys(keys@));
        assert forall|j: int| 0 <= j < columns@.len() implies sort_column_cells(
            #[trigger] columns@[j],
        ).len() == combined.num_rows by {
            assert(keys_of(columns@[j]).cells.len() == keys@[j].values@.len());
        }
    }
    match lexsort(&columns, limit) {
        Ok(found) => {
            let ghost positions = Seq::new(found@.len(), |j: int| found@[j] as int);
            let mut rows: Vec<usize> = Vec::new();
            let mut k: usize = 0;
            while k < found.len()
                invariant
                    k <= found.len(),
                    rows.len() == k,
                    forall|j: int| 0 <= j < k ==> (#[trigger] rows@[j]) == found@[j],
                decreases found.len() - k,
            {
                rows.push(found[k] as usize);
                k += 1;
            }
            assert(sort_column_cells(columns@[0]).len() == combined.num_rows);
            assert(first_in_order(
                positions,
                sort_keys(keys@),
                combined.num_rows as int,
                limit,
            ));
            assert forall|j: int| 0 <= j < rows@.len() implies (#[trigger] rows@[j])
                < combined.num_rows by {
                assert(positions[j] == rows@[j]);
            }
            let sorted = combined.take(&rows);
            assert(Seq::new(rows@.len(), |j: int| rows@[j] as int) == positions);
            Ok(sorted)
        },
        Err(reason) => {
            let mut m: String = owned("SortExec: lexsort_to_indices failed: ");
            m.append(reason.as_str());
            proof {
                reveal_strlit("SortExec: lexsort_to_indices failed: ");
                reveal_strlit("Invalid argument error: Sort requires at least one column");
                reveal_strlit(
                    "SortExec: lexsort_to_indices failed: Invalid argument error: Sort requires at least one column",
                );
                assert(columns@.len() == 0);
                assert(m@
                    =~= "SortExec: lexsort_to_indices failed: Invalid argument error: Sort requires at least one column"@);
            }
            Err(FdapQueryError::Internal(m))
        },
    }
}

} // verus!
