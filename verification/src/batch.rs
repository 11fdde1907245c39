//! Batches of rows, held column by column.
use vstd::prelude::*;
use crate::error::{Fault, FdapQueryError};
use crate::scalar::{copy_cells, Scalar, ScalarValue};
use crate::schema::{DataType, Field, FieldModel, Schema};
use crate::text::{owned, push_decimal};
use crate::{scalar, text};

verus! {

/// Some rows of a table: one column of cells per field of the schema.
#[derive(Debug)]
pub struct RecordBatch {
    pub schema: Schema,
    pub columns: Vec<Vec<ScalarValue>>,
    pub num_rows: usize,
}

/// Whether every one of `columns` holds `n` cells.
pub open spec fn all_of_length(columns: Seq<Vec<ScalarValue>>, n: int) -> bool {
    forall|c: int| 0 <= c < columns.len() ==> (#[trigger] columns[c])@.len() == n
}

/// Row `r` of a table given by its columns.
pub open spec fn row_at(columns: Seq<Vec<ScalarValue>>, r: int) -> Seq<Scalar> {
    Seq::new(columns.len(), |c: int| columns[c]@[r]@)
}

/// The first `n` rows of a table given by its columns.
pub open spec fn table_rows(columns: Seq<Vec<ScalarValue>>, n: nat) -> Seq<Seq<Scalar>> {
    Seq::new(n, |r: int| row_at(columns, r))
}

/// The positions at which `keep` is true, in ascending order.
pub open spec fn kept_indices(keep: Seq<bool>) -> Seq<int>
    decreases keep.len(),
{
    if keep.len() == 0 {
        seq![]
    } else if keep.last() {
        kept_indices(keep.drop_last()).push(keep.len() - 1)
    } else {
        kept_indices(keep.drop_last())
    }
}

/// The rows of `rows` at the given positions, in the order of the positions.
pub open spec fn gathered<T>(rows: Seq<T>, positions: Seq<int>) -> Seq<T> {
    Seq::new(positions.len(), |i: int| rows[positions[i]])
}

/// `parts` one after the other.
pub open spec fn flattened<T>(parts: Seq<Seq<T>>) -> Seq<T>
    decreases parts.len(),
{
    if parts.len() == 0 {
        seq![]
    } else {
        flattened(parts.drop_last()) + parts.last()
    }
}

/// The positions in `keep` are ascending, in range, and exactly those at which
/// `keep` is true.
pub proof fn kept_indices_exact(keep: Seq<bool>)
    ensures
        kept_indices(keep).len() <= keep.len(),
        forall|i: int|
            0 <= i < kept_indices(keep).len() ==> 0 <= #[trigger] kept_indices(keep)[i] < keep.len()
                && keep[kept_indices(keep)[i]],
        forall|i: int, j: int|
            0 <= i < j < kept_indices(keep).len() ==> kept_indices(keep)[i] < kept_indices(
                keep,
            )[j],
        forall|r: int| 0 <= r < keep.len() && keep[r] ==> kept_indices(keep).contains(r),
    decreases keep.len(),
{
    if keep.len() > 0 {
        let shorter = keep.drop_last();
        kept_indices_exact(shorter);
        let all = kept_indices(keep);
        let old = kept_indices(shorter);
        assert forall|r: int| 0 <= r < keep.len() && keep[r] implies all.contains(r) by {
            if r < keep.len() - 1 {
                assert(shorter[r]);
                let k = choose|k: int| 0 <= k < old.len() && old[k] == r;
                assert(all[k] == r);
            } else {
                assert(all[all.len() - 1] == r);
            }
        }
        assert forall|i: int| 0 <= i < all.len() implies 0 <= #[trigger] all[i] < keep.len()
            && keep[all[i]] by {
            if i < old.len() {
                assert(all[i] == old[i]);
                assert(shorter[old[i]] == keep[old[i]]);
            }
        }
    }
}

/// The first position that is not below `n`.
pub open spec fn first_beyond(indices: Seq<usize>, n: nat) -> Option<usize>
    decreases indices.len(),
{
    if indices.len() == 0 {
        None
    } else if indices[0] >= n {
        Some(indices[0])
    } else {
        first_beyond(indices.drop_first(), n)
    }
}

/// The fields at the given positions.
pub open spec fn projected(schema: Seq<FieldModel>, indices: Seq<usize>) -> Seq<FieldModel> {
    Seq::new(indices.len(), |k: int| schema[indices[k] as int])
}

/// The rows, each with the cells at the given positions alone.
pub open spec fn projected_rows(rows: Seq<Seq<Scalar>>, indices: Seq<usize>) -> Seq<Seq<Scalar>> {
    Seq::new(rows.len(), |i: int| Seq::new(indices.len(), |k: int| rows[i][indices[k] as int]))
}

/// Whether a cell may stand in the column of a field: it has the type of the
/// field, or is null where nulls are allowed. A column of the null type holds
/// nothing but nulls.
pub open spec fn cell_fits(field: FieldModel, cell: Scalar) -> bool {
    if cell is Null {
        field.nullable || field.data_type == DataType::Null
    } else {
        cell.data_type() == field.data_type
    }
}

/// Whether every cell may stand in its column.
pub open spec fn cells_fit(schema: Seq<FieldModel>, columns: Seq<Vec<ScalarValue>>) -> bool {
    forall|c: int, r: int|
        0 <= c < columns.len() && 0 <= r < columns[c]@.len() ==> cell_fits(
            schema[c],
            (#[trigger] columns[c]@[r])@,
        )
}

/// The columns as plain values.
pub open spec fn column_values(columns: Seq<Vec<ScalarValue>>) -> Seq<Seq<Scalar>> {
    Seq::new(columns.len(), |c: int| scalar::cells(columns[c]@))
}

/// The first `width` columns of some rows.
pub open spec fn transposed(rows: Seq<Seq<Scalar>>, width: nat) -> Seq<Seq<Scalar>> {
    Seq::new(width, |c: int| Seq::new(rows.len(), |r: int| rows[r][c]))
}

/// Whether a column holds a null that its field does not allow.
pub open spec fn holds_null(field: FieldModel, cells: Seq<Scalar>) -> bool {
    !field.nullable && field.data_type != DataType::Null && cells.contains(Scalar::Null)
}

/// The first field from `c` on whose column holds a null that it does not allow.
pub open spec fn null_field(schema: Seq<FieldModel>, columns: Seq<Seq<Scalar>>, c: int) -> Option<
    int,
>
    decreases columns.len() - c,
{
    if 0 <= c < columns.len() {
        if holds_null(schema[c], columns[c]) {
            Some(c)
        } else {
            null_field(schema, columns, c + 1)
        }
    } else {
        None
    }
}

/// The type of the first cell, null aside, that is not of the given type.
pub open spec fn other_type(data_type: DataType, cells: Seq<Scalar>) -> Option<DataType>
    decreases cells.len(),
{
    if cells.len() == 0 {
        None
    } else if !(cells[0] is Null) && cells[0].data_type() != data_type {
        Some(cells[0].data_type())
    } else {
        other_type(data_type, cells.drop_first())
    }
}

/// The first field from `c` on whose column holds cells of another type, and
/// that type.
pub open spec fn mistyped_field(
    schema: Seq<FieldModel>,
    columns: Seq<Seq<Scalar>>,
    c: int,
) -> Option<(int, DataType)>
    decreases columns.len() - c,
{
    if 0 <= c < columns.len() {
        match other_type(schema[c].data_type, columns[c]) {
            Some(t) => Some((c, t)),
            None => mistyped_field(schema, columns, c + 1),
        }
    } else {
        None
    }
}

/// The error of putting some columns under a schema, if there is one: there are
/// more or fewer columns than fields, or none, a column holds a null that its
/// field does not allow, the columns differ in length, or a column is not of the
/// type of its field. The first of these counts.
pub open spec fn batch_fault(schema: Seq<FieldModel>, columns: Seq<Seq<Scalar>>) -> Option<Fault> {
    if columns.len() != schema.len() {
        Some(
            Fault::ArrowError(
                "number of columns("@ + text::decimal(columns.len())
                    + ") must match number of fields("@ + text::decimal(schema.len())
                    + ") in schema"@,
            ),
        )
    } else if columns.len() == 0 {
        Some(Fault::ArrowError("must either specify a row count or at least one column"@))
    } else {
        match null_field(schema, columns, 0) {
            Some(c) => Some(
                Fault::ArrowError(
                    "Column '"@ + schema[c].name
                        + "' is declared as non-nullable but contains null values"@,
                ),
            ),
            None => if exists|c: int|
                0 <= c < columns.len() && (#[trigger] columns[c]).len() != columns[0].len() {
                Some(Fault::ArrowError("all columns in a record batch must have the same length"@))
            } else {
                match mistyped_field(schema, columns, 0) {
                    Some((c, t)) => Some(
                        Fault::ArrowError(
                            "column types must match schema types, expected "@
                                + schema[c].data_type.spec_name() + " but found "@ + t.spec_name()
                                + " at column index "@ + text::decimal(c as nat),
                        ),
                    ),
                    None => None,
                }
            },
        }
    }
}

proof fn null_field_exact(schema: Seq<FieldModel>, columns: Seq<Seq<Scalar>>, c: int)
    requires
        0 <= c <= columns.len(),
    ensures
        match null_field(schema, columns, c) {
            Some(k) => c <= k < columns.len() && holds_null(schema[k], columns[k]),
            None => forall|k: int|
                c <= k < columns.len() ==> !holds_null(schema[k], #[trigger] columns[k]),
        },
    decreases columns.len() - c,
{
    if c < columns.len() {
        null_field_exact(schema, columns, c + 1);
    }
}

proof fn other_type_exact(data_type: DataType, cells: Seq<Scalar>)
    ensures
        other_type(data_type, cells) is None <==> forall|r: int|
            0 <= r < cells.len() ==> (#[trigger] cells[r]) is Null || cells[r].data_type()
                == data_type,
    decreases cells.len(),
{
    if cells.len() > 0 {
        let rest = cells.drop_first();
        other_type_exact(data_type, rest);
        assert(forall|r: int| 0 <= r < rest.len() ==> (#[trigger] rest[r]) == cells[r + 1]);
        if other_type(data_type, rest) is None {
            assert forall|r: int| 1 <= r < cells.len() implies (#[trigger] cells[r]) is Null
                || cells[r].data_type() == data_type by {
                assert(rest[r - 1] == cells[r]);
            }
        }
    }
}

proof fn mistyped_field_exact(schema: Seq<FieldModel>, columns: Seq<Seq<Scalar>>, c: int)
    requires
        0 <= c <= columns.len(),
    ensures
        match mistyped_field(schema, columns, c) {
            Some((k, t)) => c <= k < columns.len() && other_type(schema[k].data_type, columns[k])
                == Some(t),
            None => forall|k: int|
                c <= k < columns.len() ==> other_type(
                    schema[k].data_type,
                    #[trigger] columns[k],
                ) is None,
        },
    decreases columns.len() - c,
{
    if c < columns.len() {
        mistyped_field_exact(schema, columns, c + 1);
    }
}

/// Columns make a batch exactly where there is one per field, at least one, all
/// are of one length, and every cell may stand in its column.
pub proof fn batch_fault_exact(schema: Seq<FieldModel>, columns: Seq<Seq<Scalar>>)
    ensures
        batch_fault(schema, columns) is None <==> {
            &&& columns.len() == schema.len()
            &&& columns.len() > 0
            &&& forall|c: int|
                0 <= c < columns.len() ==> (#[trigger] columns[c]).len() == columns[0].len()
            &&& forall|c: int, r: int|
                0 <= c < columns.len() && 0 <= r < columns[c].len() ==> cell_fits(
                    schema[c],
                    #[trigger] columns[c][r],
                )
        },
{
    null_field_exact(schema, columns, 0);
    mistyped_field_exact(schema, columns, 0);
    assert forall|c: int| 0 <= c < columns.len() implies {
        (!holds_null(schema[c], #[trigger] columns[c]) && other_type(
            schema[c].data_type,
            columns[c],
        ) is None) <==> forall|r: int|
            0 <= r < columns[c].len() ==> cell_fits(schema[c], #[trigger] columns[c][r])
    } by {
        other_type_exact(schema[c].data_type, columns[c]);
        if holds_null(schema[c], columns[c]) {
            let r = choose|r: int| 0 <= r < columns[c].len() && columns[c][r] == Scalar::Null;
            assert(!cell_fits(schema[c], columns[c][r]));
        } else {
            assert forall|r: int| 0 <= r < columns[c].len() && (#[trigger] columns[c][r]) is Null
                implies cell_fits(schema[c], columns[c][r]) by {
                assert(columns[c].contains(Scalar::Null));
            }
        }
        if forall|r: int|
            0 <= r < columns[c].len() ==> cell_fits(schema[c], #[trigger] columns[c][r]) {
            assert forall|r: int| 0 <= r < columns[c].len() implies (#[trigger] columns[c][r]) is Null
                || columns[c][r].data_type() == schema[c].data_type by {
                assert(cell_fits(schema[c], columns[c][r]));
            }
        }
    }
    if batch_fault(schema, columns) is None {
        assert forall|c: int, r: int|
            0 <= c < columns.len() && 0 <= r < columns[c].len() implies cell_fits(
            schema[c],
            #[trigger] columns[c][r],
        ) by {
            assert(!holds_null(schema[c], columns[c]));
        }
    }
}

/// Rows of a batch make a batch under the same schema, whichever they are.
pub proof fn rows_of_a_batch_make_a_batch(batch: RecordBatch, positions: Seq<int>)
    requires
        batch.wf(),
        batch.columns@.len() > 0,
        forall|i: int|
            0 <= i < positions.len() ==> 0 <= #[trigger] positions[i] < batch.num_rows,
    ensures
        batch_fault(
            batch.schema@,
            transposed(gathered(batch.rows(), positions), batch.columns@.len()),
        ) is None,
{
    let columns = transposed(gathered(batch.rows(), positions), batch.columns@.len());
    batch_fault_exact(batch.schema@, columns);
    assert forall|c: int, r: int|
        0 <= c < columns.len() && 0 <= r < columns[c].len() implies cell_fits(
        batch.schema@[c],
        #[trigger] columns[c][r],
    ) by {
        assert(0 <= positions[r] < batch.num_rows);
        assert(batch.columns@[c]@.len() == batch.num_rows);
        assert(columns[c][r] == batch.columns@[c]@[positions[r]]@);
    }
}

/// The columns of a batch are its rows, transposed.
pub proof fn columns_are_rows_transposed(batch: RecordBatch)
    requires
        batch.wf(),
    ensures
        column_values(batch.columns@) == transposed(batch.rows(), batch.columns@.len()),
{
    let values = column_values(batch.columns@);
    let want = transposed(batch.rows(), batch.columns@.len());
    assert forall|c: int| 0 <= c < values.len() implies #[trigger] values[c] == want[c] by {
        assert(batch.columns@[c]@.len() == batch.num_rows);
        assert(values[c] =~= want[c]);
    }
    assert(values =~= want);
}

/// Whether a column holds a null that its field does not allow.
fn has_bad_null(field: &Field, column: &Vec<ScalarValue>) -> (r: bool)
    ensures
        r == holds_null(field@, scalar::cells(column@)),
{
    if field.nullable || field.data_type == DataType::Null {
        return false;
    }
    let ghost cells = scalar::cells(column@);
    let mut i: usize = 0;
    while i < column.len()
        invariant
            !field@.nullable,
            field@.data_type != DataType::Null,
            cells == scalar::cells(column@),
            i <= column.len(),
            forall|j: int| 0 <= j < i ==> (#[trigger] cells[j]) != Scalar::Null,
        decreases column.len() - i,
    {
        if let ScalarValue::Null = &column[i] {
            assert(cells[i as int] == Scalar::Null);
            return true;
        }
        i += 1;
    }
    assert(!cells.contains(Scalar::Null));
    false
}

/// The type of the first cell, null aside, that is not of the given type.
fn find_other_type(data_type: DataType, column: &Vec<ScalarValue>) -> (r: Option<DataType>)
    ensures
        r == other_type(data_type, scalar::cells(column@)),
{
    let ghost cells = scalar::cells(column@);
    let mut i: usize = 0;
    assert(cells.skip(0) == cells);
    while i < column.len()
        invariant
            cells == scalar::cells(column@),
            i <= column.len(),
            other_type(data_type, cells) == other_type(data_type, cells.skip(i as int)),
        decreases column.len() - i,
    {
        assert(cells.skip(i as int)[0] == column@[i as int]@);
        assert(cells.skip(i as int).drop_first() == cells.skip(i + 1));
        let found: DataType = column[i].data_type();
        if found != DataType::Null && found != data_type {
            return Some(found);
        }
        i += 1;
    }
    assert(cells.skip(i as int).len() == 0);
    None
}

impl RecordBatch {
    /// One column per field, all of the same length, and every cell may stand in
    /// its column.
    pub open spec fn wf(&self) -> bool {
        &&& self.columns@.len() == self.schema@.len()
        &&& all_of_length(self.columns@, self.num_rows as int)
        &&& cells_fit(self.schema@, self.columns@)
    }

    /// The rows of the batch.
    pub open spec fn rows(&self) -> Seq<Seq<Scalar>> {
        table_rows(self.columns@, self.num_rows as nat)
    }

    /// A batch of the given columns.
    ///
    /// There must be one column per field, at least one, all of the same length,
    /// and every cell must have the type of its field, or be null where nulls
    /// are allowed.
    pub fn try_new(schema: Schema, columns: Vec<Vec<ScalarValue>>) -> (r: Result<
        RecordBatch,
        FdapQueryError,
    >)
        ensures
            match r {
                Ok(batch) => batch_fault(schema@, column_values(columns@)) is None && batch.schema
                    == schema && batch.columns == columns && batch.num_rows == columns@[0]@.len()
                    && batch.wf(),
                Err(e) => batch_fault(schema@, column_values(columns@)) == Some(e@),
            },
    {
        let ghost values = column_values(columns@);
        if columns.len() != schema.fields.len() {
            let mut m: String = owned("number of columns(");
            push_decimal(&mut m, columns.len() as u128);
            m.append(") must match number of fields(");
            push_decimal(&mut m, schema.fields.len() as u128);
            m.append(") in schema");
            return Err(FdapQueryError::ArrowError(m));
        }
        if columns.len() == 0 {
            return Err(
                FdapQueryError::ArrowError(
                    owned("must either specify a row count or at least one column"),
                ),
            );
        }
        let num_rows: usize = columns[0].len();
        let mut c: usize = 0;
        while c < columns.len()
            invariant
                c <= columns.len(),
                columns.len() > 0,
                columns.len() == schema@.len(),
                values == column_values(columns@),
                null_field(schema@, values, 0) == null_field(schema@, values, c as int),
            decreases columns.len() - c,
        {
            assert(schema@[c as int] == schema.fields@[c as int]@);
            if has_bad_null(&schema.fields[c], &columns[c]) {
                let mut m: String = owned("Column '");
                m.append(schema.fields[c].name.as_str());
                m.append("' is declared as non-nullable but contains null values");
                return Err(FdapQueryError::ArrowError(m));
            }
            c += 1;
        }
        let mut d: usize = 0;
        while d < columns.len()
            invariant
                d <= columns.len(),
                columns.len() > 0,
                columns.len() == schema@.len(),
                values == column_values(columns@),
                null_field(schema@, values, 0) is None,
                num_rows == columns@[0]@.len(),
                forall|k: int| 0 <= k < d ==> (#[trigger] columns@[k])@.len() == num_rows,
            decreases columns.len() - d,
        {
            if columns[d].len() != num_rows {
                assert(values[d as int].len() != values[0].len());
                return Err(
                    FdapQueryError::ArrowError(
                        owned("all columns in a record batch must have the same length"),
                    ),
                );
            }
            d += 1;
        }
        proof {
            assert forall|k: int| 0 <= k < values.len() implies (#[trigger] values[k]).len()
                == values[0].len() by {
                assert(columns@[k]@.len() == num_rows);
            }
        }
        let mut e: usize = 0;
        while e < columns.len()
            invariant
                e <= columns.len(),
                columns.len() > 0,
                columns.len() == schema@.len(),
                values == column_values(columns@),
                null_field(schema@, values, 0) is None,
                forall|k: int|
                    0 <= k < values.len() ==> (#[trigger] values[k]).len() == values[0].len(),
                mistyped_field(schema@, values, 0) == mistyped_field(schema@, values, e as int),
            decreases columns.len() - e,
        {
            assert(schema@[e as int] == schema.fields@[e as int]@);
            if let Some(found) = find_other_type(schema.fields[e].data_type, &columns[e]) {
                let mut m: String = owned("column types must match schema types, expected ");
                m.append(schema.fields[e].data_type.name().as_str());
                m.append(" but found ");
                m.append(found.name().as_str());
                m.append(" at column index ");
                push_decimal(&mut m, e as u128);
                return Err(FdapQueryError::ArrowError(m));
            }
            e += 1;
        }
        proof {
            batch_fault_exact(schema@, values);
            assert(batch_fault(schema@, values) is None);
            assert forall|c: int, r: int|
                0 <= c < columns@.len() && 0 <= r < columns@[c]@.len() implies cell_fits(
                schema@[c],
                (#[trigger] columns@[c]@[r])@,
            ) by {
                assert(values[c][r] == columns@[c]@[r]@);
            }
        }
        Ok(RecordBatch { schema, columns, num_rows })
    }

    /// How many rows there are.
    pub fn num_rows(&self) -> (r: usize)
        ensures
            r == self.rows().len(),
    {
        self.num_rows
    }

    /// How many columns there are.
    pub fn num_columns(&self) -> (r: usize)
        ensures
            r == self.columns@.len(),
    {
        self.columns.len()
    }

    /// Every cell of one row.
    pub fn full_row(&self, row: usize) -> (r: Vec<ScalarValue>)
        requires
            self.wf(),
            row < self.num_rows,
        ensures
            scalar::cells(r@) == self.rows()[row as int],
    {
        let mut r: Vec<ScalarValue> = Vec::new();
        let mut c: usize = 0;
        while c < self.columns.len()
            invariant
                self.wf(),
                row < self.num_rows,
                c <= self.columns.len(),
                r.len() == c,
                forall|k: int| 0 <= k < c ==> (#[trigger] r@[k])@ == self.columns@[k]@[row as int]@,
            decreases self.columns.len() - c,
        {
            assert(self.columns@[c as int]@.len() == self.num_rows);
            r.push(self.columns[c][row].clone());
            c += 1;
        }
        assert(scalar::cells(r@) == self.rows()[row as int]);
        r
    }

    /// The columns at the given positions.
    pub fn project(&self, indices: &Vec<usize>) -> (r: Result<RecordBatch, FdapQueryError>)
        requires
            self.wf(),
        ensures
            match r {
                Ok(batch) => first_beyond(indices@, self.columns@.len()) is None && batch.wf()
                    && batch.schema@ == projected(self.schema@, indices@) && batch.num_rows
                    == self.num_rows && batch.rows() == projected_rows(self.rows(), indices@),
                Err(e) => first_beyond(indices@, self.columns@.len()) matches Some(i) && e@
                    == Fault::ArrowError(
                    "project index "@ + text::decimal(i as nat) + " out of bounds, max field "@
                        + text::decimal(self.columns@.len()),
                ),
            },
    {
        let n: usize = self.columns.len();
        let mut fields: Vec<Field> = Vec::new();
        let mut columns: Vec<Vec<ScalarValue>> = Vec::new();
        let mut k: usize = 0;
        assert(indices@.skip(0) == indices@);
        while k < indices.len()
            invariant
                self.wf(),
                n == self.columns@.len(),
                k <= indices.len(),
                first_beyond(indices@, n as nat) == first_beyond(indices@.skip(k as int), n as nat),
                forall|j: int| 0 <= j < k ==> (#[trigger] indices@[j]) < n,
                fields.len() == k,
                columns.len() == k,
                forall|j: int|
                    0 <= j < k ==> (#[trigger] fields@[j])@ == self.schema@[indices@[j] as int],
                forall|j: int|
                    0 <= j < k ==> scalar::cells((#[trigger] columns@[j])@) == scalar::cells(
                        self.columns@[indices@[j] as int]@,
                    ),
            decreases indices.len() - k,
        {
            let i: usize = indices[k];
            assert(indices@.skip(k as int)[0] == i);
            assert(indices@.skip(k as int).drop_first() == indices@.skip(k + 1));
            if i >= n {
                let mut m: String = owned("project index ");
                push_decimal(&mut m, i as u128);
                m.append(" out of bounds, max field ");
                push_decimal(&mut m, n as u128);
                return Err(FdapQueryError::ArrowError(m));
            }
            fields.push(self.schema.fields[i].clone());
            columns.push(copy_cells(&self.columns[i]));
            k += 1;
        }
        assert(indices@.skip(k as int).len() == 0);
        let r = RecordBatch { schema: Schema::new(fields), columns, num_rows: self.num_rows };
        proof {
            assert(r.schema@ == projected(self.schema@, indices@));
            assert forall|j: int| 0 <= j < r.columns@.len() implies (#[trigger] r.columns@[j])@.len()
                == self.num_rows by {
                assert(indices@[j] < n);
                assert(self.columns@[indices@[j] as int]@.len() == self.num_rows);
                assert(scalar::cells(r.columns@[j]@).len() == r.columns@[j]@.len());
            }
            assert forall|c: int, i: int|
                0 <= c < r.columns@.len() && 0 <= i < r.columns@[c]@.len() implies cell_fits(
                r.schema@[c],
                (#[trigger] r.columns@[c]@[i])@,
            ) by {
                assert(indices@[c] < n);
                assert(scalar::cells(r.columns@[c]@)[i] == scalar::cells(
                    self.columns@[indices@[c] as int]@,
                )[i]);
                assert(scalar::cells(r.columns@[c]@).len() == r.columns@[c]@.len());
                assert(self.columns@[indices@[c] as int]@[i]@ == r.columns@[c]@[i]@);
            }
            let want = projected_rows(self.rows(), indices@);
            assert forall|i: int| 0 <= i < self.num_rows implies r.rows()[i] == want[i] by {
                assert forall|j: int| 0 <= j < indices@.len() implies r.rows()[i][j]
                    == want[i][j] by {
                    assert(indices@[j] < n);
                    assert(self.columns@[indices@[j] as int]@.len() == self.num_rows);
                    assert(scalar::cells(r.columns@[j]@)[i] == scalar::cells(
                        self.columns@[indices@[j] as int]@,
                    )[i]);
                }
                assert(r.rows()[i] == want[i]);
            }
            assert(r.rows() == want);
        }
        Ok(r)
    }

    /// The rows at the given positions.
    pub fn take(&self, positions: &Vec<usize>) -> (r: RecordBatch)
        requires
            self.wf(),
            forall|i: int| 0 <= i < positions@.len() ==> (#[trigger] positions@[i]) < self.num_rows,
        ensures
            r.wf(),
            r.schema@ == self.schema@,
            r.rows() == gathered(
                self.rows(),
                Seq::new(positions@.len(), |i: int| positions@[i] as int),
            ),
    {
        let mut columns: Vec<Vec<ScalarValue>> = Vec::new();
        let mut c: usize = 0;
        while c < self.columns.len()
            invariant
                self.wf(),
                forall|i: int|
                    0 <= i < positions@.len() ==> (#[trigger] positions@[i]) < self.num_rows,
                c <= self.columns.len(),
                columns.len() == c,
                forall|k: int| 0 <= k < c ==> (#[trigger] columns@[k])@.len() == positions@.len(),
                forall|k: int, i: int|
                    0 <= k < c && 0 <= i < positions@.len() ==> (#[trigger] columns@[k]@[i])@
                        == self.columns@[k]@[positions@[i] as int]@,
            decreases self.columns.len() - c,
        {
            assert(self.columns@[c as int]@.len() == self.num_rows);
            let mut column: Vec<ScalarValue> = Vec::new();
            let mut i: usize = 0;
            while i < positions.len()
                invariant
                    c < self.columns@.len(),
                    self.columns@[c as int]@.len() == self.num_rows,
                    forall|i: int|
                        0 <= i < positions@.len() ==> (#[trigger] positions@[i]) < self.num_rows,
                    i <= positions.len(),
                    column.len() == i,
                    forall|j: int|
                        0 <= j < i ==> (#[trigger] column@[j])@
                            == self.columns@[c as int]@[positions@[j] as int]@,
                decreases positions.len() - i,
            {
                column.push(self.columns[c][positions[i]].clone());
                i += 1;
            }
            columns.push(column);
            c += 1;
        }
        let r = RecordBatch {
            schema: self.schema.clone(),
            columns,
            num_rows: positions.len(),
        };
        proof {
            assert forall|k: int, i: int|
                0 <= k < r.columns@.len() && 0 <= i < r.columns@[k]@.len() implies cell_fits(
                r.schema@[k],
                (#[trigger] r.columns@[k]@[i])@,
            ) by {
                assert(positions@[i] < self.num_rows);
                assert(self.columns@[k]@.len() == self.num_rows);
                assert(r.columns@[k]@[i]@ == self.columns@[k]@[positions@[i] as int]@);
            }
            let want = gathered(
                self.rows(),
                Seq::new(positions@.len(), |i: int| positions@[i] as int),
            );
            assert forall|i: int| 0 <= i < positions@.len() implies r.rows()[i] == want[i] by {
                assert(r.rows()[i] == want[i]);
            }
            assert(r.rows() == want);
        }
        r
    }

    /// The `length` rows from `offset` on.
    pub fn slice(&self, offset: usize, length: usize) -> (r: RecordBatch)
        requires
            self.wf(),
            offset + length <= self.num_rows,
        ensures
            r.wf(),
            r.schema@ == self.schema@,
            r.rows() == self.rows().subrange(offset as int, offset + length),
    {
        let mut positions: Vec<usize> = Vec::new();
        let mut i: usize = 0;
        while i < length
            invariant
                i <= length,
                offset + length <= self.num_rows,
                positions.len() == i,
                forall|j: int| 0 <= j < i ==> (#[trigger] positions@[j]) == offset + j,
            decreases length - i,
        {
            positions.push(offset + i);
            i += 1;
        }
        let r = self.take(&positions);
        assert(r.rows() == self.rows().subrange(offset as int, offset + length));
        r
    }
}

impl Clone for RecordBatch {
    fn clone(&self) -> (r: Self)
        ensures
            r.schema@ == self.schema@,
            r.num_rows == self.num_rows,
            r.columns@.len() == self.columns@.len(),
            forall|c: int|
                0 <= c < r.columns@.len() ==> scalar::cells(#[trigger] r.columns@[c]@)
                    == scalar::cells(self.columns@[c]@),
            self.wf() ==> r.wf() && r.rows() == self.rows(),
    {
        let mut columns: Vec<Vec<ScalarValue>> = Vec::new();
        let mut c: usize = 0;
        while c < self.columns.len()
            invariant
                c <= self.columns.len(),
                columns.len() == c,
                forall|k: int|
                    0 <= k < c ==> scalar::cells(#[trigger] columns@[k]@) == scalar::cells(
                        self.columns@[k]@,
                    ),
            decreases self.columns.len() - c,
        {
            columns.push(copy_cells(&self.columns[c]));
            c += 1;
        }
        let r = RecordBatch { schema: self.schema.clone(), columns, num_rows: self.num_rows };
        proof {
            assert forall|k: int| 0 <= k < r.columns@.len() implies (#[trigger] r.columns@[k])@.len()
                == self.columns@[k]@.len() by {
                assert(scalar::cells(r.columns@[k]@).len() == scalar::cells(self.columns@[k]@).len());
            }
            if self.wf() {
                assert forall|k: int, i: int|
                    0 <= k < r.columns@.len() && 0 <= i < r.columns@[k]@.len() implies cell_fits(
                    r.schema@[k],
                    (#[trigger] r.columns@[k]@[i])@,
                ) by {
                    assert(scalar::cells(r.columns@[k]@)[i] == scalar::cells(self.columns@[k]@)[i]);
                    assert(self.columns@[k]@[i]@ == r.columns@[k]@[i]@);
                }
                assert forall|k: int, i: int|
                    0 <= k < r.columns@.len() && 0 <= i < r.num_rows implies (
                #[trigger] r.columns@[k]@[i])@ == self.columns@[k]@[i]@ by {
                    assert(scalar::cells(r.columns@[k]@)[i] == scalar::cells(self.columns@[k]@)[i]);
                }
                assert forall|i: int| 0 <= i < r.num_rows implies r.rows()[i] == self.rows()[i] by {
                    assert(r.rows()[i] == self.rows()[i]);
                }
                assert(r.rows() == self.rows());
            }
        }
        r
    }
}

/// The columns that rows of the given width fill under a schema of `fields`
/// fields: those beyond the width stay empty.
pub open spec fn spread(rows: Seq<Seq<Scalar>>, width: nat, fields: nat) -> Seq<Seq<Scalar>> {
    Seq::new(
        fields,
        |c: int|
            if c < width {
                Seq::new(rows.len(), |r: int| rows[r][c])
            } else {
                seq![]
            },
    )
}

/// The rows of a batch made of rows of the given width: rows without cells leave
/// no trace.
pub open spec fn filled_rows(rows: Seq<Seq<Scalar>>, width: nat, fields: nat) -> Seq<Seq<Scalar>> {
    if width == fields {
        rows
    } else {
        seq![]
    }
}

/// A batch of the given rows, which must all be of one width and no wider than
/// the schema.
pub fn create_batch(rows: &Vec<Vec<ScalarValue>>, schema: &Schema) -> (r: Result<
    RecordBatch,
    FdapQueryError,
>)
    requires
        forall|i: int|
            0 <= i < rows@.len() ==> (#[trigger] rows@[i])@.len() == rows@[0]@.len()
                && rows@[i]@.len() <= schema@.len(),
    ensures
        match r {
            Ok(batch) => batch_fault(
                schema@,
                spread(scalar::rows_of(rows@), rows@[0]@.len(), schema@.len()),
            ) is None && batch.wf() && batch.schema@ == schema@ && batch.rows() == if rows@.len()
                > 0 {
                filled_rows(scalar::rows_of(rows@), rows@[0]@.len(), schema@.len())
            } else {
                seq![]
            },
            Err(e) => batch_fault(
                schema@,
                spread(scalar::rows_of(rows@), rows@[0]@.len(), schema@.len()),
            ) == Some(e@),
        },
{
    let mut columns: Vec<Vec<ScalarValue>> = Vec::new();
    let mut c: usize = 0;
    while c < schema.fields.len()
        invariant
            forall|i: int|
                0 <= i < rows@.len() ==> (#[trigger] rows@[i])@.len() == rows@[0]@.len()
                    && rows@[i]@.len() <= schema@.len(),
            c <= schema@.len(),
            columns.len() == c,
            forall|k: int|
                0 <= k < c ==> (#[trigger] columns@[k])@.len() == if k < rows@[0]@.len() {
                    rows@.len()
                } else {
                    0
                },
            forall|k: int, i: int|
                0 <= k < c && k < rows@[0]@.len() && 0 <= i < rows@.len() ==> (
                #[trigger] columns@[k]@[i])@ == rows@[i]@[k]@,
        decreases schema@.len() - c,
    {
        let mut column: Vec<ScalarValue> = Vec::new();
        let mut i: usize = 0;
        while i < rows.len()
            invariant
                forall|i: int|
                    0 <= i < rows@.len() ==> (#[trigger] rows@[i])@.len() == rows@[0]@.len(),
                i <= rows.len(),
                column.len() == if c < rows@[0]@.len() {
                    i as int
                } else {
                    0
                },
                forall|j: int|
                    0 <= j < i && c < rows@[0]@.len() ==> (#[trigger] column@[j])@
                        == rows@[j]@[c as int]@,
            decreases rows.len() - i,
        {
            assert(rows@[i as int]@.len() == rows@[0]@.len());
            if c < rows[i].len() {
                column.push(rows[i][c].clone());
            }
            i += 1;
        }
        columns.push(column);
        c += 1;
    }
    let ghost filled = spread(scalar::rows_of(rows@), rows@[0]@.len(), schema@.len());
    proof {
        let values = column_values(columns@);
        assert forall|k: int| 0 <= k < values.len() implies #[trigger] values[k] == filled[k] by {
            assert forall|i: int| 0 <= i < values[k].len() implies values[k][i]
                == filled[k][i] by {
                assert(columns@[k]@[i]@ == rows@[i]@[k]@);
                assert(scalar::rows_of(rows@)[i][k] == rows@[i]@[k]@);
            }
            assert(columns@[k]@.len() == filled[k].len());
            assert(values[k] =~= filled[k]);
        }
        assert(values =~= filled);
    }
    let r = RecordBatch::try_new(schema.clone(), columns);
    proof {
        let width = rows@[0]@.len();
        if rows@.len() > 0 {
            assert(width <= schema@.len());
        }
        if r is Ok {
            let batch = r->Ok_0;
            batch_fault_exact(schema@, filled);
            if rows@.len() > 0 && 0 < width < schema@.len() {
                assert(filled[0].len() == rows@.len());
                assert(filled[width as int].len() == 0);
            }
            if rows@.len() > 0 && width == schema@.len() {
                assert forall|i: int| 0 <= i < rows@.len() implies batch.rows()[i]
                    == scalar::rows_of(rows@)[i] by {
                    assert(rows@[i]@.len() == schema@.len());
                    assert(batch.rows()[i] == scalar::cells(rows@[i]@));
                }
                assert(batch.rows() == scalar::rows_of(rows@));
            } else {
                assert(columns@[0]@.len() == 0);
                assert(batch.rows() == Seq::<Seq<Scalar>>::empty());
            }
        }
    }
    r
}

} // verus!
