//! Putting batches one after the other.
use vstd::prelude::*;
use crate::batch::RecordBatch;
use crate::scalar::{Scalar, ScalarValue};
use crate::schema::{DataType, FieldModel, Schema};
use crate::text::{owned, push_decimal, push_joined};
use crate::{batch, scalar, text};

verus! {

/// The types of a column, one for each batch.
pub open spec fn column_types(batches: Seq<RecordBatch>, c: int) -> Seq<DataType> {
    Seq::new(batches.len(), |i: int| batches[i].schema@[c].data_type)
}

/// The different types among `types`, in the order in which they first occur.
pub open spec fn distinct_types(types: Seq<DataType>) -> Seq<DataType>
    decreases types.len(),
{
    if types.len() == 0 {
        seq![]
    } else {
        let before = distinct_types(types.drop_last());
        if before.contains(types.last()) {
            before
        } else {
            before.push(types.last())
        }
    }
}

/// The names of some types.
pub open spec fn type_names(types: Seq<DataType>) -> Seq<Seq<char>> {
    Seq::new(types.len(), |i: int| types[i].spec_name())
}

/// The message on a column of different types. It names no more than ten.
pub open spec fn mixed_text(types: Seq<DataType>) -> Seq<char> {
    "It is not possible to concatenate arrays of different data types ("@ + (if types.len() <= 10 {
        text::join(type_names(types), ", "@)
    } else {
        text::join(type_names(types.take(10)), ", "@) + ", ..."@
    }) + ")."@
}

/// Whether a batch holds a null in a column.
pub open spec fn null_in(batches: Seq<RecordBatch>, c: int) -> bool {
    exists|i: int, r: int|
        0 <= i < batches.len() && 0 <= r < batches[i].num_rows && (
        #[trigger] batches[i].columns@[c]@[r])@ is Null
}

/// Whether a column of the batches holds a null that its field does not allow. A
/// column of the null type is taken as it is.
pub open spec fn null_refused(
    schema: Seq<FieldModel>,
    batches: Seq<RecordBatch>,
    c: int,
) -> bool {
    !schema[c].nullable && batches[0].schema@[c].data_type != DataType::Null && null_in(batches, c)
}

/// The first column from `c` on that has different types in different batches.
pub open spec fn mixed_column(batches: Seq<RecordBatch>, width: int, c: int) -> Option<int>
    decreases width - c,
{
    if 0 <= c < width {
        if distinct_types(column_types(batches, c)).len() > 1 {
            Some(c)
        } else {
            mixed_column(batches, width, c + 1)
        }
    } else {
        None
    }
}

/// The first column from `c` on that holds a null that its field does not allow.
pub open spec fn null_column(
    schema: Seq<FieldModel>,
    batches: Seq<RecordBatch>,
    c: int,
) -> Option<int>
    decreases schema.len() - c,
{
    if 0 <= c < schema.len() {
        if null_refused(schema, batches, c) {
            Some(c)
        } else {
            null_column(schema, batches, c + 1)
        }
    } else {
        None
    }
}

/// The first column from `c` on that is not of the type of its field.
pub open spec fn retyped_column(
    schema: Seq<FieldModel>,
    batches: Seq<RecordBatch>,
    c: int,
) -> Option<int>
    decreases schema.len() - c,
{
    if 0 <= c < schema.len() {
        if batches[0].schema@[c].data_type != schema[c].data_type {
            Some(c)
        } else {
            retyped_column(schema, batches, c + 1)
        }
    } else {
        None
    }
}

/// Why some batches cannot be put together under a schema, if they cannot: a
/// column has different types, it holds a null that its field does not allow, or
/// it is not of the type of its field. The first of these counts.
pub open spec fn concat_fault(schema: Seq<FieldModel>, batches: Seq<RecordBatch>) -> Option<
    Seq<char>,
> {
    match mixed_column(batches, schema.len() as int, 0) {
        Some(c) => Some(mixed_text(distinct_types(column_types(batches, c)))),
        None => match null_column(schema, batches, 0) {
            Some(c) => Some(
                "Column '"@ + schema[c].name
                    + "' is declared as non-nullable but contains null values"@,
            ),
            None => match retyped_column(schema, batches, 0) {
                Some(c) => Some(
                    "column types must match schema types, expected "@
                        + schema[c].data_type.spec_name() + " but found "@
                        + batches[0].schema@[c].data_type.spec_name() + " at column index "@
                        + text::decimal(c as nat),
                ),
                None => None,
            },
        },
    }
}

/// The first `width` cells of each row.
pub open spec fn narrowed(rows: Seq<Seq<Scalar>>, width: nat) -> Seq<Seq<Scalar>> {
    Seq::new(rows.len(), |r: int| rows[r].take(width as int))
}

/// The rows of some batches one after the other, each with its first `width`
/// cells.
pub open spec fn stacked(batches: Seq<RecordBatch>, width: nat) -> Seq<Seq<Scalar>> {
    batch::flattened(Seq::new(batches.len(), |i: int| narrowed(batches[i].rows(), width)))
}

proof fn distinct_types_complete(types: Seq<DataType>)
    ensures
        forall|i: int| 0 <= i < types.len() ==> distinct_types(types).contains(#[trigger] types[i]),
        types.len() > 0 ==> distinct_types(types).len() > 0,
    decreases types.len(),
{
    if types.len() > 0 {
        let shorter = types.drop_last();
        let before = distinct_types(shorter);
        let all = distinct_types(types);
        distinct_types_complete(shorter);
        assert forall|i: int| 0 <= i < types.len() implies all.contains(#[trigger] types[i]) by {
            if i < shorter.len() {
                assert(before.contains(shorter[i]));
                let k = choose|k: int| 0 <= k < before.len() && before[k] == shorter[i];
                assert(all[k] == types[i]);
            } else if !before.contains(types[i]) {
                assert(all[before.len() as int] == types[i]);
            }
        }
    }
}

proof fn one_type(types: Seq<DataType>)
    requires
        distinct_types(types).len() <= 1,
    ensures
        forall|i: int| 0 <= i < types.len() ==> #[trigger] types[i] == types[0],
{
    distinct_types_complete(types);
    let all = distinct_types(types);
    assert forall|i: int| 0 <= i < types.len() implies #[trigger] types[i] == types[0] by {
        assert(all.contains(types[i]));
        assert(all.contains(types[0]));
    }
}

proof fn same_types_are_one(types: Seq<DataType>)
    requires
        forall|i: int| 0 <= i < types.len() ==> #[trigger] types[i] == types[0],
    ensures
        distinct_types(types).len() <= 1,
        types.len() > 0 ==> distinct_types(types) == seq![types[0]],
    decreases types.len(),
{
    if types.len() > 1 {
        let shorter = types.drop_last();
        assert forall|i: int| 0 <= i < shorter.len() implies #[trigger] shorter[i] == shorter[0] by {
            assert(shorter[i] == types[i]);
        }
        same_types_are_one(shorter);
        assert(types.last() == types[types.len() - 1]);
        assert(distinct_types(shorter)[0] == types[0]);
    } else if types.len() == 1 {
        assert(distinct_types(types.drop_last()) =~= seq![]);
    }
}

proof fn no_mixed_column(batches: Seq<RecordBatch>, width: int, c: int)
    ensures
        0 <= c && mixed_column(batches, width, c) is None <==> 0 <= c && forall|k: int|
            c <= k < width ==> distinct_types(#[trigger] column_types(batches, k)).len() <= 1,
    decreases width - c,
{
    if 0 <= c < width {
        no_mixed_column(batches, width, c + 1);
        assert(column_types(batches, c).len() == batches.len());
    }
}

proof fn no_null_column(schema: Seq<FieldModel>, batches: Seq<RecordBatch>, c: int)
    ensures
        0 <= c && null_column(schema, batches, c) is None <==> 0 <= c && forall|k: int|
            c <= k < schema.len() ==> !#[trigger] null_refused(schema, batches, k),
    decreases schema.len() - c,
{
    if 0 <= c < schema.len() {
        no_null_column(schema, batches, c + 1);
    }
}

proof fn no_retyped_column(schema: Seq<FieldModel>, batches: Seq<RecordBatch>, c: int)
    ensures
        0 <= c && retyped_column(schema, batches, c) is None <==> 0 <= c && forall|k: int|
            c <= k < schema.len() ==> batches[0].schema@[k].data_type == (
            #[trigger] schema[k]).data_type,
    decreases schema.len() - c,
{
    if 0 <= c < schema.len() {
        no_retyped_column(schema, batches, c + 1);
    }
}

/// Batches can be put together under a schema exactly where every column is of the
/// type of its field in every batch, and holds a null only where its field allows
/// it or is of the null type.
pub proof fn batches_fit_where_every_column_does(
    schema: Seq<FieldModel>,
    batches: Seq<RecordBatch>,
)
    requires
        batches.len() > 0,
    ensures
        concat_fault(schema, batches) is None <==> forall|c: int|
            0 <= c < schema.len() ==> {
                &&& forall|i: int|
                    0 <= i < batches.len() ==> (#[trigger] batches[i]).schema@[c].data_type
                        == schema[c].data_type
                &&& (#[trigger] schema[c]).nullable || schema[c].data_type == DataType::Null
                    || forall|i: int, r: int|
                    0 <= i < batches.len() && 0 <= r < batches[i].num_rows ==> !((
                    #[trigger] batches[i].columns@[c]@[r])@ is Null)
            },
{
    no_mixed_column(batches, schema.len() as int, 0);
    no_null_column(schema, batches, 0);
    no_retyped_column(schema, batches, 0);
    assert forall|c: int| 0 <= c < schema.len() implies (distinct_types(
        #[trigger] column_types(batches, c),
    ).len() <= 1 <==> forall|i: int|
        0 <= i < batches.len() ==> (#[trigger] batches[i]).schema@[c].data_type
            == batches[0].schema@[c].data_type) by {
        let types = column_types(batches, c);
        if distinct_types(types).len() <= 1 {
            one_type(types);
            assert forall|i: int| 0 <= i < batches.len() implies (
            #[trigger] batches[i]).schema@[c].data_type == batches[0].schema@[c].data_type by {
                assert(types[i] == types[0]);
            }
        }
        if forall|i: int|
            0 <= i < batches.len() ==> (#[trigger] batches[i]).schema@[c].data_type
                == batches[0].schema@[c].data_type {
            assert forall|i: int| 0 <= i < types.len() implies #[trigger] types[i] == types[0] by {
                assert(batches[i].schema@[c].data_type == batches[0].schema@[c].data_type);
            }
            same_types_are_one(types);
        }
    }
    if concat_fault(schema, batches) is None {
        assert forall|c: int| 0 <= c < schema.len() implies {
            &&& forall|i: int|
                0 <= i < batches.len() ==> (#[trigger] batches[i]).schema@[c].data_type
                    == schema[c].data_type
            &&& (#[trigger] schema[c]).nullable || schema[c].data_type == DataType::Null
                || forall|i: int, r: int|
                0 <= i < batches.len() && 0 <= r < batches[i].num_rows ==> !((
                #[trigger] batches[i].columns@[c]@[r])@ is Null)
        } by {
            assert(distinct_types(column_types(batches, c)).len() <= 1);
            assert(!null_refused(schema, batches, c));
            assert(batches[0].schema@[c].data_type == schema[c].data_type);
        }
    }
    if forall|c: int|
        0 <= c < schema.len() ==> {
            &&& forall|i: int|
                0 <= i < batches.len() ==> (#[trigger] batches[i]).schema@[c].data_type
                    == schema[c].data_type
            &&& (#[trigger] schema[c]).nullable || schema[c].data_type == DataType::Null
                || forall|i: int, r: int|
                0 <= i < batches.len() && 0 <= r < batches[i].num_rows ==> !((
                #[trigger] batches[i].columns@[c]@[r])@ is Null)
        } {
        assert forall|c: int| 0 <= c < schema.len() implies distinct_types(
            #[trigger] column_types(batches, c),
        ).len() <= 1 by {
            let field = schema[c];
            assert forall|i: int| 0 <= i < batches.len() implies (
            #[trigger] batches[i]).schema@[c].data_type == batches[0].schema@[c].data_type by {
                assert(batches[0].schema@[c].data_type == schema[c].data_type);
            }
        }
        assert forall|c: int| 0 <= c < schema.len() implies !#[trigger] null_refused(
            schema,
            batches,
            c,
        ) by {
            let field = schema[c];
            assert(batches[0].schema@[c].data_type == schema[c].data_type);
        }
        assert forall|c: int| 0 <= c < schema.len() implies batches[0].schema@[c].data_type == (
        #[trigger] schema[c]).data_type by {
            let first = batches[0];
        }
    }
}

/// Batches of one schema can always be put together under it, and no cell is
/// lost.
pub proof fn batches_of_a_schema_are_concatenated(
    schema: Seq<FieldModel>,
    batches: Seq<RecordBatch>,
)
    requires
        batches.len() > 0,
        forall|i: int|
            0 <= i < batches.len() ==> (#[trigger] batches[i]).wf() && batches[i].schema@ == schema,
    ensures
        concat_fault(schema, batches) is None,
        stacked(batches, schema.len()) == batch::flattened(
            Seq::new(batches.len(), |i: int| batches[i].rows()),
        ),
{
    assert forall|k: int| 0 <= k < schema.len() implies distinct_types(
        #[trigger] column_types(batches, k),
    ).len() <= 1 by {
        same_types_are_one(column_types(batches, k));
    }
    no_mixed_column(batches, schema.len() as int, 0);
    assert forall|k: int| 0 <= k < schema.len() implies !#[trigger] null_refused(
        schema,
        batches,
        k,
    ) by {
        if null_in(batches, k) {
            let (i, r) = choose|i: int, r: int|
                0 <= i < batches.len() && 0 <= r < batches[i].num_rows && (
                #[trigger] batches[i].columns@[k]@[r])@ is Null;
            assert(batches[i].columns@[k]@.len() == batches[i].num_rows);
            assert(batch::cell_fits(schema[k], batches[i].columns@[k]@[r]@));
        }
    }
    no_null_column(schema, batches, 0);
    no_retyped_column(schema, batches, 0);
    let cut = Seq::new(batches.len(), |i: int| narrowed(batches[i].rows(), schema.len()));
    let whole = Seq::new(batches.len(), |i: int| batches[i].rows());
    assert forall|i: int| 0 <= i < cut.len() implies cut[i] == whole[i] by {
        assert forall|r: int| 0 <= r < whole[i].len() implies cut[i][r] == whole[i][r] by {
            assert(whole[i][r].take(schema.len() as int) =~= whole[i][r]);
        }
        assert(cut[i] =~= whole[i]);
    }
    assert(cut =~= whole);
}

/// The different types of a column, in the order in which they first occur.
fn types_of(batches: &Vec<RecordBatch>, c: usize) -> (r: Vec<DataType>)
    requires
        forall|i: int|
            0 <= i < batches@.len() ==> (#[trigger] batches@[i]).wf() && c
                < batches@[i].columns@.len(),
    ensures
        r@ == distinct_types(column_types(batches@, c as int)),
{
    let ghost types = column_types(batches@, c as int);
    let mut found: Vec<DataType> = Vec::new();
    let mut i: usize = 0;
    assert(types.take(0) == Seq::<DataType>::empty());
    while i < batches.len()
        invariant
            forall|i: int|
                0 <= i < batches@.len() ==> (#[trigger] batches@[i]).wf() && c
                    < batches@[i].columns@.len(),
            types == column_types(batches@, c as int),
            i <= batches.len(),
            found@ == distinct_types(types.take(i as int)),
        decreases batches.len() - i,
    {
        assert(batches@[i as int].wf());
        let data_type: DataType = batches[i].schema.fields[c].data_type;
        assert(data_type == types[i as int]);
        let known: bool = contains_type(&found, data_type);
        assert(types.take(i + 1).drop_last() == types.take(i as int));
        assert(types.take(i + 1).last() == data_type);
        if !known {
            found.push(data_type);
        }
        i += 1;
    }
    assert(types.take(i as int) == types);
    found
}

fn contains_type(types: &Vec<DataType>, data_type: DataType) -> (r: bool)
    ensures
        r == types@.contains(data_type),
{
    let mut i: usize = 0;
    while i < types.len()
        invariant
            i <= types.len(),
            forall|j: int| 0 <= j < i ==> #[trigger] types@[j] != data_type,
        decreases types.len() - i,
    {
        if types[i] == data_type {
            assert(types@[i as int] == data_type);
            return true;
        }
        i += 1;
    }
    false
}

fn mixed_string(types: &Vec<DataType>) -> (r: String)
    ensures
        r@ == mixed_text(types@),
{
    let mut names: Vec<String> = Vec::new();
    let mut i: usize = 0;
    while i < types.len() && i < 10
        invariant
            i <= types.len(),
            i <= 10,
            names.len() == i,
            forall|j: int| 0 <= j < i ==> (#[trigger] names@[j])@ == types@[j].spec_name(),
        decreases types.len() - i,
    {
        names.push(types[i].name());
        i += 1;
    }
    let mut out: String = owned("It is not possible to concatenate arrays of different data types (");
    push_joined(&mut out, &names, ", ");
    if types.len() > 10 {
        out.append(", ...");
        assert(text::views(names@) =~= type_names(types@.take(10)));
    } else {
        assert(text::views(names@) =~= type_names(types@));
    }
    out.append(").");
    assert(out@ =~= mixed_text(types@));
    out
}

fn has_null(batches: &Vec<RecordBatch>, c: usize) -> (r: bool)
    requires
        forall|i: int|
            0 <= i < batches@.len() ==> (#[trigger] batches@[i]).wf() && c
                < batches@[i].columns@.len(),
    ensures
        r == null_in(batches@, c as int),
{
    let mut i: usize = 0;
    while i < batches.len()
        invariant
            forall|i: int|
                0 <= i < batches@.len() ==> (#[trigger] batches@[i]).wf() && c
                    < batches@[i].columns@.len(),
            i <= batches.len(),
            forall|j: int, r: int|
                0 <= j < i && 0 <= r < batches@[j].num_rows ==> !((
                #[trigger] batches@[j].columns@[c as int]@[r])@ is Null),
        decreases batches.len() - i,
    {
        assert(batches@[i as int].wf());
        assert(batches@[i as int].columns@[c as int]@.len() == batches@[i as int].num_rows);
        let mut r: usize = 0;
        while r < batches[i].columns[c].len()
            invariant
                i < batches.len(),
                batches@[i as int].wf(),
                c < batches@[i as int].columns@.len(),
                batches@[i as int].columns@[c as int]@.len() == batches@[i as int].num_rows,
                r <= batches@[i as int].num_rows,
                forall|k: int|
                    0 <= k < r ==> !((#[trigger] batches@[i as int].columns@[c as int]@[k])@ is Null),
            decreases batches@[i as int].num_rows - r,
        {
            if let ScalarValue::Null = batches[i].columns[c][r] {
                assert(batches@[i as int].columns@[c as int]@[r as int]@ is Null);
                return true;
            }
            r += 1;
        }
        i += 1;
    }
    false
}

/// Why some batches cannot be put together under a schema, if they cannot.
fn why_not(schema: &Schema, batches: &Vec<RecordBatch>) -> (r: Option<String>)
    requires
        batches@.len() > 0,
        forall|i: int|
            0 <= i < batches@.len() ==> (#[trigger] batches@[i]).wf() && batches@[i].columns@.len()
                >= schema@.len(),
    ensures
        match r {
            Some(t) => concat_fault(schema@, batches@) == Some(t@),
            None => concat_fault(schema@, batches@) is None,
        },
{
    let ghost width = schema@.len() as int;
    let mut c: usize = 0;
    while c < schema.fields.len()
        invariant
            batches@.len() > 0,
            forall|i: int|
                0 <= i < batches@.len() ==> (#[trigger] batches@[i]).wf()
                    && batches@[i].columns@.len() >= schema@.len(),
            width == schema@.len(),
            c <= width,
            mixed_column(batches@, width, 0) == mixed_column(batches@, width, c as int),
        decreases width - c,
    {
        let types = types_of(batches, c);
        if types.len() > 1 {
            return Some(mixed_string(&types));
        }
        c += 1;
    }
    c = 0;
    while c < schema.fields.len()
        invariant
            batches@.len() > 0,
            forall|i: int|
                0 <= i < batches@.len() ==> (#[trigger] batches@[i]).wf()
                    && batches@[i].columns@.len() >= schema@.len(),
            width == schema@.len(),
            c <= width,
            mixed_column(batches@, width, 0) is None,
            null_column(schema@, batches@, 0) == null_column(schema@, batches@, c as int),
        decreases width - c,
    {
        let field = &schema.fields[c];
        assert(batches@[0].wf());
        if !field.nullable && batches[0].schema.fields[c].data_type != DataType::Null && has_null(
            batches,
            c,
        ) {
            let mut m: String = owned("Column '");
            m.append(field.name.as_str());
            m.append("' is declared as non-nullable but contains null values");
            return Some(m);
        }
        c += 1;
    }
    c = 0;
    while c < schema.fields.len()
        invariant
            batches@.len() > 0,
            forall|i: int|
                0 <= i < batches@.len() ==> (#[trigger] batches@[i]).wf()
                    && batches@[i].columns@.len() >= schema@.len(),
            width == schema@.len(),
            c <= width,
            mixed_column(batches@, width, 0) is None,
            null_column(schema@, batches@, 0) is None,
            retyped_column(schema@, batches@, 0) == retyped_column(schema@, batches@, c as int),
        decreases width - c,
    {
        assert(batches@[0].wf());
        let expected: DataType = schema.fields[c].data_type;
        let found: DataType = batches[0].schema.fields[c].data_type;
        if found != expected {
            let mut m: String = owned("column types must match schema types, expected ");
            m.append(expected.name().as_str());
            m.append(" but found ");
            m.append(found.name().as_str());
            m.append(" at column index ");
            push_decimal(&mut m, c as u128);
            return Some(m);
        }
        c += 1;
    }
    None
}

proof fn cells_stay_fitting(schema: Seq<FieldModel>, batches: Seq<RecordBatch>, i: int)
    requires
        concat_fault(schema, batches) is None,
        0 <= i < batches.len(),
        batches[i].wf(),
        batches[i].columns@.len() >= schema.len(),
    ensures
        forall|c: int, r: int|
            0 <= c < schema.len() && 0 <= r < batches[i].num_rows ==> batch::cell_fits(
                schema[c],
                (#[trigger] batches[i].columns@[c]@[r])@,
            ),
{
    no_mixed_column(batches, schema.len() as int, 0);
    no_null_column(schema, batches, 0);
    no_retyped_column(schema, batches, 0);
    assert forall|c: int, r: int|
        0 <= c < schema.len() && 0 <= r < batches[i].num_rows implies batch::cell_fits(
        schema[c],
        (#[trigger] batches[i].columns@[c]@[r])@,
    ) by {
        let types = column_types(batches, c);
        one_type(types);
        assert(types[i] == types[0]);
        assert(!null_refused(schema, batches, c));
        assert(schema[c].data_type == types[0]);
        assert(batches[i].columns@[c]@.len() == batches[i].num_rows);
        assert(batch::cell_fits(batches[i].schema@[c], batches[i].columns@[c]@[r]@));
    }
}

/// Some batches put one after the other under a schema. Columns beyond those of
/// the schema are left out; where the batches cannot be put together, there is
/// the reason.
pub fn concat_batches(schema: &Schema, batches: &Vec<RecordBatch>) -> (r: Result<
    RecordBatch,
    String,
>)
    requires
        batches@.len() > 0,
        forall|i: int|
            0 <= i < batches@.len() ==> (#[trigger] batches@[i]).wf() && batches@[i].columns@.len()
                >= schema@.len(),
        stacked(batches@, schema@.len()).len() <= usize::MAX,
    ensures
        match r {
            Ok(all) => concat_fault(schema@, batches@) is None && all.wf() && all.schema@ == schema@
                && all.rows() == stacked(batches@, schema@.len()),
            Err(reason) => concat_fault(schema@, batches@) == Some(reason@),
        },
{
    if let Some(reason) = why_not(schema, batches) {
        return Err(reason);
    }
    let ghost parts = Seq::new(batches@.len(), |i: int| narrowed(batches@[i].rows(), schema@.len()));
    let width: usize = schema.fields.len();
    let mut columns: Vec<Vec<ScalarValue>> = Vec::new();
    let mut c: usize = 0;
    while c < width
        invariant
            c <= width,
            columns.len() == c,
            forall|k: int| 0 <= k < c ==> (#[trigger] columns@[k])@.len() == 0,
        decreases width - c,
    {
        columns.push(Vec::new());
        c += 1;
    }
    let mut num_rows: usize = 0;
    let mut b: usize = 0;
    assert(parts.take(0) == Seq::<Seq<Seq<Scalar>>>::empty());
    assert(batch::table_rows(columns@, 0) == batch::flattened(parts.take(0)));
    while b < batches.len()
        invariant
            forall|i: int|
                0 <= i < batches@.len() ==> (#[trigger] batches@[i]).wf()
                    && batches@[i].columns@.len() >= schema@.len(),
            concat_fault(schema@, batches@) is None,
            width == schema@.len(),
            b <= batches.len(),
            parts == Seq::new(
                batches@.len(),
                |i: int| narrowed(batches@[i].rows(), schema@.len()),
            ),
            batch::flattened(parts).len() <= usize::MAX,
            columns.len() == width,
            batch::all_of_length(columns@, num_rows as int),
            batch::cells_fit(schema@, columns@),
            batch::table_rows(columns@, num_rows as nat) == batch::flattened(parts.take(b as int)),
        decreases batches.len() - b,
    {
        assert(parts.take(b + 1).drop_last() == parts.take(b as int));
        assert(parts.take(b + 1).last() == narrowed(batches@[b as int].rows(), width as nat));
        proof {
            flattened_grows(parts, b + 1);
            cells_stay_fitting(schema@, batches@, b as int);
        }
        assert(batch::flattened(parts.take(b + 1)).len() == num_rows + batches@[b as int].num_rows);
        append_columns(&mut columns, &batches[b], num_rows, Ghost(schema@));
        num_rows = num_rows + batches[b].num_rows;
        b += 1;
    }
    assert(parts.take(b as int) == parts);
    Ok(RecordBatch { schema: schema.clone(), columns, num_rows })
}

proof fn flattened_grows<T>(parts: Seq<Seq<T>>, n: int)
    requires
        0 <= n <= parts.len(),
    ensures
        batch::flattened(parts.take(n)).len() <= batch::flattened(parts).len(),
    decreases parts.len() - n,
{
    if n < parts.len() {
        flattened_grows(parts, n + 1);
        assert(parts.take(n + 1).drop_last() == parts.take(n));
    } else {
        assert(parts.take(n) == parts);
    }
}

fn append_columns(
    columns: &mut Vec<Vec<ScalarValue>>,
    more: &RecordBatch,
    num_rows: usize,
    Ghost(schema): Ghost<Seq<FieldModel>>,
)
    requires
        more.wf(),
        forall|c: int, r: int|
            0 <= c < old(columns)@.len() && 0 <= r < more.num_rows ==> batch::cell_fits(
                schema[c],
                (#[trigger] more.columns@[c]@[r])@,
            ),
        batch::cells_fit(schema, old(columns)@),
        more.columns@.len() >= old(columns)@.len(),
        batch::all_of_length(old(columns)@, num_rows as int),
        num_rows + more.num_rows <= usize::MAX,
    ensures
        final(columns)@.len() == old(columns)@.len(),
        batch::all_of_length(final(columns)@, num_rows + more.num_rows),
        batch::cells_fit(schema, final(columns)@),
        batch::table_rows(final(columns)@, (num_rows + more.num_rows) as nat) == batch::table_rows(
            old(columns)@,
            num_rows as nat,
        ) + narrowed(more.rows(), old(columns)@.len()),
{
    let ghost before = columns@;
    let mut c: usize = 0;
    while c < columns.len()
        invariant
            more.wf(),
            more.columns@.len() >= before.len(),
            columns@.len() == before.len(),
            batch::all_of_length(before, num_rows as int),
            c <= columns.len(),
            forall|k: int| c <= k < before.len() ==> #[trigger] columns@[k] == before[k],
            forall|k: int|
                0 <= k < c ==> scalar::cells((#[trigger] columns@[k])@) == scalar::cells(
                    before[k]@,
                ) + scalar::cells(more.columns@[k]@),
        decreases columns.len() - c,
    {
        let mut column: Vec<ScalarValue> = Vec::new();
        std::mem::swap(&mut column, &mut columns[c]);
        assert(column@ == before[c as int]@);
        append_cells(&mut column, &more.columns[c]);
        std::mem::swap(&mut column, &mut columns[c]);
        c += 1;
    }
    proof {
        let n = num_rows + more.num_rows;
        assert forall|k: int| 0 <= k < columns@.len() implies (#[trigger] columns@[k])@.len()
            == n by {
            assert(scalar::cells(columns@[k]@).len() == columns@[k]@.len());
            assert(before[k]@.len() == num_rows);
            assert(more.columns@[k]@.len() == more.num_rows);
        }
        assert forall|k: int, i: int|
            0 <= k < columns@.len() && 0 <= i < columns@[k]@.len() implies batch::cell_fits(
            schema[k],
            (#[trigger] columns@[k]@[i])@,
        ) by {
            assert(scalar::cells(columns@[k]@)[i] == columns@[k]@[i]@);
            assert(before[k]@.len() == num_rows);
            assert(more.columns@[k]@.len() == more.num_rows);
            if i < num_rows {
                assert(scalar::cells(before[k]@)[i] == before[k]@[i]@);
            } else {
                assert(scalar::cells(more.columns@[k]@)[i - num_rows]
                    == more.columns@[k]@[i - num_rows]@);
            }
        }
        let all = batch::table_rows(columns@, n as nat);
        let want = batch::table_rows(before, num_rows as nat) + narrowed(more.rows(), before.len());
        assert forall|i: int| 0 <= i < n implies all[i] == want[i] by {
            assert forall|k: int| 0 <= k < columns@.len() implies all[i][k] == want[i][k] by {
                assert(scalar::cells(columns@[k]@)[i] == columns@[k]@[i]@);
                assert(before[k]@.len() == num_rows);
                assert(more.columns@[k]@.len() == more.num_rows);
                if i < num_rows {
                    assert(scalar::cells(before[k]@)[i] == before[k]@[i]@);
                } else {
                    assert(scalar::cells(more.columns@[k]@)[i - num_rows]
                        == more.columns@[k]@[i - num_rows]@);
                }
            }
            assert(all[i] =~= want[i]);
        }
        assert(all =~= want);
    }
}

fn append_cells(column: &mut Vec<ScalarValue>, more: &Vec<ScalarValue>)
    ensures
        scalar::cells(final(column)@) == scalar::cells(old(column)@) + scalar::cells(more@),
{
    let mut i: usize = 0;
    assert(scalar::cells(more@).take(0) == Seq::<Scalar>::empty());
    while i < more.len()
        invariant
            i <= more.len(),
            scalar::cells(column@) == scalar::cells(old(column)@) + scalar::cells(more@).take(
                i as int,
            ),
        decreases more.len() - i,
    {
        let ghost before = column@;
        column.push(more[i].clone());
        assert(scalar::cells(column@) == scalar::cells(before).push(more@[i as int]@));
        i += 1;
        assert(scalar::cells(column@) == scalar::cells(old(column)@) + scalar::cells(more@).take(
            i as int,
        ));
    }
    assert(scalar::cells(more@).take(i as int) == scalar::cells(more@));
}

} // verus!
