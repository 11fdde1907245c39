//! Which fault is reported where there are several: the first one.
use vstd::prelude::*;
use crate::batch;
use crate::batch::RecordBatch;
use crate::error::Fault;
use crate::expr::Expr;
use crate::filter_exec;
use crate::hash_join_exec;
use crate::scalar::Scalar;
use crate::schema::{DataType, FieldModel};
use crate::shuffle_location::ShuffleLocationModel;
use crate::shuffle_reader_exec;
use crate::shuffle_writer_exec;
use crate::text;

verus! {

/// Whether a column holds no null, or its field allows nulls.
pub open spec fn nulls_allowed(field: FieldModel, cells: Seq<Scalar>) -> bool {
    field.nullable || field.data_type == DataType::Null || forall|r: int|
        0 <= r < cells.len() ==> #[trigger] cells[r] != Scalar::Null
}

/// Whether every cell of a column is null or of the given type.
pub open spec fn all_of_type(data_type: DataType, cells: Seq<Scalar>) -> bool {
    forall|r: int|
        0 <= r < cells.len() ==> (#[trigger] cells[r]) == Scalar::Null || cells[r].data_type()
            == data_type
}

/// Columns make no batch where there are more or fewer of them than fields, or
/// none.
pub proof fn a_batch_has_a_column_per_field(schema: Seq<FieldModel>, columns: Seq<Seq<Scalar>>)
    ensures
        columns.len() != schema.len() ==> batch::batch_fault(schema, columns) == Some(
            Fault::ArrowError(
                "number of columns("@ + text::decimal(columns.len())
                    + ") must match number of fields("@ + text::decimal(schema.len())
                    + ") in schema"@,
            ),
        ),
        columns.len() == 0 && schema.len() == 0 ==> batch::batch_fault(schema, columns) == Some(
            Fault::ArrowError("must either specify a row count or at least one column"@),
        ),
{
}

/// Of several columns that hold a null which their fields do not allow, the first
/// is named, whatever else is wrong with the columns.
pub proof fn the_first_column_with_a_null_is_named(
    schema: Seq<FieldModel>,
    columns: Seq<Seq<Scalar>>,
    c: int,
)
    requires
        columns.len() == schema.len(),
        0 <= c < columns.len(),
        !nulls_allowed(schema[c], columns[c]),
        forall|k: int| 0 <= k < c ==> nulls_allowed(schema[k], #[trigger] columns[k]),
    ensures
        batch::batch_fault(schema, columns) == Some(
            Fault::ArrowError(
                "Column '"@ + schema[c].name
                    + "' is declared as non-nullable but contains null values"@,
            ),
        ),
{
    nulls_found(schema, columns, 0);
}

proof fn holds(field: FieldModel, cells: Seq<Scalar>)
    ensures
        batch::holds_null(field, cells) <==> !nulls_allowed(field, cells),
{
    if !nulls_allowed(field, cells) {
        let r = choose|r: int| 0 <= r < cells.len() && #[trigger] cells[r] == Scalar::Null;
        assert(cells.contains(cells[r]));
    }
}

proof fn nulls_found(schema: Seq<FieldModel>, columns: Seq<Seq<Scalar>>, from: int)
    requires
        columns.len() == schema.len(),
        0 <= from <= columns.len(),
    ensures
        match batch::null_field(schema, columns, from) {
            Some(c) => from <= c < columns.len() && !nulls_allowed(schema[c], columns[c])
                && forall|k: int| from <= k < c ==> nulls_allowed(schema[k], #[trigger] columns[k]),
            None => forall|k: int|
                from <= k < columns.len() ==> nulls_allowed(schema[k], #[trigger] columns[k]),
        },
    decreases columns.len() - from,
{
    if from < columns.len() {
        holds(schema[from], columns[from]);
        nulls_found(schema, columns, from + 1);
    }
}

/// Where no null is refused, columns of different lengths are reported before
/// types that do not match.
pub proof fn different_lengths_are_reported(
    schema: Seq<FieldModel>,
    columns: Seq<Seq<Scalar>>,
    c: int,
)
    requires
        columns.len() == schema.len(),
        0 <= c < columns.len(),
        columns[c].len() != columns[0].len(),
        forall|k: int| 0 <= k < columns.len() ==> nulls_allowed(schema[k], #[trigger] columns[k]),
    ensures
        batch::batch_fault(schema, columns) == Some(
            Fault::ArrowError("all columns in a record batch must have the same length"@),
        ),
{
    nulls_found(schema, columns, 0);
}

/// Of several columns that hold a cell of another type than their fields, the
/// first is named, with the type of its first such cell.
pub proof fn the_first_column_of_another_type_is_named(
    schema: Seq<FieldModel>,
    columns: Seq<Seq<Scalar>>,
    c: int,
    r: int,
)
    requires
        columns.len() == schema.len(),
        0 <= c < columns.len(),
        forall|k: int| 0 <= k < columns.len() ==> nulls_allowed(schema[k], #[trigger] columns[k]),
        forall|k: int| 0 <= k < columns.len() ==> (#[trigger] columns[k]).len() == columns[0].len(),
        forall|k: int| 0 <= k < c ==> all_of_type(schema[k].data_type, #[trigger] columns[k]),
        0 <= r < columns[c].len(),
        all_of_type(schema[c].data_type, columns[c].take(r)),
        columns[c][r] != Scalar::Null,
        columns[c][r].data_type() != schema[c].data_type,
    ensures
        batch::batch_fault(schema, columns) == Some(
            Fault::ArrowError(
                "column types must match schema types, expected "@
                    + schema[c].data_type.spec_name() + " but found "@
                    + columns[c][r].data_type().spec_name() + " at column index "@ + text::decimal(
                    c as nat,
                ),
            ),
        ),
{
    nulls_found(schema, columns, 0);
    first_other_type(schema[c].data_type, columns[c], r);
    first_mistyped(schema, columns, 0, c);
}

proof fn first_other_type(data_type: DataType, cells: Seq<Scalar>, r: int)
    requires
        0 <= r < cells.len(),
        all_of_type(data_type, cells.take(r)),
        cells[r] != Scalar::Null,
        cells[r].data_type() != data_type,
    ensures
        batch::other_type(data_type, cells) == Some(cells[r].data_type()),
    decreases cells.len(),
{
    if r > 0 {
        let rest = cells.drop_first();
        assert(cells.take(r)[0] == cells[0]);
        assert forall|k: int| 0 <= k < rest.take(r - 1).len() implies (
        #[trigger] rest.take(r - 1)[k]) == Scalar::Null || rest.take(r - 1)[k].data_type()
            == data_type by {
            assert(rest.take(r - 1)[k] == cells.take(r)[k + 1]);
        }
        first_other_type(data_type, rest, r - 1);
    }
}

proof fn no_other_type(data_type: DataType, cells: Seq<Scalar>)
    requires
        all_of_type(data_type, cells),
    ensures
        batch::other_type(data_type, cells) is None,
    decreases cells.len(),
{
    if cells.len() > 0 {
        let rest = cells.drop_first();
        assert(cells[0] == Scalar::Null || cells[0].data_type() == data_type);
        assert forall|k: int| 0 <= k < rest.len() implies (#[trigger] rest[k]) == Scalar::Null
            || rest[k].data_type() == data_type by {
            assert(rest[k] == cells[k + 1]);
        }
        no_other_type(data_type, rest);
    }
}

proof fn first_mistyped(schema: Seq<FieldModel>, columns: Seq<Seq<Scalar>>, from: int, c: int)
    requires
        0 <= from <= c < columns.len(),
        forall|k: int| from <= k < c ==> all_of_type(schema[k].data_type, #[trigger] columns[k]),
        batch::other_type(schema[c].data_type, columns[c]) is Some,
    ensures
        batch::mistyped_field(schema, columns, from) == Some(
            (c, batch::other_type(schema[c].data_type, columns[c])->0),
        ),
    decreases c - from,
{
    if from < c {
        no_other_type(schema[from].data_type, columns[from]);
        first_mistyped(schema, columns, from + 1, c);
    }
}

/// Of several locations that other executors hold, the first counts.
pub proof fn the_first_remote_location_counts(
    locations: Seq<ShuffleLocationModel>,
    executor_id: Seq<char>,
    i: int,
)
    requires
        0 <= i < locations.len(),
        locations[i].executor_id != executor_id,
        forall|k: int| 0 <= k < i ==> (#[trigger] locations[k]).executor_id == executor_id,
    ensures
        shuffle_reader_exec::first_remote(locations, executor_id) == Some(locations[i].executor_id),
    decreases i,
{
    if i > 0 {
        let rest = locations.drop_first();
        assert(locations[0].executor_id == executor_id);
        assert forall|k: int| 0 <= k < i - 1 implies (#[trigger] rest[k]).executor_id
            == executor_id by {
            assert(rest[k] == locations[k + 1]);
        }
        the_first_remote_location_counts(rest, executor_id, i - 1);
    }
}

/// Of several pairs of keys that are not both columns, the first is refused, and
/// of the two its left key where that is no column.
pub proof fn the_first_key_that_is_no_column_is_refused(on: Seq<(Expr, Expr)>, i: int)
    requires
        0 <= i < on.len(),
        !(on[i].0 is Column && on[i].1 is Column),
        forall|k: int| 0 <= k < i ==> (#[trigger] on[k]).0 is Column && on[k].1 is Column,
    ensures
        !(on[i].0 is Column) ==> hash_join_exec::keys_fault(on) == Some(
            hash_join_exec::key_fault("left"@, on[i].0),
        ),
        on[i].0 is Column ==> hash_join_exec::keys_fault(on) == Some(
            hash_join_exec::key_fault("right"@, on[i].1),
        ),
    decreases i,
{
    if i > 0 {
        let rest = on.drop_first();
        assert(on[0].0 is Column && on[0].1 is Column);
        assert forall|k: int| 0 <= k < i - 1 implies (#[trigger] rest[k]).0 is Column
            && rest[k].1 is Column by {
            assert(rest[k] == on[k + 1]);
        }
        the_first_key_that_is_no_column_is_refused(rest, i - 1);
    }
}

/// Where every key is a column, none is refused.
pub proof fn columns_are_not_refused_as_keys(on: Seq<(Expr, Expr)>)
    requires
        forall|k: int| 0 <= k < on.len() ==> (#[trigger] on[k]).0 is Column && on[k].1 is Column,
    ensures
        hash_join_exec::keys_fault(on) is None,
    decreases on.len(),
{
    if on.len() > 0 {
        let rest = on.drop_first();
        assert(on[0].0 is Column && on[0].1 is Column);
        assert forall|k: int| 0 <= k < rest.len() implies (#[trigger] rest[k]).0 is Column
            && rest[k].1 is Column by {
            assert(rest[k] == on[k + 1]);
        }
        columns_are_not_refused_as_keys(rest);
    }
}

/// The fault of the rows of a partition, where it gets any.
pub open spec fn partition_fault(
    schema: Seq<FieldModel>,
    input: RecordBatch,
    targets: Seq<int>,
    p: int,
) -> Option<Fault> {
    let kept = batch::kept_indices(Seq::new(targets.len(), |i: int| targets[i] == p));
    if kept.len() > 0 {
        filter_exec::rows_fault(schema, input, kept)
    } else {
        None
    }
}

/// Spreading rows over partitions fails with the fault of the first partition
/// whose rows make no batch, and not at all where all of them do.
pub proof fn the_first_faulty_partition_counts(
    schema: Seq<FieldModel>,
    input: RecordBatch,
    targets: Seq<int>,
    partitions: int,
    p: int,
)
    requires
        0 <= p <= partitions,
        forall|q: int|
            0 <= q < p ==> #[trigger] partition_fault(schema, input, targets, q) is None,
        p < partitions ==> partition_fault(schema, input, targets, p) is Some,
    ensures
        p < partitions ==> shuffle_writer_exec::spread_fault(schema, input, targets, 0, partitions)
            == partition_fault(schema, input, targets, p),
        p == partitions ==> shuffle_writer_exec::spread_fault(
            schema,
            input,
            targets,
            0,
            partitions,
        ) is None,
{
    faults_from(schema, input, targets, partitions, 0, p);
}

proof fn faults_from(
    schema: Seq<FieldModel>,
    input: RecordBatch,
    targets: Seq<int>,
    partitions: int,
    from: int,
    p: int,
)
    requires
        0 <= from <= p <= partitions,
        forall|q: int|
            from <= q < p ==> #[trigger] partition_fault(schema, input, targets, q) is None,
        p < partitions ==> partition_fault(schema, input, targets, p) is Some,
    ensures
        shuffle_writer_exec::spread_fault(schema, input, targets, from, partitions) == if p
            < partitions {
            partition_fault(schema, input, targets, p)
        } else {
            None
        },
    decreases p - from,
{
    assert(shuffle_writer_exec::goes_to(targets, from) =~= Seq::new(
        targets.len(),
        |i: int| targets[i] == from,
    ));
    if from < p {
        assert(partition_fault(schema, input, targets, from) is None);
        faults_from(schema, input, targets, partitions, from + 1, p);
    }
}

} // verus!
