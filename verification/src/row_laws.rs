//! What operators do to rows, in terms of the cells of the rows.
use vstd::prelude::*;
use vstd::std_specs::hash::DefaultHasherAdditionalSpecFns;
use std::collections::hash_map::DefaultHasher;
use crate::aggregate_exec;
use crate::batch;
use crate::batch::RecordBatch;
use crate::concat;
use crate::error::FdapQueryError;
use crate::filter_exec;
use crate::group_table;
use crate::limits;
use crate::limits::LimitState;
use crate::memory_exec;
use crate::row_key;
use crate::scalar::{Scalar, ScalarValue};
use crate::schema::{DataType, FieldModel};
use crate::shuffle_writer_exec;
use crate::shuffle_writer_exec::ShuffleBuffers;

verus! {

/// Row `r` of a table has one cell per column, and its cell in column `c` is the
/// `r`-th cell of that column.
pub proof fn cells_stand_in_their_row_and_column(
    columns: Seq<Vec<ScalarValue>>,
    n: nat,
    r: int,
    c: int,
)
    requires
        0 <= r < n,
        0 <= c < columns.len(),
    ensures
        batch::table_rows(columns, n).len() == n,
        batch::table_rows(columns, n)[r].len() == columns.len(),
        batch::table_rows(columns, n)[r][c] == columns[c]@[r]@,
        batch::row_at(columns, r).len() == columns.len(),
        batch::row_at(columns, r)[c] == columns[c]@[r]@,
        batch::column_values(columns).len() == columns.len(),
        batch::column_values(columns)[c].len() == columns[c]@.len(),
        r < columns[c]@.len() ==> batch::column_values(columns)[c][r] == columns[c]@[r]@,
{
}

/// The rows of a batch are as many as it says, each with one cell per column.
pub proof fn the_rows_of_a_batch_are_its_cells(b: RecordBatch, r: int, c: int)
    requires
        0 <= r < b.num_rows,
        0 <= c < b.columns@.len(),
    ensures
        b.rows().len() == b.num_rows,
        b.rows()[r].len() == b.columns@.len(),
        b.rows()[r][c] == b.columns@[c]@[r]@,
{
}

/// The positions from zero up to `n` that satisfy `keep`, in ascending order.
pub open spec fn positions_where(n: nat, keep: spec_fn(int) -> bool) -> Seq<int> {
    Seq::new(n, |i: int| i).filter(keep)
}

proof fn kept_positions(keep: Seq<bool>)
    ensures
        batch::kept_indices(keep) == positions_where(keep.len(), |i: int| keep[i]),
    decreases keep.len(),
{
    reveal(Seq::filter);
    let all = Seq::new(keep.len(), |i: int| i);
    if keep.len() > 0 {
        let fewer = keep.drop_last();
        kept_positions(fewer);
        assert(all.drop_last() =~= Seq::new(fewer.len(), |i: int| i));
        filters_agree(fewer.len(), |i: int| fewer[i], |i: int| keep[i]);
    } else {
        assert(batch::kept_indices(keep) =~= all.filter(|i: int| keep[i]));
    }
}

proof fn filters_agree(n: nat, p: spec_fn(int) -> bool, q: spec_fn(int) -> bool)
    requires
        forall|i: int| 0 <= i < n ==> #[trigger] p(i) == q(i),
    ensures
        positions_where(n, p) == positions_where(n, q),
    decreases n,
{
    reveal(Seq::filter);
    let all = Seq::new(n, |i: int| i);
    if n > 0 {
        let m = (n - 1) as nat;
        filters_agree(m, p, q);
        assert(all.drop_last() =~= Seq::new(m, |i: int| i));
        assert(p(n - 1) == q(n - 1));
    } else {
        assert(all.filter(p) =~= all.filter(q));
    }
}

/// The rows at some positions are as many as the positions, each the row at its
/// position.
pub proof fn gathered_rows_are_the_rows_at_the_positions<T>(rows: Seq<T>, positions: Seq<int>)
    ensures
        batch::gathered(rows, positions) == positions.map_values(|p: int| rows[p]),
{
    assert(batch::gathered(rows, positions) =~= positions.map_values(|p: int| rows[p]));
}

/// Filtering a batch under its own schema succeeds and gives the rows at which
/// the mask is true, not false and not null, in their order.
pub proof fn filtering_keeps_the_true_rows_in_order(
    r: Result<RecordBatch, FdapQueryError>,
    input: RecordBatch,
    mask: Seq<Scalar>,
)
    requires
        input.wf(),
        input.columns@.len() > 0,
        mask.len() == input.num_rows,
        filter_exec::filtered(r, input.schema@, input, mask),
    ensures
        r matches Ok(out) && out.schema@ == input.schema@ && out.rows() == positions_where(
            mask.len(),
            |i: int| mask[i] == Scalar::Boolean(true),
        ).map_values(|i: int| input.rows()[i]),
{
    let keep = filter_exec::kept_by(mask);
    let kept = batch::kept_indices(keep);
    batch::kept_indices_exact(keep);
    kept_positions(keep);
    filters_agree(mask.len(), |i: int| keep[i], |i: int| mask[i] == Scalar::Boolean(true));
    batch::rows_of_a_batch_make_a_batch(input, kept);
    gathered_rows_are_the_rows_at_the_positions(input.rows(), kept);
}

/// Parts put one after the other are the parts flattened.
pub proof fn parts_are_put_one_after_the_other<T>(parts: Seq<Seq<T>>)
    ensures
        batch::flattened(parts) == parts.flatten(),
    decreases parts.len(),
{
    if parts.len() > 0 {
        parts_are_put_one_after_the_other(parts.drop_last());
        parts.drop_last().lemma_flatten_push(parts.last());
        assert(parts.drop_last().push(parts.last()) =~= parts);
    } else {
        assert(batch::flattened(parts) =~= parts.flatten());
    }
}

/// The rows from `skip` on, and no more than `fetch` of them.
pub open spec fn range_of<T>(rows: Seq<T>, skip: int, fetch: int) -> Seq<T> {
    if skip >= rows.len() {
        seq![]
    } else if skip + fetch >= rows.len() {
        rows.subrange(skip, rows.len() as int)
    } else {
        rows.subrange(skip, skip + fetch)
    }
}

/// Of one batch a limit lets through the rows after those that it still skips, up
/// to the number that it still lets through.
pub proof fn a_limit_lets_a_range_through<T>(rows: Seq<T>, skip: int, fetch: int)
    requires
        0 <= skip,
        0 <= fetch,
    ensures
        limits::window(rows, skip, fetch) == range_of(rows, skip, fetch),
{
    assert(limits::window(rows, skip, fetch) =~= range_of(rows, skip, fetch));
}

/// After a batch a limit skips as many rows fewer as the batch had, and lets as
/// many rows fewer through as it let through of the batch.
pub proof fn a_limit_counts_the_rows_it_saw<T>(state: LimitState, rows: Seq<T>)
    ensures
        state.after(rows.len() as int).skip == if rows.len() < state.skip {
            state.skip - rows.len()
        } else {
            0
        },
        state.after(rows.len() as int).remaining == state.remaining - range_of(
            rows,
            state.skip as int,
            state.remaining as int,
        ).len(),
{
}

/// However rows are divided into batches, a limit lets through the rows after the
/// first `skip`, up to `remaining` of them.
pub proof fn a_limit_lets_a_range_of_all_batches_through<T>(state: LimitState, batches: Seq<Seq<T>>)
    ensures
        limits::passed_on(state, batches) == range_of(
            batches.flatten(),
            state.skip as int,
            state.remaining as int,
        ),
{
    limits::limit_is_skip_then_take(state, batches);
    parts_are_put_one_after_the_other(batches);
    a_limit_lets_a_range_through(
        batches.flatten(),
        state.skip as int,
        state.remaining as int,
    );
}

/// Projected rows and fields are as many as before and as asked for, and stand in
/// the order that was asked for.
pub proof fn a_projection_picks_the_columns_asked_for(
    schema: Seq<FieldModel>,
    rows: Seq<Seq<Scalar>>,
    indices: Seq<usize>,
    i: int,
    k: int,
)
    requires
        0 <= i < rows.len(),
        0 <= k < indices.len(),
    ensures
        batch::projected(schema, indices).len() == indices.len(),
        batch::projected(schema, indices)[k] == schema[indices[k] as int],
        batch::projected_rows(rows, indices).len() == rows.len(),
        batch::projected_rows(rows, indices)[i].len() == indices.len(),
        batch::projected_rows(rows, indices)[i][k] == rows[i][indices[k] as int],
{
}

/// A projection is refused exactly where it asks for a column that is not there;
/// the first such column is the one that is named.
pub proof fn a_projection_is_refused_for_the_first_column_that_is_not_there(
    indices: Seq<usize>,
    n: nat,
)
    ensures
        match batch::first_beyond(indices, n) {
            Some(bad) => exists|k: int|
                0 <= k < indices.len() && #[trigger] indices[k] == bad && bad >= n && forall|j: int|
                    0 <= j < k ==> #[trigger] indices[j] < n,
            None => forall|j: int| 0 <= j < indices.len() ==> #[trigger] indices[j] < n,
        },
    decreases indices.len(),
{
    if indices.len() > 0 && indices[0] < n {
        let rest = indices.drop_first();
        a_projection_is_refused_for_the_first_column_that_is_not_there(rest, n);
        match batch::first_beyond(indices, n) {
            Some(bad) => {
                let k = choose|k: int|
                    0 <= k < rest.len() && #[trigger] rest[k] == bad && bad >= n && forall|j: int|
                        0 <= j < k ==> #[trigger] rest[j] < n;
                assert(indices[k + 1] == bad);
                assert forall|j: int| 0 <= j < k + 1 implies #[trigger] indices[j] < n by {
                    if j > 0 {
                        assert(rest[j - 1] == indices[j]);
                    }
                }
            },
            None => {
                assert forall|j: int| 0 <= j < indices.len() implies #[trigger] indices[j] < n by {
                    if j > 0 {
                        assert(rest[j - 1] == indices[j]);
                    }
                }
            },
        }
    } else if indices.len() > 0 {
        assert(indices[0] == batch::first_beyond(indices, n).unwrap());
    }
}

/// A memory operator yields its batches unchanged, or the columns asked for of
/// every row.
pub proof fn a_memory_operator_yields_what_it_holds(
    r: Result<RecordBatch, FdapQueryError>,
    source: RecordBatch,
    projection: Option<Vec<usize>>,
)
    requires
        memory_exec::yielded(r, source, projection),
    ensures
        match projection {
            None => r is Ok && r->Ok_0.rows() == source.rows(),
            Some(indices) => {
                &&& (forall|k: int|
                    0 <= k < indices@.len() ==> (#[trigger] indices@[k]) < source.columns@.len())
                    <==> r is Ok
                &&& r is Ok ==> r->Ok_0.rows().len() == source.rows().len()
                &&& r is Ok ==> forall|i: int, k: int|
                    0 <= i < source.rows().len() && 0 <= k < indices@.len() ==> (
                    #[trigger] r->Ok_0.rows()[i][k]) == source.rows()[i][indices@[k] as int]
            },
        },
{
    if let Some(indices) = projection {
        a_projection_is_refused_for_the_first_column_that_is_not_there(
            indices@,
            source.columns@.len(),
        );
    }
}

/// A cell may stand in a column exactly where it is of the type of the field, or
/// is null and the field allows nulls or is of the null type.
pub proof fn cells_fit_their_fields(field: FieldModel, cell: Scalar)
    ensures
        cell == Scalar::Null ==> (batch::cell_fits(field, cell) <==> field.nullable
            || field.data_type == DataType::Null),
        cell is Boolean ==> (batch::cell_fits(field, cell) <==> field.data_type
            == DataType::Boolean),
        cell is Int8 ==> (batch::cell_fits(field, cell) <==> field.data_type == DataType::Int8),
        cell is Int16 ==> (batch::cell_fits(field, cell) <==> field.data_type == DataType::Int16),
        cell is Int32 ==> (batch::cell_fits(field, cell) <==> field.data_type == DataType::Int32),
        cell is Int64 ==> (batch::cell_fits(field, cell) <==> field.data_type == DataType::Int64),
        cell is UInt8 ==> (batch::cell_fits(field, cell) <==> field.data_type == DataType::UInt8),
        cell is UInt16 ==> (batch::cell_fits(field, cell) <==> field.data_type == DataType::UInt16),
        cell is UInt32 ==> (batch::cell_fits(field, cell) <==> field.data_type == DataType::UInt32),
        cell is UInt64 ==> (batch::cell_fits(field, cell) <==> field.data_type == DataType::UInt64),
        cell is Float32 ==> (batch::cell_fits(field, cell) <==> field.data_type
            == DataType::Float32),
        cell is Float64 ==> (batch::cell_fits(field, cell) <==> field.data_type
            == DataType::Float64),
        cell is Utf8 ==> (batch::cell_fits(field, cell) <==> field.data_type == DataType::Utf8),
        cell is Binary ==> (batch::cell_fits(field, cell) <==> field.data_type == DataType::Binary),
        cell is Date32 ==> (batch::cell_fits(field, cell) <==> field.data_type == DataType::Date32),
        cell matches Scalar::Other { kind, .. } ==> (batch::cell_fits(field, cell)
            <==> field.data_type == DataType::Other(kind)),
{
}

/// A batch that is made of rows as wide as the schema has these rows, cell by
/// cell.
pub proof fn rows_fill_a_batch(rows: Seq<Seq<Scalar>>, width: nat, fields: nat, r: int, c: int)
    requires
        0 <= r < rows.len(),
        0 <= c < fields,
    ensures
        batch::spread(rows, width, fields).len() == fields,
        c < width ==> batch::spread(rows, width, fields)[c].len() == rows.len(),
        c < width ==> batch::spread(rows, width, fields)[c][r] == rows[r][c],
        c >= width ==> batch::spread(rows, width, fields)[c].len() == 0,
        width == fields ==> batch::filled_rows(rows, width, fields) == rows,
        width != fields ==> batch::filled_rows(rows, width, fields).len() == 0,
        batch::transposed(rows, width).len() == width,
        c < width ==> batch::transposed(rows, width)[c].len() == rows.len(),
        c < width ==> batch::transposed(rows, width)[c][r] == rows[r][c],
{
}

/// Batches are stacked row after row, and of every row the first cells stay.
pub proof fn batches_are_stacked_in_order(batches: Seq<RecordBatch>, width: nat)
    ensures
        concat::stacked(batches, width) == batches.map_values(
            |b: RecordBatch| b.rows().map_values(|row: Seq<Scalar>| row.take(width as int)),
        ).flatten(),
{
    let cut = |b: RecordBatch| b.rows().map_values(|row: Seq<Scalar>| row.take(width as int));
    let parts = Seq::new(batches.len(), |i: int| concat::narrowed(batches[i].rows(), width));
    assert forall|i: int| 0 <= i < parts.len() implies parts[i] == batches.map_values(cut)[i] by {
        assert(concat::narrowed(batches[i].rows(), width) =~= cut(batches[i]));
    }
    assert(parts =~= batches.map_values(cut));
    parts_are_put_one_after_the_other(parts);
}

/// The output of an aggregation has one row per group: the cell in column `i` is
/// the `i`-th cell of the key of the group, and after the key come its
/// aggregates, in their order.
pub proof fn a_group_comes_out_as_its_key_and_its_aggregates(
    groups: Seq<Seq<Scalar>>,
    outputs: Seq<Vec<ScalarValue>>,
    g: int,
)
    requires
        0 <= g < groups.len(),
    ensures
        aggregate_exec::output_rows(groups, outputs).len() == groups.len(),
        aggregate_exec::output_rows(groups, outputs)[g].len() == groups[g].len()
            + outputs[g]@.len(),
        forall|i: int|
            0 <= i < groups[g].len() ==> #[trigger] aggregate_exec::output_rows(groups, outputs)[g][i]
                == groups[g][i],
        forall|k: int|
            0 <= k < outputs[g]@.len() ==> aggregate_exec::output_rows(groups, outputs)[g][
            groups[g].len() + k] == (#[trigger] outputs[g]@[k])@,
{
}

/// The groups of some keys are the keys without repetition, in the order in which
/// they first occur: every key is a group and every group a key, no group occurs
/// twice, and the groups of the first keys come first.
pub proof fn groups_are_the_keys_without_repetition(keys: Seq<Seq<Scalar>>, n: int)
    requires
        0 <= n <= keys.len(),
    ensures
        ({
            let groups = group_table::with_groups(Seq::empty(), keys);
            let first = group_table::with_groups(Seq::empty(), keys.take(n));
            &&& forall|k: int|
                0 <= k < keys.len() ==> groups.contains(#[trigger] keys[k])
            &&& forall|g: int| 0 <= g < groups.len() ==> keys.contains(#[trigger] groups[g])
            &&& forall|g: int, h: int|
                0 <= g < h < groups.len() ==> (#[trigger] groups[g]) != (#[trigger] groups[h])
            &&& first.len() <= groups.len()
            &&& groups.take(first.len() as int) == first
            &&& forall|g: int| 0 <= g < first.len() ==> keys.take(n).contains(#[trigger] first[g])
            &&& forall|k: int| 0 <= k < n ==> first.contains(#[trigger] keys[k])
        }),
{
    every_key_is_a_group(keys);
    every_key_is_a_group(keys.take(n));
    let none = Seq::<Seq<Scalar>>::empty();
    group_table::with_groups_grow(none, keys);
    let first = group_table::with_groups(none, keys.take(n));
    group_table::with_groups_grow(none, keys.take(n));
    group_table::group_batches_concatenate(none, keys.take(n), keys.skip(n));
    assert(keys.take(n) + keys.skip(n) =~= keys);
    group_table::with_groups_grow(first, keys.skip(n));
    let groups = group_table::with_groups(none, keys);
    assert forall|g: int| 0 <= g < first.len() implies groups[g] == first[g] by {}
    assert(groups.take(first.len() as int) =~= first);
    assert forall|k: int| 0 <= k < n implies first.contains(#[trigger] keys[k]) by {
        assert(keys.take(n)[k] == keys[k]);
    }
}

proof fn every_key_is_a_group(keys: Seq<Seq<Scalar>>)
    ensures
        ({
            let groups = group_table::with_groups(Seq::empty(), keys);
            &&& forall|k: int|
                0 <= k < keys.len() ==> groups.contains(#[trigger] keys[k])
            &&& forall|g: int| 0 <= g < groups.len() ==> keys.contains(#[trigger] groups[g])
        }),
{
    let none = Seq::<Seq<Scalar>>::empty();
    let groups = group_table::with_groups(none, keys);
    assert forall|k: int| 0 <= k < keys.len() implies groups.contains(#[trigger] keys[k]) by {
        group_table::every_key_has_a_group(none, keys, k);
        group_table::group_number_hit(groups, keys[k]);
        let g = group_table::group_number(groups, keys[k]).unwrap();
        assert(groups[g] == keys[k]);
    }
    assert forall|g: int| 0 <= g < groups.len() implies keys.contains(#[trigger] groups[g]) by {
        let i = group_table::every_group_has_a_key(keys, g);
        assert(keys[i] == groups[g]);
    }
}

/// The number of a key among different groups is that of the group with this
/// key, and there is none where no group has it.
pub proof fn a_key_is_in_the_group_with_its_cells(groups: Seq<Seq<Scalar>>, key: Seq<Scalar>, g: int)
    requires
        forall|i: int, j: int|
            0 <= i < j < groups.len() ==> (#[trigger] groups[i]) != (#[trigger] groups[j]),
        0 <= g < groups.len(),
    ensures
        group_table::group_number(groups, key) == Some(g) <==> groups[g] == key,
        group_table::group_number(groups, key) is None <==> !groups.contains(key),
{
    group_table::group_number_hit(groups, key);
    if let Some(i) = group_table::group_number(groups, key) {
        assert(groups[i] == key);
    }
    if groups.contains(key) {
        let i = choose|i: int| 0 <= i < groups.len() && groups[i] == key;
    }
}

/// The rows of a batch that a shuffle puts into a partition are those whose
/// target it is, in their order.
pub proof fn a_partition_gets_the_rows_whose_target_it_is<T>(
    rows: Seq<T>,
    targets: Seq<int>,
    p: int,
)
    ensures
        shuffle_writer_exec::part(rows, targets, p) == positions_where(
            targets.len(),
            |i: int| targets[i] == p,
        ).map_values(|i: int| rows[i]),
{
    let keep = shuffle_writer_exec::goes_to(targets, p);
    kept_positions(keep);
    filters_agree(targets.len(), |i: int| keep[i], |i: int| targets[i] == p);
    gathered_rows_are_the_rows_at_the_positions(rows, batch::kept_indices(keep));
}

/// The target of a row is one of the partitions, and rows whose key cells are the
/// same in every key column have the same target.
pub proof fn rows_with_the_same_key_cells_have_one_target(
    columns: Seq<Vec<ScalarValue>>,
    n: nat,
    partitions: int,
    i: int,
    j: int,
)
    requires
        partitions > 0,
        0 <= i < n,
        0 <= j < n,
    ensures
        shuffle_writer_exec::row_targets(columns, n, partitions).len() == n,
        0 <= shuffle_writer_exec::row_targets(columns, n, partitions)[i] < partitions,
        (forall|c: int|
            0 <= c < columns.len() ==> (#[trigger] columns[c])@[i]@ == columns[c]@[j]@)
            ==> shuffle_writer_exec::row_targets(columns, n, partitions)[i]
            == shuffle_writer_exec::row_targets(columns, n, partitions)[j],
{
    let key = batch::row_at(columns, i);
    vstd::arithmetic::div_mod::lemma_mod_bound(
        DefaultHasher::spec_finish(row_key::key_writes(key)) as int,
        partitions,
    );
    if forall|c: int|
        0 <= c < columns.len() ==> (#[trigger] columns[c])@[i]@ == columns[c]@[j]@ {
        assert forall|c: int| 0 <= c < columns.len() implies key[c] == batch::row_at(
            columns,
            j,
        )[c] by {
            assert(columns[c]@[i]@ == columns[c]@[j]@);
        }
        assert(key =~= batch::row_at(columns, j));
    }
}

/// A partition of a shuffle gets the rows of each batch after those it has; a
/// batch that has none for it leaves it as it is.
pub proof fn a_partition_grows_by_its_rows(
    before: Seq<Seq<Seq<Scalar>>>,
    rows: Seq<Seq<Scalar>>,
)
    ensures
        shuffle_writer_exec::grown(before, rows).flatten() == before.flatten() + rows,
        rows.len() == 0 ==> shuffle_writer_exec::grown(before, rows) == before,
        rows.len() > 0 ==> shuffle_writer_exec::grown(before, rows).len() == before.len() + 1,
{
    if rows.len() > 0 {
        before.lemma_flatten_push(rows);
    } else {
        assert(before.flatten() + rows =~= before.flatten());
    }
}

/// The partitions that have something to write are those with a batch, in
/// ascending order.
pub proof fn the_filled_partitions_are_those_with_a_batch(buffers: ShuffleBuffers)
    ensures
        buffers.filled() == positions_where(
            buffers.buffers@.len(),
            |p: int| buffers.buffers@[p]@.len() > 0,
        ),
{
    let keep = Seq::new(buffers.buffers@.len(), |p: int| buffers.buffers@[p]@.len() > 0);
    kept_positions(keep);
    filters_agree(
        buffers.buffers@.len(),
        |i: int| keep[i],
        |p: int| buffers.buffers@[p]@.len() > 0,
    );
}

} // verus!
