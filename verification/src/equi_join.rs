//! What an equality join is, in terms of the cells of its inputs.
use vstd::prelude::*;
use crate::batch::RecordBatch;
use crate::batch;
use crate::error::FdapQueryError;
use crate::expr::Expr;
use crate::hash_join_exec;
use crate::hash_join_exec::{HashJoinExec, NullEquality, PartitionMode};
use crate::hash_join_stream;
use crate::hash_join_stream::{HashJoinStream, JoinAction, JoinPhase, JoinStep};
use crate::join_laws;
use crate::join_table;
use crate::join_table::{Bucket, JoinType};
use crate::row_key;
use crate::row_laws;
use crate::scalar::Scalar;
use crate::schema::Schema;

verus! {

/// Whether two rows belong together: for every pair of key columns the cell of
/// the left row equals the cell of the right row, and no such cell is null,
/// unless nulls equal each other.
pub open spec fn agree(
    nulls: NullEquality,
    left: Seq<Scalar>,
    left_keys: Seq<usize>,
    right: Seq<Scalar>,
    right_keys: Seq<usize>,
) -> bool {
    &&& left_keys.len() == right_keys.len()
    &&& forall|i: int|
        0 <= i < left_keys.len() ==> left[(#[trigger] left_keys[i]) as int]
            == right[right_keys[i] as int]
    &&& nulls == NullEquality::NullEqualsNothing ==> forall|i: int|
        0 <= i < left_keys.len() ==> left[(#[trigger] left_keys[i]) as int] != Scalar::Null
}

/// The columns of a right row that stay in a joined row.
pub open spec fn shown_columns(width: nat, hidden: Set<usize>) -> Seq<int> {
    Seq::new(width, |c: int| c).filter(|c: int| !hidden.contains(c as usize))
}

/// A left row, then the cells of a right row that stay.
pub open spec fn side_by_side(left: Seq<Scalar>, right: Seq<Scalar>, hidden: Set<usize>) -> Seq<
    Scalar,
> {
    left + shown_columns(right.len(), hidden).map_values(|c: int| right[c])
}

/// The right rows that belong to a left row, in their order.
pub open spec fn belonging(
    nulls: NullEquality,
    left: Seq<Scalar>,
    left_keys: Seq<usize>,
    rights: Seq<Seq<Scalar>>,
    right_keys: Seq<usize>,
) -> Seq<Seq<Scalar>> {
    rights.filter(|right: Seq<Scalar>| agree(nulls, left, left_keys, right, right_keys))
}

/// Every left row beside every right row that belongs to it, by left rows and
/// then by right rows. A left join keeps a left row to which none belongs, beside
/// as many nulls as a right row has cells.
pub open spec fn equi_join(
    join_type: JoinType,
    nulls: NullEquality,
    lefts: Seq<Seq<Scalar>>,
    left_keys: Seq<usize>,
    rights: Seq<Seq<Scalar>>,
    right_keys: Seq<usize>,
    right_width: nat,
    hidden: Set<usize>,
) -> Seq<Seq<Scalar>>
    decreases lefts.len(),
{
    if lefts.len() == 0 {
        seq![]
    } else {
        let left = lefts.last();
        let found = belonging(nulls, left, left_keys, rights, right_keys);
        equi_join(
            join_type,
            nulls,
            lefts.drop_last(),
            left_keys,
            rights,
            right_keys,
            right_width,
            hidden,
        ) + if found.len() == 0 && join_type == JoinType::Left {
            seq![side_by_side(left, Seq::new(right_width, |c: int| Scalar::Null), hidden)]
        } else {
            found.map_values(|right: Seq<Scalar>| side_by_side(left, right, hidden))
        }
    }
}

/// The key of a row has one cell per key column, and its `i`-th cell is the cell
/// of the row in the `i`-th key column.
pub proof fn a_key_has_a_cell_per_column(row: Seq<Scalar>, columns: Seq<usize>, i: int)
    requires
        0 <= i < columns.len(),
    ensures
        row_key::key_cells(row, columns).len() == columns.len(),
        row_key::key_cells(row, columns)[i] == row[columns[i] as int],
{
}

proof fn same_key_is_agreement(
    left: Seq<Scalar>,
    left_keys: Seq<usize>,
    right: Seq<Scalar>,
    right_keys: Seq<usize>,
)
    ensures
        row_key::key_cells(left, left_keys) == row_key::key_cells(right, right_keys)
            <==> left_keys.len() == right_keys.len() && forall|i: int|
            0 <= i < left_keys.len() ==> left[(#[trigger] left_keys[i]) as int]
                == right[right_keys[i] as int],
{
    let a = row_key::key_cells(left, left_keys);
    let b = row_key::key_cells(right, right_keys);
    assert(a.len() == left_keys.len() && b.len() == right_keys.len());
    assert forall|i: int| 0 <= i < left_keys.len() implies a[i] == left[left_keys[i] as int] by {}
    assert forall|i: int| 0 <= i < right_keys.len() implies b[i] == right[right_keys[i] as int] by {}
    if a == b {
        assert forall|i: int| 0 <= i < left_keys.len() implies left[(
        #[trigger] left_keys[i]) as int] == right[right_keys[i] as int] by {
            assert(a[i] == b[i]);
        }
    } else if left_keys.len() == right_keys.len() {
        if forall|i: int|
            0 <= i < left_keys.len() ==> left[(#[trigger] left_keys[i]) as int]
                == right[right_keys[i] as int] {
            assert forall|i: int| 0 <= i < a.len() implies a[i] == b[i] by {
                assert(left[left_keys[i] as int] == right[right_keys[i] as int]);
            }
            assert(a =~= b);
        }
    }
}

proof fn key_without_null(row: Seq<Scalar>, columns: Seq<usize>)
    ensures
        !row_key::key_cells(row, columns).contains(Scalar::Null) <==> forall|i: int|
            0 <= i < columns.len() ==> row[(#[trigger] columns[i]) as int] != Scalar::Null,
{
    let key = row_key::key_cells(row, columns);
    if key.contains(Scalar::Null) {
        let i = choose|i: int| 0 <= i < key.len() && key[i] == Scalar::Null;
        assert(row[columns[i] as int] == Scalar::Null);
    } else {
        assert forall|i: int| 0 <= i < columns.len() implies row[(#[trigger] columns[i]) as int]
            != Scalar::Null by {
            assert(key[i] == row[columns[i] as int]);
        }
    }
}

/// The key of a left row can match and is the key of a right row exactly where
/// the rows belong together.
proof fn key_match_is_agreement(
    nulls: NullEquality,
    left: Seq<Scalar>,
    left_keys: Seq<usize>,
    right: Seq<Scalar>,
    right_keys: Seq<usize>,
)
    ensures
        agree(nulls, left, left_keys, right, right_keys) <==> join_table::can_match(
            nulls,
            row_key::key_cells(left, left_keys),
        ) && row_key::key_cells(left, left_keys) == row_key::key_cells(right, right_keys),
{
    same_key_is_agreement(left, left_keys, right, right_keys);
    key_without_null(left, left_keys);
}

proof fn partners_belong(
    nulls: NullEquality,
    left: Seq<Scalar>,
    left_keys: Seq<usize>,
    rights: Seq<Seq<Scalar>>,
    right_keys: Seq<usize>,
)
    ensures
        join_table::partners(nulls, rights, right_keys, row_key::key_cells(left, left_keys))
            == belonging(nulls, left, left_keys, rights, right_keys),
    decreases rights.len(),
{
    reveal(Seq::filter);
    if rights.len() > 0 {
        partners_belong(nulls, left, left_keys, rights.drop_last(), right_keys);
        key_match_is_agreement(nulls, left, left_keys, rights.last(), right_keys);
    }
}

proof fn kept_cells_are_shown(right: Seq<Scalar>, hidden: Set<usize>)
    requires
        right.len() <= usize::MAX + 1,
    ensures
        join_table::kept_cells(right, hidden) == shown_columns(right.len(), hidden).map_values(
            |c: int| right[c],
        ),
        forall|k: int|
            0 <= k < shown_columns(right.len(), hidden).len() ==> 0 <= (
            #[trigger] shown_columns(right.len(), hidden)[k]) < right.len(),
    decreases right.len(),
{
    reveal(Seq::filter);
    let columns = Seq::new(right.len(), |c: int| c);
    let shown = shown_columns(right.len(), hidden);
    if right.len() > 0 {
        let shorter = right.drop_last();
        kept_cells_are_shown(shorter, hidden);
        assert(columns.drop_last() =~= Seq::new(shorter.len(), |c: int| c));
        let before = shown_columns(shorter.len(), hidden);
        assert(before.map_values(|c: int| shorter[c]) =~= before.map_values(|c: int| right[c]));
        assert(shown == if !hidden.contains((right.len() - 1) as usize) {
            before.push(right.len() - 1)
        } else {
            before
        });
        assert(shown.map_values(|c: int| right[c]) =~= join_table::kept_cells(right, hidden));
    } else {
        assert(shown.map_values(|c: int| right[c]) =~= join_table::kept_cells(right, hidden));
    }
}

/// A joined row holds every cell of the left row in its place, and after them
/// each cell of the right row whose column is not left out, in the order of the
/// columns: a shown column has as many shown columns before it as the joined row
/// has cells between the left row and it.
pub proof fn a_joined_row_is_both_rows(left: Seq<Scalar>, right: Seq<Scalar>, hidden: Set<usize>)
    requires
        right.len() <= usize::MAX + 1,
    ensures
        join_table::combined(left, right, hidden) == side_by_side(left, right, hidden),
        forall|c: int|
            0 <= c < left.len() ==> join_table::combined(left, right, hidden)[c] == left[c],
        forall|k: int|
            0 <= k < shown_columns(right.len(), hidden).len() ==> join_table::combined(
                left,
                right,
                hidden,
            )[left.len() + k] == right[#[trigger] shown_columns(right.len(), hidden)[k]],
{
    kept_cells_are_shown(right, hidden);
}

/// Where no column is left out, a joined row is the left row and then the right
/// row.
pub proof fn a_joined_row_without_hidden_columns(left: Seq<Scalar>, right: Seq<Scalar>)
    ensures
        join_table::combined(left, right, Set::empty()) == left + right,
    decreases right.len(),
{
    if right.len() > 0 {
        a_joined_row_without_hidden_columns(left, right.drop_last());
        let shorter = join_table::kept_cells(right.drop_last(), Set::empty());
        assert((left + shorter).skip(left.len() as int) =~= shorter);
        assert((left + right.drop_last()).skip(left.len() as int) =~= right.drop_last());
        assert(shorter == right.drop_last());
        assert(right.drop_last().push(right.last()) =~= right);
    } else {
        assert(join_table::kept_cells(right, Set::empty()) =~= right);
    }
}

/// A hash join pairs exactly the rows that belong together: what probing with
/// the left rows gives, once the right rows are in the table, is the equality
/// join of both sides.
pub proof fn probing_is_the_equality_join(
    join_type: JoinType,
    nulls: NullEquality,
    lefts: Seq<Seq<Scalar>>,
    left_keys: Seq<usize>,
    rights: Seq<Seq<Scalar>>,
    right_keys: Seq<usize>,
    right_width: nat,
    hidden: Set<usize>,
)
    requires
        right_width <= usize::MAX,
        forall|r: int| 0 <= r < rights.len() ==> (#[trigger] rights[r]).len() == right_width,
    ensures
        join_table::probed_rows(
            join_type,
            nulls,
            join_table::with_rows(Seq::empty(), rights, right_keys),
            lefts,
            left_keys,
            right_width,
            hidden,
        ) == equi_join(
            join_type,
            nulls,
            lefts,
            left_keys,
            rights,
            right_keys,
            right_width,
            hidden,
        ),
    decreases lefts.len(),
{
    if lefts.len() > 0 {
        probing_is_the_equality_join(
            join_type,
            nulls,
            lefts.drop_last(),
            left_keys,
            rights,
            right_keys,
            right_width,
            hidden,
        );
        let left = lefts.last();
        let key = row_key::key_cells(left, left_keys);
        let buckets = join_laws::built(rights, right_keys);
        join_laws::build_collects_matching_rows(rights, right_keys, key);
        join_table::bucket_position_hit(buckets, key);
        partners_belong(nulls, left, left_keys, rights, right_keys);
        let found = belonging(nulls, left, left_keys, rights, right_keys);
        let paired = found.map_values(|right: Seq<Scalar>| side_by_side(left, right, hidden));
        let all = join_table::combined_all(left, found, hidden);
        assert forall|k: int| 0 <= k < found.len() implies all[k] == paired[k] by {
            found_are_rows(nulls, left, left_keys, rights, right_keys, k);
            kept_cells_are_shown(found[k], hidden);
        }
        assert(all =~= paired);
        let blank = Seq::new(right_width, |c: int| Scalar::Null);
        assert(join_table::null_row(right_width) =~= blank);
        kept_cells_are_shown(blank, hidden);
        if found.len() == 0 {
            assert(paired =~= Seq::<Seq<Scalar>>::empty());
        }
    }
}

proof fn found_are_rows(
    nulls: NullEquality,
    left: Seq<Scalar>,
    left_keys: Seq<usize>,
    rights: Seq<Seq<Scalar>>,
    right_keys: Seq<usize>,
    k: int,
) -> (r: int)
    requires
        0 <= k < belonging(nulls, left, left_keys, rights, right_keys).len(),
    ensures
        0 <= r < rights.len(),
        rights[r] == belonging(nulls, left, left_keys, rights, right_keys)[k],
        agree(nulls, left, left_keys, rights[r], right_keys),
    decreases rights.len(),
{
    reveal(Seq::filter);
    let shorter = belonging(nulls, left, left_keys, rights.drop_last(), right_keys);
    if k < shorter.len() {
        found_are_rows(nulls, left, left_keys, rights.drop_last(), right_keys, k)
    } else {
        rights.len() - 1
    }
}

/// Every row that probing gives is a left row beside a right row whose cells
/// equal those of the left row in every pair of key columns, or, in a left join,
/// a left row beside nulls to which no right row belongs.
pub proof fn joined_rows_agree_in_every_key(
    join_type: JoinType,
    nulls: NullEquality,
    lefts: Seq<Seq<Scalar>>,
    left_keys: Seq<usize>,
    rights: Seq<Seq<Scalar>>,
    right_keys: Seq<usize>,
    right_width: nat,
    hidden: Set<usize>,
    k: int,
) -> (at: (int, Option<int>))
    requires
        right_width <= usize::MAX,
        forall|r: int| 0 <= r < rights.len() ==> (#[trigger] rights[r]).len() == right_width,
        0 <= k < join_table::probed_rows(
            join_type,
            nulls,
            join_table::with_rows(Seq::empty(), rights, right_keys),
            lefts,
            left_keys,
            right_width,
            hidden,
        ).len(),
    ensures
        0 <= at.0 < lefts.len(),
        ({
            let row = join_table::probed_rows(
                join_type,
                nulls,
                join_table::with_rows(Seq::empty(), rights, right_keys),
                lefts,
                left_keys,
                right_width,
                hidden,
            )[k];
            match at.1 {
                Some(r) => {
                    &&& 0 <= r < rights.len()
                    &&& left_keys.len() == right_keys.len()
                    &&& forall|i: int|
                        0 <= i < left_keys.len() ==> lefts[at.0][(#[trigger] left_keys[i]) as int]
                            == rights[r][right_keys[i] as int]
                    &&& row == side_by_side(lefts[at.0], rights[r], hidden)
                },
                None => {
                    &&& join_type == JoinType::Left
                    &&& forall|r: int|
                        0 <= r < rights.len() ==> !agree(
                            nulls,
                            lefts[at.0],
                            left_keys,
                            #[trigger] rights[r],
                            right_keys,
                        )
                    &&& row == side_by_side(
                        lefts[at.0],
                        Seq::new(right_width, |c: int| Scalar::Null),
                        hidden,
                    )
                },
            }
        }),
    decreases lefts.len(),
{
    probing_is_the_equality_join(
        join_type,
        nulls,
        lefts,
        left_keys,
        rights,
        right_keys,
        right_width,
        hidden,
    );
    let fewer = lefts.drop_last();
    probing_is_the_equality_join(
        join_type,
        nulls,
        fewer,
        left_keys,
        rights,
        right_keys,
        right_width,
        hidden,
    );
    let earlier = equi_join(
        join_type,
        nulls,
        fewer,
        left_keys,
        rights,
        right_keys,
        right_width,
        hidden,
    );
    let left = lefts.last();
    let found = belonging(nulls, left, left_keys, rights, right_keys);
    if k < earlier.len() {
        joined_rows_agree_in_every_key(
            join_type,
            nulls,
            fewer,
            left_keys,
            rights,
            right_keys,
            right_width,
            hidden,
            k,
        )
    } else if found.len() == 0 && join_type == JoinType::Left {
        assert forall|r: int| 0 <= r < rights.len() implies !agree(
            nulls,
            left,
            left_keys,
            #[trigger] rights[r],
            right_keys,
        ) by {
            if agree(nulls, left, left_keys, rights[r], right_keys) {
                rights.lemma_filter_contains(
                    |right: Seq<Scalar>| agree(nulls, left, left_keys, right, right_keys),
                    r,
                );
                assert(found.contains(rights[r]));
            }
        }
        (lefts.len() - 1, None)
    } else {
        let r = found_are_rows(nulls, left, left_keys, rights, right_keys, k - earlier.len());
        (lefts.len() - 1, Some(r))
    }
}

/// No pair is lost: where a left row and a right row belong together, probing
/// gives the one beside the other.
pub proof fn rows_that_agree_are_joined(
    join_type: JoinType,
    nulls: NullEquality,
    lefts: Seq<Seq<Scalar>>,
    left_keys: Seq<usize>,
    rights: Seq<Seq<Scalar>>,
    right_keys: Seq<usize>,
    right_width: nat,
    hidden: Set<usize>,
    l: int,
    r: int,
)
    requires
        right_width <= usize::MAX,
        forall|r: int| 0 <= r < rights.len() ==> (#[trigger] rights[r]).len() == right_width,
        0 <= l < lefts.len(),
        0 <= r < rights.len(),
        agree(nulls, lefts[l], left_keys, rights[r], right_keys),
    ensures
        join_table::probed_rows(
            join_type,
            nulls,
            join_table::with_rows(Seq::empty(), rights, right_keys),
            lefts,
            left_keys,
            right_width,
            hidden,
        ).contains(side_by_side(lefts[l], rights[r], hidden)),
    decreases lefts.len(),
{
    probing_is_the_equality_join(
        join_type,
        nulls,
        lefts,
        left_keys,
        rights,
        right_keys,
        right_width,
        hidden,
    );
    let fewer = lefts.drop_last();
    probing_is_the_equality_join(
        join_type,
        nulls,
        fewer,
        left_keys,
        rights,
        right_keys,
        right_width,
        hidden,
    );
    let all = equi_join(
        join_type,
        nulls,
        lefts,
        left_keys,
        rights,
        right_keys,
        right_width,
        hidden,
    );
    let earlier = equi_join(
        join_type,
        nulls,
        fewer,
        left_keys,
        rights,
        right_keys,
        right_width,
        hidden,
    );
    let row = side_by_side(lefts[l], rights[r], hidden);
    if l < lefts.len() - 1 {
        rows_that_agree_are_joined(
            join_type,
            nulls,
            fewer,
            left_keys,
            rights,
            right_keys,
            right_width,
            hidden,
            l,
            r,
        );
        let k = choose|k: int| 0 <= k < earlier.len() && earlier[k] == row;
        assert(all[k] == row);
    } else {
        let left = lefts[l];
        let found = belonging(nulls, left, left_keys, rights, right_keys);
        rights.lemma_filter_contains(
            |right: Seq<Scalar>| agree(nulls, left, left_keys, right, right_keys),
            r,
        );
        assert(found.contains(rights[r]));
        let k = choose|k: int| 0 <= k < found.len() && found[k] == rights[r];
        assert(all[earlier.len() + k] == row);
    }
}

proof fn one_more_in_a_bucket(
    buckets: Seq<Bucket>,
    matched: Seq<bool>,
    left_width: nat,
    hidden: Set<usize>,
    i: int,
    row: Seq<Scalar>,
)
    requires
        matched.len() == buckets.len(),
        0 <= i < buckets.len(),
    ensures
        ({
            let more = buckets.update(
                i,
                Bucket { key: buckets[i].key, rows: buckets[i].rows.push(row) },
            );
            let before = join_table::unmatched_rows(buckets, matched, left_width, hidden);
            let after = join_table::unmatched_rows(more, matched, left_width, hidden);
            after.to_multiset() == if matched[i] {
                before.to_multiset()
            } else {
                before.to_multiset().insert(
                    join_table::combined(join_table::null_row(left_width), row, hidden),
                )
            }
        }),
    decreases buckets.len(),
{
    let blank = join_table::null_row(left_width);
    let more = buckets.update(i, Bucket { key: buckets[i].key, rows: buckets[i].rows.push(row) });
    let before = join_table::unmatched_rows(buckets, matched, left_width, hidden);
    let after = join_table::unmatched_rows(more, matched, left_width, hidden);
    let padded = join_table::combined(blank, row, hidden);
    if i == buckets.len() - 1 {
        assert(more.drop_last() =~= buckets.drop_last());
        if !matched[i] {
            assert(after =~= before.push(padded));
            vstd::seq_lib::to_multiset_build(before, padded);
        } else {
            assert(after =~= before);
        }
    } else {
        one_more_in_a_bucket(
            buckets.drop_last(),
            matched.drop_last(),
            left_width,
            hidden,
            i,
            row,
        );
        assert(more.drop_last() =~= buckets.drop_last().update(
            i,
            Bucket { key: buckets[i].key, rows: buckets[i].rows.push(row) },
        ));
        assert(more.last() == buckets.last());
        if !matched.last() {
            let tail = join_table::null_combined_all(left_width, buckets.last().rows, hidden);
            let a = join_table::unmatched_rows(
                buckets.drop_last(),
                matched.drop_last(),
                left_width,
                hidden,
            );
            let b = join_table::unmatched_rows(
                more.drop_last(),
                matched.drop_last(),
                left_width,
                hidden,
            );
            vstd::seq_lib::lemma_multiset_commutative(a, tail);
            vstd::seq_lib::lemma_multiset_commutative(b, tail);
            assert(after.to_multiset() =~= if matched[i] {
                before.to_multiset()
            } else {
                before.to_multiset().insert(padded)
            });
        }
    }
}

proof fn unmatched_by_key(
    rights: Seq<Seq<Scalar>>,
    right_keys: Seq<usize>,
    hit: spec_fn(Seq<Scalar>) -> bool,
    matched: Seq<bool>,
    left_width: nat,
    hidden: Set<usize>,
)
    requires
        matched.len() == join_laws::built(rights, right_keys).len(),
        forall|i: int|
            0 <= i < matched.len() ==> #[trigger] matched[i] == hit(
                join_laws::built(rights, right_keys)[i].key,
            ),
    ensures
        join_table::unmatched_rows(
            join_laws::built(rights, right_keys),
            matched,
            left_width,
            hidden,
        ).to_multiset() == rights.filter(
            |right: Seq<Scalar>| !hit(row_key::key_cells(right, right_keys)),
        ).map_values(
            |right: Seq<Scalar>|
                join_table::combined(join_table::null_row(left_width), right, hidden),
        ).to_multiset(),
    decreases rights.len(),
{
    reveal(Seq::filter);
    let lone = |right: Seq<Scalar>| !hit(row_key::key_cells(right, right_keys));
    let pad = |right: Seq<Scalar>|
        join_table::combined(join_table::null_row(left_width), right, hidden);
    let buckets = join_laws::built(rights, right_keys);
    if rights.len() == 0 {
        assert(rights.filter(lone).map_values(pad) =~= join_table::unmatched_rows(
            buckets,
            matched,
            left_width,
            hidden,
        ));
    } else {
        let fewer = rights.drop_last();
        let row = rights.last();
        let key = row_key::key_cells(row, right_keys);
        let earlier = join_laws::built(fewer, right_keys);
        join_table::bucket_position_hit(earlier, key);
        let kept = fewer.filter(lone);
        if lone(row) {
            assert(kept.push(row).map_values(pad) =~= kept.map_values(pad).push(pad(row)));
            vstd::seq_lib::to_multiset_build(kept.map_values(pad), pad(row));
        }
        match join_table::bucket_position(earlier, key) {
            Some(i) => {
                assert(buckets =~= earlier.update(
                    i,
                    Bucket { key: earlier[i].key, rows: earlier[i].rows.push(row) },
                ));
                assert forall|j: int| 0 <= j < matched.len() implies #[trigger] matched[j] == hit(
                    earlier[j].key,
                ) by {
                    assert(buckets[j].key == earlier[j].key);
                }
                unmatched_by_key(fewer, right_keys, hit, matched, left_width, hidden);
                one_more_in_a_bucket(earlier, matched, left_width, hidden, i, row);
                assert(matched[i] == hit(key));
            },
            None => {
                assert(buckets =~= earlier.push(Bucket { key, rows: seq![row] }));
                let before = matched.drop_last();
                assert forall|j: int| 0 <= j < before.len() implies #[trigger] before[j] == hit(
                    earlier[j].key,
                ) by {
                    assert(matched[j] == hit(buckets[j].key));
                }
                unmatched_by_key(fewer, right_keys, hit, before, left_width, hidden);
                assert(buckets.drop_last() =~= earlier);
                assert(matched[matched.len() - 1] == hit(buckets[matched.len() - 1].key));
                let shorter = join_table::unmatched_rows(earlier, before, left_width, hidden);
                if !hit(key) {
                    assert(join_table::unmatched_rows(buckets, matched, left_width, hidden)
                        =~= shorter.push(pad(row)));
                    vstd::seq_lib::to_multiset_build(shorter, pad(row));
                }
            },
        }
    }
}

/// The right rows that belong to no left row, each beside `left_width` nulls.
pub open spec fn left_alone(
    nulls: NullEquality,
    lefts: Seq<Seq<Scalar>>,
    left_keys: Seq<usize>,
    rights: Seq<Seq<Scalar>>,
    right_keys: Seq<usize>,
    left_width: nat,
    hidden: Set<usize>,
) -> Seq<Seq<Scalar>> {
    rights.filter(
        |right: Seq<Scalar>|
            forall|l: int|
                0 <= l < lefts.len() ==> !agree(
                    nulls,
                    #[trigger] lefts[l],
                    left_keys,
                    right,
                    right_keys,
                ),
    ).map_values(
        |right: Seq<Scalar>|
            side_by_side(Seq::new(left_width, |c: int| Scalar::Null), right, hidden),
    )
}

proof fn key_hit_is_agreement(
    nulls: NullEquality,
    lefts: Seq<Seq<Scalar>>,
    left_keys: Seq<usize>,
    right: Seq<Scalar>,
    right_keys: Seq<usize>,
)
    ensures
        join_laws::has_partner(nulls, lefts, left_keys, row_key::key_cells(right, right_keys))
            <==> exists|l: int|
            0 <= l < lefts.len() && agree(
                nulls,
                #[trigger] lefts[l],
                left_keys,
                right,
                right_keys,
            ),
{
    let key = row_key::key_cells(right, right_keys);
    if join_laws::has_partner(nulls, lefts, left_keys, key) {
        let l = choose|l: int|
            0 <= l < lefts.len() && #[trigger] row_key::key_cells(lefts[l], left_keys) == key;
        key_match_is_agreement(nulls, lefts[l], left_keys, right, right_keys);
        assert(agree(nulls, lefts[l], left_keys, right, right_keys));
    }
    if exists|l: int|
        0 <= l < lefts.len() && agree(nulls, #[trigger] lefts[l], left_keys, right, right_keys) {
        let l = choose|l: int|
            0 <= l < lefts.len() && agree(
                nulls,
                #[trigger] lefts[l],
                left_keys,
                right,
                right_keys,
            );
        key_match_is_agreement(nulls, lefts[l], left_keys, right, right_keys);
        assert(row_key::key_cells(lefts[l], left_keys) == key);
    }
}

/// After its left input a right join hands out exactly the right rows that belong
/// to no left row, each as often as it occurs, beside nulls.
pub proof fn a_right_join_adds_the_rows_left_alone(
    nulls: NullEquality,
    lefts: Seq<Seq<Scalar>>,
    left_keys: Seq<usize>,
    rights: Seq<Seq<Scalar>>,
    right_keys: Seq<usize>,
    left_width: nat,
    right_width: nat,
    hidden: Set<usize>,
)
    requires
        right_width <= usize::MAX,
        forall|r: int| 0 <= r < rights.len() ==> (#[trigger] rights[r]).len() == right_width,
    ensures
        ({
            let buckets = join_table::with_rows(Seq::empty(), rights, right_keys);
            let none = Seq::new(buckets.len(), |k: int| false);
            join_table::unmatched_rows(
                buckets,
                join_table::hits(nulls, buckets, none, lefts, left_keys),
                left_width,
                hidden,
            ).to_multiset()
        }) == left_alone(nulls, lefts, left_keys, rights, right_keys, left_width, hidden)
            .to_multiset(),
{
    let buckets = join_laws::built(rights, right_keys);
    let none = Seq::new(buckets.len(), |k: int| false);
    let matched = join_table::hits(nulls, buckets, none, lefts, left_keys);
    join_laws::build_keys_distinct(rights, right_keys);
    hits_in_length(nulls, buckets, none, lefts, left_keys);
    let hit = |key: Seq<Scalar>| join_laws::has_partner(nulls, lefts, left_keys, key);
    assert forall|i: int| 0 <= i < matched.len() implies #[trigger] matched[i] == hit(
        buckets[i].key,
    ) by {
        join_laws::hits_are_exact(nulls, buckets, lefts, left_keys, i);
    }
    unmatched_by_key(rights, right_keys, hit, matched, left_width, hidden);
    let lone = |right: Seq<Scalar>| !hit(row_key::key_cells(right, right_keys));
    let alone = |right: Seq<Scalar>|
        forall|l: int|
            0 <= l < lefts.len() ==> !agree(
                nulls,
                #[trigger] lefts[l],
                left_keys,
                right,
                right_keys,
            );
    assert forall|right: Seq<Scalar>| #[trigger] lone(right) == alone(right) by {
        key_hit_is_agreement(nulls, lefts, left_keys, right, right_keys);
    }
    assert(lone =~= alone);
    let blank = Seq::new(left_width, |c: int| Scalar::Null);
    assert(join_table::null_row(left_width) =~= blank);
    let kept = rights.filter(lone);
    let pad = |right: Seq<Scalar>|
        join_table::combined(join_table::null_row(left_width), right, hidden);
    let beside = |right: Seq<Scalar>| side_by_side(blank, right, hidden);
    assert forall|k: int| 0 <= k < kept.len() implies kept.map_values(pad)[k] == kept.map_values(
        beside,
    )[k] by {
        kept_has_width(rights, lone, right_width, k);
        kept_cells_are_shown(kept[k], hidden);
    }
    assert(kept.map_values(pad) =~= kept.map_values(beside));
}

proof fn kept_has_width(
    rows: Seq<Seq<Scalar>>,
    keep: spec_fn(Seq<Scalar>) -> bool,
    width: nat,
    k: int,
)
    requires
        forall|r: int| 0 <= r < rows.len() ==> (#[trigger] rows[r]).len() == width,
        0 <= k < rows.filter(keep).len(),
    ensures
        rows.filter(keep)[k].len() == width,
    decreases rows.len(),
{
    reveal(Seq::filter);
    let fewer = rows.drop_last();
    assert(rows[rows.len() - 1].len() == width);
    if k < fewer.filter(keep).len() {
        assert forall|r: int| 0 <= r < fewer.len() implies (#[trigger] fewer[r]).len() == width by {
            assert(rows[r].len() == width);
        }
        kept_has_width(fewer, keep, width, k);
    }
}

proof fn hits_in_length(
    nulls: NullEquality,
    buckets: Seq<Bucket>,
    before: Seq<bool>,
    lefts: Seq<Seq<Scalar>>,
    left_keys: Seq<usize>,
)
    requires
        before.len() == buckets.len(),
    ensures
        join_table::hits(nulls, buckets, before, lefts, left_keys).len() == buckets.len(),
    decreases lefts.len(),
{
    if lefts.len() > 0 {
        hits_in_length(nulls, buckets, before, lefts.drop_last(), left_keys);
        join_table::bucket_position_hit(buckets, row_key::key_cells(lefts.last(), left_keys));
    }
}

/// A running join that has read the right rows hands out, for a batch of the left
/// input, the equality join of that batch with them, and nothing where it only
/// notes which keys occur.
pub proof fn a_running_join_hands_out_the_equality_join(
    stream: HashJoinStream,
    rights: Seq<Seq<Scalar>>,
    batch: RecordBatch,
)
    requires
        stream.table@ == join_table::with_rows(Seq::empty(), rights, stream.right_keys@),
        forall|r: int|
            0 <= r < rights.len() ==> (#[trigger] rights[r]).len() == stream.right_width,
    ensures
        stream.phase == JoinPhase::Probe ==> stream.joined(Some(batch)) == equi_join(
            stream.join_type,
            stream.null_equality,
            batch.rows(),
            stream.left_keys@,
            rights,
            stream.right_keys@,
            stream.right_width as nat,
            stream.excluded@,
        ),
        stream.phase == JoinPhase::Probe ==> stream.joined(None).len() == 0,
        stream.phase == JoinPhase::Rescan ==> stream.joined(Some(batch)).len() == 0,
{
    probing_is_the_equality_join(
        stream.join_type,
        stream.null_equality,
        batch.rows(),
        stream.left_keys@,
        rights,
        stream.right_keys@,
        stream.right_width as nat,
        stream.excluded@,
    );
}

/// A running right join that has noted which keys occur in the left rows hands
/// out, at the end, the right rows that belong to none of them.
pub proof fn a_running_right_join_ends_with_the_rows_left_alone(
    stream: HashJoinStream,
    lefts: Seq<Seq<Scalar>>,
    rights: Seq<Seq<Scalar>>,
)
    requires
        stream.phase == JoinPhase::Rescan,
        stream.table@ == join_table::with_rows(Seq::empty(), rights, stream.right_keys@),
        stream.matched@ == join_table::hits(
            stream.null_equality,
            stream.table@,
            Seq::new(stream.table@.len(), |k: int| false),
            lefts,
            stream.left_keys@,
        ),
        forall|r: int|
            0 <= r < rights.len() ==> (#[trigger] rights[r]).len() == stream.right_width,
    ensures
        stream.joined(None).to_multiset() == left_alone(
            stream.null_equality,
            lefts,
            stream.left_keys@,
            rights,
            stream.right_keys@,
            stream.left_width as nat,
            stream.excluded@,
        ).to_multiset(),
{
    a_right_join_adds_the_rows_left_alone(
        stream.null_equality,
        lefts,
        stream.left_keys@,
        rights,
        stream.right_keys@,
        stream.left_width as nat,
        stream.right_width as nat,
        stream.excluded@,
    );
}

/// The key columns of a join are those of its pairs, in order: on each side the
/// `i`-th key column is the column of the `i`-th pair.
pub proof fn the_key_columns_are_those_of_the_pairs(join: HashJoinExec, i: int)
    requires
        0 <= i < join.on@.len(),
    ensures
        ({
            let pairs = hash_join_exec::key_pairs(join.on@);
            &&& hash_join_exec::left_positions(pairs).len() == join.on@.len()
            &&& hash_join_exec::right_positions(pairs).len() == join.on@.len()
            &&& join.on@[i].0@ matches Expr::Column { index, .. }
                ==> hash_join_exec::left_positions(pairs)[i] == index
            &&& join.on@[i].1@ matches Expr::Column { index, .. }
                ==> hash_join_exec::right_positions(pairs)[i] == index
        }),
{
}

proof fn keys_are_refused(on: Seq<(Expr, Expr)>)
    ensures
        hash_join_exec::keys_fault(on) is None <==> forall|i: int|
            0 <= i < on.len() ==> (#[trigger] on[i]).0 is Column && on[i].1 is Column,
    decreases on.len(),
{
    if on.len() > 0 {
        let rest = on.drop_first();
        keys_are_refused(rest);
        if on[0].0 is Column && on[0].1 is Column {
            assert forall|i: int| 0 <= i < rest.len() implies #[trigger] rest[i] == on[i + 1] by {}
            if forall|i: int|
                0 <= i < rest.len() ==> (#[trigger] rest[i]).0 is Column && rest[i].1 is Column {
                assert forall|i: int| 0 <= i < on.len() implies (#[trigger] on[i]).0 is Column
                    && on[i].1 is Column by {
                    if i > 0 {
                        assert(rest[i - 1] == on[i]);
                    }
                }
            }
        }
    }
}

/// A join runs exactly for its only partition, as an inner, left or right join,
/// and where every key is a column.
pub proof fn a_join_runs_where_it_can(join: HashJoinExec, partition: usize)
    ensures
        join.refusal(partition) is None <==> {
            &&& partition == 0
            &&& join.join_type == JoinType::Inner || join.join_type == JoinType::Left
                || join.join_type == JoinType::Right
            &&& forall|i: int|
                0 <= i < join.on@.len() ==> (#[trigger] join.on@[i]).0@ is Column
                    && join.on@[i].1@ is Column
        },
{
    let pairs = hash_join_exec::key_pairs(join.on@);
    keys_are_refused(pairs);
    if forall|i: int| 0 <= i < pairs.len() ==> (#[trigger] pairs[i]).0 is Column
        && pairs[i].1 is Column {
        assert forall|i: int| 0 <= i < join.on@.len() implies (#[trigger] join.on@[i]).0@ is Column
            && join.on@[i].1@ is Column by {
            assert(pairs[i].0 is Column && pairs[i].1 is Column);
        }
    }
    if forall|i: int|
        0 <= i < join.on@.len() ==> (#[trigger] join.on@[i]).0@ is Column
            && join.on@[i].1@ is Column {
        assert forall|i: int| 0 <= i < pairs.len() implies (#[trigger] pairs[i]).0 is Column
            && pairs[i].1 is Column by {
            assert(join.on@[i].0@ is Column);
        }
    }
}

/// A join runs in the mode that was asked for; where the choice was left open it
/// runs partitioned.
pub proof fn an_open_mode_is_settled(mode: PartitionMode)
    ensures
        mode == PartitionMode::Auto ==> mode.settled() == PartitionMode::Partitioned,
        mode != PartitionMode::Auto ==> mode.settled() == mode,
{
}

/// A step of a running join hands out its joined rows as they are, where they are
/// as wide as the schema and every cell may stand in its column, and nothing
/// where there are none.
pub proof fn a_step_hands_out_its_rows(
    step: Result<JoinStep, FdapQueryError>,
    rows: Seq<Seq<Scalar>>,
    schema: Schema,
    next: JoinAction,
)
    requires
        schema@.len() > 0,
        forall|r: int, c: int|
            0 <= r < rows.len() && 0 <= c < schema@.len() ==> batch::cell_fits(
                schema@[c],
                #[trigger] rows[r][c],
            ),
        hash_join_stream::emitted(step, rows, schema@.len(), schema, next),
    ensures
        step is Ok,
        step->Ok_0.next == next,
        rows.len() == 0 ==> step->Ok_0.output is None,
        rows.len() > 0 ==> (step->Ok_0.output matches Some(out) && out.schema@ == schema@
            && out.rows() == rows),
{
    let columns = batch::spread(rows, schema@.len(), schema@.len());
    batch::batch_fault_exact(schema@, columns);
    if rows.len() > 0 {
        row_laws::rows_fill_a_batch(rows, schema@.len(), schema@.len(), 0, 0);
        assert forall|c: int, r: int|
            0 <= c < columns.len() && 0 <= r < columns[c].len() implies batch::cell_fits(
            schema@[c],
            #[trigger] columns[c][r],
        ) by {
            assert(columns[c][r] == rows[r][c]);
        }
    }
}

} // verus!
