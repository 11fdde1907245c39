//! What the hash join computes, stated without buckets.
use vstd::prelude::*;
use crate::hash_join_exec::NullEquality;
use crate::join_table::{Bucket, JoinType};
use crate::scalar::Scalar;
use crate::{batch, join_table, row_key};

verus! {

/// The buckets of a whole build side.
pub open spec fn built(rights: Seq<Seq<Scalar>>, right_keys: Seq<usize>) -> Seq<Bucket> {
    join_table::with_rows(Seq::empty(), rights, right_keys)
}

/// The nested-loop join: every left row against every right row with the same
/// key, in the order of the left rows and then of the right rows. Unless nulls
/// equal each other, a key with a null matches nothing. A left join keeps a left
/// row without partner, padded with nulls.
pub open spec fn nested_loop_join(
    join_type: JoinType,
    nulls: NullEquality,
    lefts: Seq<Seq<Scalar>>,
    left_keys: Seq<usize>,
    rights: Seq<Seq<Scalar>>,
    right_keys: Seq<usize>,
    right_width: nat,
    excluded: Set<usize>,
) -> Seq<Seq<Scalar>>
    decreases lefts.len(),
{
    if lefts.len() == 0 {
        seq![]
    } else {
        let left = lefts.last();
        let partners = join_table::partners(
            nulls,
            rights,
            right_keys,
            row_key::key_cells(left, left_keys),
        );
        nested_loop_join(
            join_type,
            nulls,
            lefts.drop_last(),
            left_keys,
            rights,
            right_keys,
            right_width,
            excluded,
        ) + if partners.len() == 0 && join_type == JoinType::Left {
            seq![join_table::combined(left, join_table::null_row(right_width), excluded)]
        } else {
            join_table::combined_all(left, partners, excluded)
        }
    }
}

proof fn position_by_keys(a: Seq<Bucket>, b: Seq<Bucket>, key: Seq<Scalar>)
    requires
        a.len() == b.len(),
        forall|i: int| 0 <= i < a.len() ==> (#[trigger] a[i]).key == b[i].key,
    ensures
        join_table::bucket_position(a, key) == join_table::bucket_position(b, key),
    decreases a.len(),
{
    if a.len() > 0 && a.last().key != key {
        let shorter_a = a.drop_last();
        let shorter_b = b.drop_last();
        assert forall|i: int| 0 <= i < shorter_a.len() implies (#[trigger] shorter_a[i]).key
            == shorter_b[i].key by {
            assert(a[i].key == b[i].key);
        }
        position_by_keys(shorter_a, shorter_b, key);
    }
}

/// Adding a row extends the bucket of its key and leaves every other bucket
/// alone.
pub proof fn with_row_lookup(
    buckets: Seq<Bucket>,
    key: Seq<Scalar>,
    row: Seq<Scalar>,
    asked: Seq<Scalar>,
)
    ensures
        join_table::bucket_rows(join_table::with_row(buckets, key, row), asked) == if asked == key {
            match join_table::bucket_rows(buckets, key) {
                Some(rows) => Some(rows.push(row)),
                None => Some(seq![row]),
            }
        } else {
            join_table::bucket_rows(buckets, asked)
        },
{
    let after = join_table::with_row(buckets, key, row);
    join_table::bucket_position_hit(buckets, key);
    join_table::bucket_position_hit(buckets, asked);
    match join_table::bucket_position(buckets, key) {
        Some(i) => {
            position_by_keys(after, buckets, asked);
        },
        None => {
            assert(after.drop_last() == buckets);
        },
    }
}

/// A bucket exists exactly for the keys that occur in the build side, and holds
/// the build rows with that key, in input order. Here nulls count as equal; a
/// probe decides whether a key with a null matches.
pub proof fn build_collects_matching_rows(
    rights: Seq<Seq<Scalar>>,
    right_keys: Seq<usize>,
    key: Seq<Scalar>,
)
    ensures
        join_table::bucket_rows(built(rights, right_keys), key) == if join_table::matching(
            rights,
            right_keys,
            key,
        ).len() == 0 {
            None
        } else {
            Some(join_table::matching(rights, right_keys, key))
        },
    decreases rights.len(),
{
    if rights.len() > 0 {
        build_collects_matching_rows(rights.drop_last(), right_keys, key);
        let earlier = built(rights.drop_last(), right_keys);
        with_row_lookup(
            earlier,
            row_key::key_cells(rights.last(), right_keys),
            rights.last(),
            key,
        );
        let shorter = join_table::matching(rights.drop_last(), right_keys, key);
        if shorter.len() == 0 {
            assert(shorter.push(rights.last()) == seq![rights.last()]);
        }
    }
}

/// Probing the built table is the nested-loop join.
pub proof fn probe_is_nested_loop_join(
    join_type: JoinType,
    nulls: NullEquality,
    lefts: Seq<Seq<Scalar>>,
    left_keys: Seq<usize>,
    rights: Seq<Seq<Scalar>>,
    right_keys: Seq<usize>,
    right_width: nat,
    excluded: Set<usize>,
)
    ensures
        join_table::probed_rows(
            join_type,
            nulls,
            built(rights, right_keys),
            lefts,
            left_keys,
            right_width,
            excluded,
        ) == nested_loop_join(
            join_type,
            nulls,
            lefts,
            left_keys,
            rights,
            right_keys,
            right_width,
            excluded,
        ),
    decreases lefts.len(),
{
    if lefts.len() > 0 {
        probe_is_nested_loop_join(
            join_type,
            nulls,
            lefts.drop_last(),
            left_keys,
            rights,
            right_keys,
            right_width,
            excluded,
        );
        let key = row_key::key_cells(lefts.last(), left_keys);
        build_collects_matching_rows(rights, right_keys, key);
        join_table::bucket_position_hit(built(rights, right_keys), key);
        let partners = join_table::partners(nulls, rights, right_keys, key);
        if partners.len() == 0 {
            assert(join_table::combined_all(lefts.last(), partners, excluded) =~= Seq::<
                Seq<Scalar>,
            >::empty());
        }
    }
}

/// Under a join in which nulls equal nothing, a left row with a null in its key
/// has no partner: it comes out of a left join padded with nulls, and of no other
/// join; and a right row with a null in its key is matched by no left row.
pub proof fn null_keys_match_nothing(
    join_type: JoinType,
    left: Seq<Scalar>,
    left_keys: Seq<usize>,
    lefts: Seq<Seq<Scalar>>,
    rights: Seq<Seq<Scalar>>,
    right_keys: Seq<usize>,
    right_width: nat,
    excluded: Set<usize>,
    key: Seq<Scalar>,
)
    requires
        row_key::key_cells(left, left_keys).contains(Scalar::Null),
        key.contains(Scalar::Null),
    ensures
        nested_loop_join(
            join_type,
            NullEquality::NullEqualsNothing,
            seq![left],
            left_keys,
            rights,
            right_keys,
            right_width,
            excluded,
        ) == if join_type == JoinType::Left {
            seq![join_table::combined(left, join_table::null_row(right_width), excluded)]
        } else {
            Seq::<Seq<Scalar>>::empty()
        },
        !has_partner(NullEquality::NullEqualsNothing, lefts, left_keys, key),
{
    reveal_with_fuel(nested_loop_join, 2);
    assert(seq![left].drop_last() =~= Seq::<Seq<Scalar>>::empty());
    assert(join_table::combined_all(left, seq![], excluded) =~= Seq::<Seq<Scalar>>::empty());
}

/// Probing batch after batch gives the same rows as probing all rows at once.
pub proof fn probe_batches_concatenate(
    join_type: JoinType,
    nulls: NullEquality,
    buckets: Seq<Bucket>,
    first: Seq<Seq<Scalar>>,
    second: Seq<Seq<Scalar>>,
    left_keys: Seq<usize>,
    right_width: nat,
    excluded: Set<usize>,
)
    ensures
        join_table::probed_rows(
            join_type,
            nulls,
            buckets,
            first + second,
            left_keys,
            right_width,
            excluded,
        ) == join_table::probed_rows(join_type, nulls, buckets, first, left_keys, right_width, excluded)
            + join_table::probed_rows(join_type, nulls, buckets, second, left_keys, right_width, excluded),
    decreases second.len(),
{
    if second.len() == 0 {
        assert(first + second == first);
    } else {
        assert((first + second).drop_last() == first + second.drop_last());
        probe_batches_concatenate(
            join_type,
            nulls,
            buckets,
            first,
            second.drop_last(),
            left_keys,
            right_width,
            excluded,
        );
    }
}

/// Building batch after batch gives the same buckets as building from all rows
/// at once.
pub proof fn build_batches_concatenate(
    buckets: Seq<Bucket>,
    first: Seq<Seq<Scalar>>,
    second: Seq<Seq<Scalar>>,
    right_keys: Seq<usize>,
)
    ensures
        join_table::with_rows(buckets, first + second, right_keys) == join_table::with_rows(
            join_table::with_rows(buckets, first, right_keys),
            second,
            right_keys,
        ),
    decreases second.len(),
{
    if second.len() == 0 {
        assert(first + second == first);
    } else {
        assert((first + second).drop_last() == first + second.drop_last());
        build_batches_concatenate(buckets, first, second.drop_last(), right_keys);
    }
}

/// Whether some row of `lefts` has the given key.
pub open spec fn key_occurs(
    lefts: Seq<Seq<Scalar>>,
    left_keys: Seq<usize>,
    key: Seq<Scalar>,
) -> bool {
    exists|i: int| 0 <= i < lefts.len() && #[trigger] row_key::key_cells(lefts[i], left_keys) == key
}

/// Whether some row of `lefts` matches the given key.
pub open spec fn has_partner(
    nulls: NullEquality,
    lefts: Seq<Seq<Scalar>>,
    left_keys: Seq<usize>,
    key: Seq<Scalar>,
) -> bool {
    join_table::can_match(nulls, key) && key_occurs(lefts, left_keys, key)
}

/// No two buckets share a key.
pub open spec fn distinct_keys(buckets: Seq<Bucket>) -> bool {
    forall|i: int, j: int|
        0 <= i < j < buckets.len() ==> (#[trigger] buckets[i]).key != (#[trigger] buckets[j]).key
}

/// The keys of the buckets of a build side are distinct.
pub proof fn build_keys_distinct(rights: Seq<Seq<Scalar>>, right_keys: Seq<usize>)
    ensures
        distinct_keys(built(rights, right_keys)),
    decreases rights.len(),
{
    if rights.len() > 0 {
        build_keys_distinct(rights.drop_last(), right_keys);
        join_table::bucket_position_hit(
            built(rights.drop_last(), right_keys),
            row_key::key_cells(rights.last(), right_keys),
        );
    }
}

/// A bucket counts as hit exactly when some left row matches its key.
pub proof fn hits_are_exact(
    nulls: NullEquality,
    buckets: Seq<Bucket>,
    lefts: Seq<Seq<Scalar>>,
    left_keys: Seq<usize>,
    i: int,
)
    requires
        distinct_keys(buckets),
        0 <= i < buckets.len(),
    ensures
        join_table::hits(
            nulls,
            buckets,
            Seq::new(buckets.len(), |k: int| false),
            lefts,
            left_keys,
        ).len() == buckets.len(),
        join_table::hits(nulls, buckets, Seq::new(buckets.len(), |k: int| false), lefts, left_keys)[i]
            <==> has_partner(nulls, lefts, left_keys, buckets[i].key),
    decreases lefts.len(),
{
    let none = Seq::new(buckets.len(), |k: int| false);
    if lefts.len() > 0 {
        let shorter = lefts.drop_last();
        hits_are_exact(nulls, buckets, shorter, left_keys, i);
        let key = row_key::key_cells(lefts.last(), left_keys);
        join_table::bucket_position_hit(buckets, key);
        let all = join_table::hits(nulls, buckets, none, lefts, left_keys);
        let before = join_table::hits(nulls, buckets, none, shorter, left_keys);
        if has_partner(nulls, lefts, left_keys, buckets[i].key) {
            let w = choose|w: int|
                0 <= w < lefts.len() && #[trigger] row_key::key_cells(lefts[w], left_keys)
                    == buckets[i].key;
            if w < shorter.len() {
                assert(row_key::key_cells(shorter[w], left_keys) == buckets[i].key);
                assert(before[i]);
            } else {
                assert(key == buckets[i].key);
                let p = join_table::bucket_position(buckets, key).unwrap();
                assert(p == i);
            }
            assert(all[i]);
        } else {
            if key_occurs(shorter, left_keys, buckets[i].key) {
                let w = choose|w: int|
                    0 <= w < shorter.len() && #[trigger] row_key::key_cells(shorter[w], left_keys)
                        == buckets[i].key;
                assert(row_key::key_cells(lefts[w], left_keys) == buckets[i].key);
            }
            if join_table::can_match(nulls, buckets[i].key) {
                assert(row_key::key_cells(lefts[lefts.len() - 1], left_keys) != buckets[i].key);
            }
        }
    } else {
        assert(!key_occurs(lefts, left_keys, buckets[i].key));
    }
}

proof fn unmatched_contains(
    buckets: Seq<Bucket>,
    matched: Seq<bool>,
    left_width: nat,
    excluded: Set<usize>,
    i: int,
    row: Seq<Scalar>,
)
    requires
        matched.len() == buckets.len(),
        0 <= i < buckets.len(),
        !matched[i],
        buckets[i].rows.contains(row),
    ensures
        join_table::unmatched_rows(buckets, matched, left_width, excluded).contains(
            join_table::combined(join_table::null_row(left_width), row, excluded),
        ),
    decreases buckets.len(),
{
    let padded = join_table::combined(join_table::null_row(left_width), row, excluded);
    let all = join_table::unmatched_rows(buckets, matched, left_width, excluded);
    let earlier = join_table::unmatched_rows(
        buckets.drop_last(),
        matched.drop_last(),
        left_width,
        excluded,
    );
    if i == buckets.len() - 1 {
        let k = choose|k: int| 0 <= k < buckets[i].rows.len() && buckets[i].rows[k] == row;
        assert(all[earlier.len() + k] == padded);
    } else {
        unmatched_contains(
            buckets.drop_last(),
            matched.drop_last(),
            left_width,
            excluded,
            i,
            row,
        );
        let k = choose|k: int| 0 <= k < earlier.len() && earlier[k] == padded;
        assert(all[k] == padded);
    }
}

proof fn matching_contains(
    rows: Seq<Seq<Scalar>>,
    keys: Seq<usize>,
    key: Seq<Scalar>,
    j: int,
)
    requires
        0 <= j < rows.len(),
        row_key::key_cells(rows[j], keys) == key,
    ensures
        join_table::matching(rows, keys, key).contains(rows[j]),
    decreases rows.len(),
{
    let all = join_table::matching(rows, keys, key);
    let shorter = join_table::matching(rows.drop_last(), keys, key);
    if j == rows.len() - 1 {
        assert(all[all.len() - 1] == rows[j]);
    } else {
        matching_contains(rows.drop_last(), keys, key, j);
        let k = choose|k: int| 0 <= k < shorter.len() && shorter[k] == rows[j];
        assert(all[k] == rows[j]);
    }
}

/// A right join loses no right row: a row whose key no left row matches comes
/// out padded with nulls on the left.
pub proof fn right_join_keeps_unmatched_rows(
    nulls: NullEquality,
    lefts: Seq<Seq<Scalar>>,
    left_keys: Seq<usize>,
    rights: Seq<Seq<Scalar>>,
    right_keys: Seq<usize>,
    left_width: nat,
    excluded: Set<usize>,
    j: int,
)
    requires
        0 <= j < rights.len(),
        !has_partner(nulls, lefts, left_keys, row_key::key_cells(rights[j], right_keys)),
    ensures
        join_table::unmatched_rows(
            built(rights, right_keys),
            join_table::hits(
                nulls,
                built(rights, right_keys),
                Seq::new(built(rights, right_keys).len(), |k: int| false),
                lefts,
                left_keys,
            ),
            left_width,
            excluded,
        ).contains(
            join_table::combined(join_table::null_row(left_width), rights[j], excluded),
        ),
{
    let buckets = built(rights, right_keys);
    let key = row_key::key_cells(rights[j], right_keys);
    let none = Seq::new(buckets.len(), |k: int| false);
    let matched = join_table::hits(nulls, buckets, none, lefts, left_keys);
    matching_contains(rights, right_keys, key, j);
    build_collects_matching_rows(rights, right_keys, key);
    build_keys_distinct(rights, right_keys);
    join_table::bucket_position_hit(buckets, key);
    let i = join_table::bucket_position(buckets, key).unwrap();
    hits_are_exact(nulls, buckets, lefts, left_keys, i);
    unmatched_contains(buckets, matched, left_width, excluded, i, rights[j]);
}

proof fn unmatched_comes_from(
    buckets: Seq<Bucket>,
    matched: Seq<bool>,
    left_width: nat,
    excluded: Set<usize>,
    k: int,
) -> (at: (int, int))
    requires
        matched.len() == buckets.len(),
        0 <= k < join_table::unmatched_rows(buckets, matched, left_width, excluded).len(),
    ensures
        0 <= at.0 < buckets.len(),
        !matched[at.0],
        0 <= at.1 < buckets[at.0].rows.len(),
        join_table::unmatched_rows(buckets, matched, left_width, excluded)[k]
            == join_table::combined(
            join_table::null_row(left_width),
            buckets[at.0].rows[at.1],
            excluded,
        ),
    decreases buckets.len(),
{
    let earlier = join_table::unmatched_rows(
        buckets.drop_last(),
        matched.drop_last(),
        left_width,
        excluded,
    );
    if k < earlier.len() {
        unmatched_comes_from(
            buckets.drop_last(),
            matched.drop_last(),
            left_width,
            excluded,
            k,
        )
    } else {
        (buckets.len() - 1, k - earlier.len())
    }
}

proof fn matching_comes_from(
    rows: Seq<Seq<Scalar>>,
    keys: Seq<usize>,
    key: Seq<Scalar>,
    k: int,
) -> (j: int)
    requires
        0 <= k < join_table::matching(rows, keys, key).len(),
    ensures
        0 <= j < rows.len(),
        rows[j] == join_table::matching(rows, keys, key)[k],
        row_key::key_cells(rows[j], keys) == key,
    decreases rows.len(),
{
    let shorter = join_table::matching(rows.drop_last(), keys, key);
    if k < shorter.len() {
        matching_comes_from(rows.drop_last(), keys, key, k)
    } else {
        rows.len() - 1
    }
}

/// A right join emits as unmatched only what it should: every such row is a
/// right row whose key no left row matches, padded with nulls on the left.
pub proof fn right_join_emits_only_unmatched_rows(
    nulls: NullEquality,
    lefts: Seq<Seq<Scalar>>,
    left_keys: Seq<usize>,
    rights: Seq<Seq<Scalar>>,
    right_keys: Seq<usize>,
    left_width: nat,
    excluded: Set<usize>,
    k: int,
) -> (j: int)
    requires
        0 <= k < join_table::unmatched_rows(
            built(rights, right_keys),
            join_table::hits(
                nulls,
                built(rights, right_keys),
                Seq::new(built(rights, right_keys).len(), |k: int| false),
                lefts,
                left_keys,
            ),
            left_width,
            excluded,
        ).len(),
    ensures
        0 <= j < rights.len(),
        !has_partner(nulls, lefts, left_keys, row_key::key_cells(rights[j], right_keys)),
        join_table::unmatched_rows(
            built(rights, right_keys),
            join_table::hits(
                nulls,
                built(rights, right_keys),
                Seq::new(built(rights, right_keys).len(), |k: int| false),
                lefts,
                left_keys,
            ),
            left_width,
            excluded,
        )[k] == join_table::combined(join_table::null_row(left_width), rights[j], excluded),
{
    let buckets = built(rights, right_keys);
    let none = Seq::new(buckets.len(), |k: int| false);
    let matched = join_table::hits(nulls, buckets, none, lefts, left_keys);
    build_keys_distinct(rights, right_keys);
    hits_length(nulls, buckets, none, lefts, left_keys);
    let (i, r) = unmatched_comes_from(buckets, matched, left_width, excluded, k);
    hits_are_exact(nulls, buckets, lefts, left_keys, i);
    let key = buckets[i].key;
    join_table::bucket_position_hit(buckets, key);
    build_collects_matching_rows(rights, right_keys, key);
    matching_comes_from(rights, right_keys, key, r)
}

proof fn hits_length(
    nulls: NullEquality,
    buckets: Seq<Bucket>,
    before: Seq<bool>,
    lefts: Seq<Seq<Scalar>>,
    left_keys: Seq<usize>,
)
    requires
        before.len() == buckets.len(),
    ensures
        join_table::hits(nulls, buckets, before, lefts, left_keys).len() == buckets.len(),
    decreases lefts.len(),
{
    if lefts.len() > 0 {
        hits_length(nulls, buckets, before, lefts.drop_last(), left_keys);
        join_table::bucket_position_hit(buckets, row_key::key_cells(lefts.last(), left_keys));
    }
}

/// Noting hits batch after batch gives the same hits as noting them for all rows
/// at once.
pub proof fn hit_batches_concatenate(
    nulls: NullEquality,
    buckets: Seq<Bucket>,
    before: Seq<bool>,
    first: Seq<Seq<Scalar>>,
    second: Seq<Seq<Scalar>>,
    left_keys: Seq<usize>,
)
    ensures
        join_table::hits(nulls, buckets, before, first + second, left_keys) == join_table::hits(
            nulls,
            buckets,
            join_table::hits(nulls, buckets, before, first, left_keys),
            second,
            left_keys,
        ),
    decreases second.len(),
{
    if second.len() == 0 {
        assert(first + second == first);
    } else {
        assert((first + second).drop_last() == first + second.drop_last());
        hit_batches_concatenate(nulls, buckets, before, first, second.drop_last(), left_keys);
    }
}

/// The buckets after the batches of a build side.
pub open spec fn built_from_batches(
    batches: Seq<Seq<Seq<Scalar>>>,
    right_keys: Seq<usize>,
) -> Seq<Bucket>
    decreases batches.len(),
{
    if batches.len() == 0 {
        Seq::empty()
    } else {
        join_table::with_rows(
            built_from_batches(batches.drop_last(), right_keys),
            batches.last(),
            right_keys,
        )
    }
}

/// What the batches of a probe side contribute, one after the other.
pub open spec fn probed_from_batches(
    join_type: JoinType,
    nulls: NullEquality,
    buckets: Seq<Bucket>,
    batches: Seq<Seq<Seq<Scalar>>>,
    left_keys: Seq<usize>,
    right_width: nat,
    excluded: Set<usize>,
) -> Seq<Seq<Scalar>>
    decreases batches.len(),
{
    if batches.len() == 0 {
        Seq::empty()
    } else {
        probed_from_batches(
            join_type,
            nulls,
            buckets,
            batches.drop_last(),
            left_keys,
            right_width,
            excluded,
        ) + join_table::probed_rows(
            join_type,
            nulls,
            buckets,
            batches.last(),
            left_keys,
            right_width,
            excluded,
        )
    }
}

/// Which buckets the batches of a probe side hit.
pub open spec fn hit_by_batches(
    nulls: NullEquality,
    buckets: Seq<Bucket>,
    batches: Seq<Seq<Seq<Scalar>>>,
    left_keys: Seq<usize>,
) -> Seq<bool>
    decreases batches.len(),
{
    if batches.len() == 0 {
        Seq::new(buckets.len(), |k: int| false)
    } else {
        join_table::hits(
            nulls,
            buckets,
            hit_by_batches(nulls, buckets, batches.drop_last(), left_keys),
            batches.last(),
            left_keys,
        )
    }
}

/// A hash join that reads its inputs batch by batch is the nested-loop join of
/// all their rows, and the buckets it notes as hit are those that all left rows
/// together hit.
pub proof fn join_of_batches_is_nested_loop_join(
    join_type: JoinType,
    nulls: NullEquality,
    left_batches: Seq<Seq<Seq<Scalar>>>,
    left_keys: Seq<usize>,
    right_batches: Seq<Seq<Seq<Scalar>>>,
    right_keys: Seq<usize>,
    right_width: nat,
    excluded: Set<usize>,
)
    ensures
        built_from_batches(right_batches, right_keys) == built(
            batch::flattened(right_batches),
            right_keys,
        ),
        probed_from_batches(
            join_type,
            nulls,
            built_from_batches(right_batches, right_keys),
            left_batches,
            left_keys,
            right_width,
            excluded,
        ) == nested_loop_join(
            join_type,
            nulls,
            batch::flattened(left_batches),
            left_keys,
            batch::flattened(right_batches),
            right_keys,
            right_width,
            excluded,
        ),
        hit_by_batches(nulls, built_from_batches(right_batches, right_keys), left_batches, left_keys)
            == join_table::hits(
            nulls,
            built(batch::flattened(right_batches), right_keys),
            Seq::new(built(batch::flattened(right_batches), right_keys).len(), |k: int| false),
            batch::flattened(left_batches),
            left_keys,
        ),
{
    let rights = batch::flattened(right_batches);
    build_of_batches(right_batches, right_keys);
    let buckets = built(rights, right_keys);
    probe_of_batches(join_type, nulls, buckets, left_batches, left_keys, right_width, excluded);
    hits_of_batches(nulls, buckets, left_batches, left_keys);
    probe_is_nested_loop_join(
        join_type,
        nulls,
        batch::flattened(left_batches),
        left_keys,
        rights,
        right_keys,
        right_width,
        excluded,
    );
}

proof fn build_of_batches(batches: Seq<Seq<Seq<Scalar>>>, right_keys: Seq<usize>)
    ensures
        built_from_batches(batches, right_keys) == built(batch::flattened(batches), right_keys),
    decreases batches.len(),
{
    if batches.len() > 0 {
        build_of_batches(batches.drop_last(), right_keys);
        build_batches_concatenate(
            Seq::empty(),
            batch::flattened(batches.drop_last()),
            batches.last(),
            right_keys,
        );
    }
}

proof fn probe_of_batches(
    join_type: JoinType,
    nulls: NullEquality,
    buckets: Seq<Bucket>,
    batches: Seq<Seq<Seq<Scalar>>>,
    left_keys: Seq<usize>,
    right_width: nat,
    excluded: Set<usize>,
)
    ensures
        probed_from_batches(join_type, nulls, buckets, batches, left_keys, right_width, excluded)
            == join_table::probed_rows(
            join_type,
            nulls,
            buckets,
            batch::flattened(batches),
            left_keys,
            right_width,
            excluded,
        ),
    decreases batches.len(),
{
    if batches.len() > 0 {
        probe_of_batches(
            join_type,
            nulls,
            buckets,
            batches.drop_last(),
            left_keys,
            right_width,
            excluded,
        );
        probe_batches_concatenate(
            join_type,
            nulls,
            buckets,
            batch::flattened(batches.drop_last()),
            batches.last(),
            left_keys,
            right_width,
            excluded,
        );
    }
}

proof fn hits_of_batches(
    nulls: NullEquality,
    buckets: Seq<Bucket>,
    batches: Seq<Seq<Seq<Scalar>>>,
    left_keys: Seq<usize>,
)
    ensures
        hit_by_batches(nulls, buckets, batches, left_keys) == join_table::hits(
            nulls,
            buckets,
            Seq::new(buckets.len(), |k: int| false),
            batch::flattened(batches),
            left_keys,
        ),
    decreases batches.len(),
{
    if batches.len() > 0 {
        hits_of_batches(nulls, buckets, batches.drop_last(), left_keys);
        hit_batches_concatenate(
            nulls,
            buckets,
            Seq::new(buckets.len(), |k: int| false),
            batch::flattened(batches.drop_last()),
            batches.last(),
            left_keys,
        );
    }
}

/// Every joined row is as wide as the left row plus the right columns that are
/// not excluded.
pub proof fn combined_width(left: Seq<Scalar>, right: Seq<Scalar>, excluded: Set<usize>)
    ensures
        join_table::combined(left, right, excluded).len() == left.len() + join_table::kept_cells(
            join_table::null_row(right.len()),
            excluded,
        ).len(),
    decreases right.len(),
{
    if right.len() > 0 {
        combined_width(left, right.drop_last(), excluded);
        assert(join_table::null_row(right.len()).drop_last() == join_table::null_row(
            (right.len() - 1) as nat,
        ));
    } else {
        assert(join_table::null_row(right.len()) == Seq::<Scalar>::empty());
    }
}

/// Whether every row has the given number of cells.
pub open spec fn all_wide(rows: Seq<Seq<Scalar>>, width: nat) -> bool {
    forall|i: int| 0 <= i < rows.len() ==> (#[trigger] rows[i]).len() == width
}

/// Whether every row of every bucket has the given number of cells.
pub open spec fn buckets_wide(buckets: Seq<Bucket>, width: nat) -> bool {
    forall|i: int| 0 <= i < buckets.len() ==> all_wide((#[trigger] buckets[i]).rows, width)
}

/// The number of cells of a joined row.
pub open spec fn joined_width(left_width: nat, right_width: nat, excluded: Set<usize>) -> nat {
    left_width + join_table::kept_cells(join_table::null_row(right_width), excluded).len()
}

/// Adding rows of one width keeps all rows of that width.
pub proof fn build_keeps_width(
    buckets: Seq<Bucket>,
    rows: Seq<Seq<Scalar>>,
    keys: Seq<usize>,
    width: nat,
)
    requires
        buckets_wide(buckets, width),
        all_wide(rows, width),
    ensures
        buckets_wide(join_table::with_rows(buckets, rows, keys), width),
    decreases rows.len(),
{
    if rows.len() > 0 {
        let earlier = rows.drop_last();
        assert forall|i: int| 0 <= i < earlier.len() implies (#[trigger] earlier[i]).len() == width by {
            assert(rows[i].len() == width);
        }
        build_keeps_width(buckets, earlier, keys, width);
        let before = join_table::with_rows(buckets, earlier, keys);
        let key = row_key::key_cells(rows.last(), keys);
        let after = join_table::with_row(before, key, rows.last());
        join_table::bucket_position_hit(before, key);
        assert(rows[rows.len() - 1].len() == width);
        assert forall|i: int| 0 <= i < after.len() implies all_wide(
            (#[trigger] after[i]).rows,
            width,
        ) by {
            if i < before.len() {
                assert(all_wide(before[i].rows, width));
            }
        }
    }
}

/// Joining one left row with some right rows gives rows of the joined width.
proof fn combined_all_wide(
    left: Seq<Scalar>,
    rights: Seq<Seq<Scalar>>,
    right_width: nat,
    excluded: Set<usize>,
)
    requires
        all_wide(rights, right_width),
    ensures
        all_wide(
            join_table::combined_all(left, rights, excluded),
            joined_width(left.len(), right_width, excluded),
        ),
{
    let all = join_table::combined_all(left, rights, excluded);
    assert forall|i: int| 0 <= i < all.len() implies (#[trigger] all[i]).len() == joined_width(
        left.len(),
        right_width,
        excluded,
    ) by {
        assert(rights[i].len() == right_width);
        combined_width(left, rights[i], excluded);
    }
}

/// Every row that a probe emits has the joined width.
pub proof fn probe_width(
    join_type: JoinType,
    nulls: NullEquality,
    buckets: Seq<Bucket>,
    lefts: Seq<Seq<Scalar>>,
    left_keys: Seq<usize>,
    left_width: nat,
    right_width: nat,
    excluded: Set<usize>,
)
    requires
        buckets_wide(buckets, right_width),
        all_wide(lefts, left_width),
    ensures
        all_wide(
            join_table::probed_rows(
                join_type,
                nulls,
                buckets,
                lefts,
                left_keys,
                right_width,
                excluded,
            ),
            joined_width(left_width, right_width, excluded),
        ),
    decreases lefts.len(),
{
    if lefts.len() > 0 {
        let earlier = lefts.drop_last();
        assert forall|i: int| 0 <= i < earlier.len() implies (#[trigger] earlier[i]).len()
            == left_width by {
            assert(lefts[i].len() == left_width);
        }
        probe_width(
            join_type,
            nulls,
            buckets,
            earlier,
            left_keys,
            left_width,
            right_width,
            excluded,
        );
        let left = lefts.last();
        assert(lefts[lefts.len() - 1].len() == left_width);
        let key = row_key::key_cells(left, left_keys);
        join_table::bucket_position_hit(buckets, key);
        match join_table::partner_position(nulls, buckets, key) {
            Some(i) => {
                assert(all_wide(buckets[i].rows, right_width));
                combined_all_wide(left, buckets[i].rows, right_width, excluded);
            },
            None => {
                combined_width(left, join_table::null_row(right_width), excluded);
            },
        }
    }
}

/// Every row that a right join emits as unmatched has the joined width.
pub proof fn unmatched_width(
    buckets: Seq<Bucket>,
    matched: Seq<bool>,
    left_width: nat,
    right_width: nat,
    excluded: Set<usize>,
)
    requires
        buckets_wide(buckets, right_width),
    ensures
        all_wide(
            join_table::unmatched_rows(buckets, matched, left_width, excluded),
            joined_width(left_width, right_width, excluded),
        ),
    decreases buckets.len(),
{
    if buckets.len() > 0 {
        let earlier = buckets.drop_last();
        assert forall|i: int| 0 <= i < earlier.len() implies all_wide(
            (#[trigger] earlier[i]).rows,
            right_width,
        ) by {
            assert(all_wide(buckets[i].rows, right_width));
        }
        unmatched_width(earlier, matched.drop_last(), left_width, right_width, excluded);
        assert(all_wide(buckets[buckets.len() - 1].rows, right_width));
        combined_all_wide(
            join_table::null_row(left_width),
            buckets.last().rows,
            right_width,
            excluded,
        );
    }
}

} // verus!
