//! The build and probe steps of the hash join.
//!
//! The build side is kept in buckets, one per distinct key in the order in
//! which the keys were first seen; each bucket holds its rows in input order.
use vstd::prelude::*;
use std::collections::HashSet;
use crate::batch::RecordBatch;
use crate::hash_join_exec::NullEquality;
use crate::row_key::{key_of, RowKey};
use crate::scalar::{copy_cells, Scalar, ScalarValue};
use crate::{batch, row_key, scalar};

verus! {

/// How the rows of two inputs are paired.
#[derive(Clone, Copy, Debug, PartialEq, Eq, Structural)]
pub enum JoinType {
    Inner,
    Left,
    Right,
    Full,
    LeftSemi,
    RightSemi,
    LeftAnti,
    RightAnti,
    LeftMark,
    RightMark,
}

impl JoinType {
    /// The name of the join type.
    pub open spec fn spec_name(self) -> Seq<char> {
        match self {
            JoinType::Inner => "Inner"@,
            JoinType::Left => "Left"@,
            JoinType::Right => "Right"@,
            JoinType::Full => "Full"@,
            JoinType::LeftSemi => "LeftSemi"@,
            JoinType::RightSemi => "RightSemi"@,
            JoinType::LeftAnti => "LeftAnti"@,
            JoinType::RightAnti => "RightAnti"@,
            JoinType::LeftMark => "LeftMark"@,
            JoinType::RightMark => "RightMark"@,
        }
    }

    /// The name of the join type.
    pub fn name(&self) -> (r: &'static str)
        ensures
            r@ == self.spec_name(),
    {
        match self {
            JoinType::Inner => "Inner",
            JoinType::Left => "Left",
            JoinType::Right => "Right",
            JoinType::Full => "Full",
            JoinType::LeftSemi => "LeftSemi",
            JoinType::RightSemi => "RightSemi",
            JoinType::LeftAnti => "LeftAnti",
            JoinType::RightAnti => "RightAnti",
            JoinType::LeftMark => "LeftMark",
            JoinType::RightMark => "RightMark",
        }
    }
}

/// The rows of the build side that share one key.
pub struct Bucket {
    pub key: Seq<Scalar>,
    pub rows: Seq<Seq<Scalar>>,
}

/// The position of the bucket of `key`, if there is one.
pub open spec fn bucket_position(buckets: Seq<Bucket>, key: Seq<Scalar>) -> Option<int>
    decreases buckets.len(),
{
    if buckets.len() == 0 {
        None
    } else if buckets.last().key == key {
        Some(buckets.len() - 1)
    } else {
        bucket_position(buckets.drop_last(), key)
    }
}

/// The rows that share `key`: those of its bucket, or none.
pub open spec fn bucket_rows(buckets: Seq<Bucket>, key: Seq<Scalar>) -> Option<Seq<Seq<Scalar>>> {
    match bucket_position(buckets, key) {
        Some(i) => Some(buckets[i].rows),
        None => None,
    }
}

/// The buckets after one more row of the build side.
pub open spec fn with_row(buckets: Seq<Bucket>, key: Seq<Scalar>, row: Seq<Scalar>) -> Seq<Bucket> {
    match bucket_position(buckets, key) {
        Some(i) => buckets.update(i, Bucket { key, rows: buckets[i].rows.push(row) }),
        None => buckets.push(Bucket { key, rows: seq![row] }),
    }
}

/// The buckets after some more rows of the build side, keyed by `keys`.
pub open spec fn with_rows(
    buckets: Seq<Bucket>,
    rows: Seq<Seq<Scalar>>,
    keys: Seq<usize>,
) -> Seq<Bucket>
    decreases rows.len(),
{
    if rows.len() == 0 {
        buckets
    } else {
        with_row(
            with_rows(buckets, rows.drop_last(), keys),
            row_key::key_cells(rows.last(), keys),
            rows.last(),
        )
    }
}

/// The rows of `rows` whose key is `key`, in order.
pub open spec fn matching(
    rows: Seq<Seq<Scalar>>,
    keys: Seq<usize>,
    key: Seq<Scalar>,
) -> Seq<Seq<Scalar>>
    decreases rows.len(),
{
    if rows.len() == 0 {
        seq![]
    } else if row_key::key_cells(rows.last(), keys) == key {
        matching(rows.drop_last(), keys, key).push(rows.last())
    } else {
        matching(rows.drop_last(), keys, key)
    }
}

/// The cells of a row whose positions are not excluded, in order.
pub open spec fn kept_cells(row: Seq<Scalar>, excluded: Set<usize>) -> Seq<Scalar>
    decreases row.len(),
{
    if row.len() == 0 {
        seq![]
    } else if excluded.contains((row.len() - 1) as usize) {
        kept_cells(row.drop_last(), excluded)
    } else {
        kept_cells(row.drop_last(), excluded).push(row.last())
    }
}

/// A joined row: the left row, then the right row without the excluded columns.
pub open spec fn combined(left: Seq<Scalar>, right: Seq<Scalar>, excluded: Set<usize>) -> Seq<
    Scalar,
> {
    left + kept_cells(right, excluded)
}

/// A row of `n` nulls.
pub open spec fn null_row(n: nat) -> Seq<Scalar> {
    Seq::new(n, |i: int| Scalar::Null)
}

/// The left row joined with each of the right rows.
pub open spec fn combined_all(
    left: Seq<Scalar>,
    rights: Seq<Seq<Scalar>>,
    excluded: Set<usize>,
) -> Seq<Seq<Scalar>> {
    Seq::new(rights.len(), |i: int| combined(left, rights[i], excluded))
}

/// The nulls on the left joined with each of the right rows.
pub open spec fn null_combined_all(
    left_width: nat,
    rights: Seq<Seq<Scalar>>,
    excluded: Set<usize>,
) -> Seq<Seq<Scalar>> {
    combined_all(null_row(left_width), rights, excluded)
}

/// Whether a key can match another: a key with a null matches nothing, unless
/// nulls equal each other.
pub open spec fn can_match(nulls: NullEquality, key: Seq<Scalar>) -> bool {
    nulls == NullEquality::NullEqualsNull || !key.contains(Scalar::Null)
}

/// The position of the bucket that a probe key matches, if there is one.
pub open spec fn partner_position(
    nulls: NullEquality,
    buckets: Seq<Bucket>,
    key: Seq<Scalar>,
) -> Option<int> {
    if can_match(nulls, key) {
        bucket_position(buckets, key)
    } else {
        None
    }
}

/// The build rows that a probe key matches, in order: those with the same key,
/// and none where the key cannot match.
pub open spec fn partners(
    nulls: NullEquality,
    rows: Seq<Seq<Scalar>>,
    keys: Seq<usize>,
    key: Seq<Scalar>,
) -> Seq<Seq<Scalar>> {
    if can_match(nulls, key) {
        matching(rows, keys, key)
    } else {
        seq![]
    }
}

/// What one probe row contributes: one output row per matching build row, and
/// for a left join one row padded with nulls when nothing matches.
pub open spec fn probed_row(
    join_type: JoinType,
    nulls: NullEquality,
    buckets: Seq<Bucket>,
    left: Seq<Scalar>,
    left_keys: Seq<usize>,
    right_width: nat,
    excluded: Set<usize>,
) -> Seq<Seq<Scalar>> {
    match partner_position(nulls, buckets, row_key::key_cells(left, left_keys)) {
        Some(i) => combined_all(left, buckets[i].rows, excluded),
        None => if join_type == JoinType::Left {
            seq![combined(left, null_row(right_width), excluded)]
        } else {
            seq![]
        },
    }
}

/// What some probe rows contribute, in order.
pub open spec fn probed_rows(
    join_type: JoinType,
    nulls: NullEquality,
    buckets: Seq<Bucket>,
    lefts: Seq<Seq<Scalar>>,
    left_keys: Seq<usize>,
    right_width: nat,
    excluded: Set<usize>,
) -> Seq<Seq<Scalar>>
    decreases lefts.len(),
{
    if lefts.len() == 0 {
        seq![]
    } else {
        probed_rows(join_type, nulls, buckets, lefts.drop_last(), left_keys, right_width, excluded)
            + probed_row(join_type, nulls, buckets, lefts.last(), left_keys, right_width, excluded)
    }
}

/// Which buckets have been hit, after the given probe rows.
pub open spec fn hits(
    nulls: NullEquality,
    buckets: Seq<Bucket>,
    before: Seq<bool>,
    lefts: Seq<Seq<Scalar>>,
    left_keys: Seq<usize>,
) -> Seq<bool>
    decreases lefts.len(),
{
    if lefts.len() == 0 {
        before
    } else {
        let earlier = hits(nulls, buckets, before, lefts.drop_last(), left_keys);
        match partner_position(nulls, buckets, row_key::key_cells(lefts.last(), left_keys)) {
            Some(i) => earlier.update(i, true),
            None => earlier,
        }
    }
}

/// The rows of the buckets that were never hit, padded with nulls on the left.
pub open spec fn unmatched_rows(
    buckets: Seq<Bucket>,
    matched: Seq<bool>,
    left_width: nat,
    excluded: Set<usize>,
) -> Seq<Seq<Scalar>>
    decreases buckets.len(),
{
    if buckets.len() == 0 {
        seq![]
    } else {
        let earlier = unmatched_rows(
            buckets.drop_last(),
            matched.drop_last(),
            left_width,
            excluded,
        );
        if matched.last() {
            earlier
        } else {
            earlier + null_combined_all(left_width, buckets.last().rows, excluded)
        }
    }
}

/// The build side of a hash join.
#[derive(Debug)]
pub struct JoinHashTable {
    pub keys: Vec<RowKey>,
    pub rows: Vec<Vec<Vec<ScalarValue>>>,
}

impl View for JoinHashTable {
    type V = Seq<Bucket>;

    open spec fn view(&self) -> Seq<Bucket> {
        Seq::new(
            self.keys@.len(),
            |i: int| Bucket { key: self.keys@[i]@, rows: scalar::rows_of(self.rows@[i]@) },
        )
    }
}

/// Concatenates a left row with a right row, without the excluded columns of
/// the right row.
pub fn combine_rows(
    left_row: &Vec<ScalarValue>,
    right_row: &Vec<ScalarValue>,
    right_columns_to_exclude: &HashSet<usize>,
) -> (r: Vec<ScalarValue>)
    ensures
        scalar::cells(r@) == combined(
            scalar::cells(left_row@),
            scalar::cells(right_row@),
            right_columns_to_exclude@,
        ),
{
    broadcast use vstd::std_specs::hash::group_hash_axioms;

    let mut result: Vec<ScalarValue> = copy_cells(left_row);
    let ghost left = scalar::cells(left_row@);
    let ghost right = scalar::cells(right_row@);
    let mut i: usize = 0;
    assert(right.take(0) == Seq::<Scalar>::empty());
    while i < right_row.len()
        invariant
            i <= right_row.len(),
            right == scalar::cells(right_row@),
            scalar::cells(result@) == left + kept_cells(
                right.take(i as int),
                right_columns_to_exclude@,
            ),
        decreases right_row.len() - i,
    {
        broadcast use vstd::std_specs::hash::group_hash_axioms;

        let ghost before = result@;
        assert(right.take(i + 1).drop_last() == right.take(i as int));
        assert(right.take(i + 1).last() == right_row@[i as int]@);
        if !right_columns_to_exclude.contains(&i) {
            result.push(right_row[i].clone());
            assert(scalar::cells(result@) == scalar::cells(before).push(right_row@[i as int]@));
        }
        i += 1;
        assert(scalar::cells(result@) == left + kept_cells(
            right.take(i as int),
            right_columns_to_exclude@,
        ));
    }
    assert(right.take(i as int) == right);
    result
}

/// A row of `n` nulls.
fn row_of_nulls(n: usize) -> (r: Vec<ScalarValue>)
    ensures
        scalar::cells(r@) == null_row(n as nat),
{
    let mut r: Vec<ScalarValue> = Vec::new();
    let mut i: usize = 0;
    while i < n
        invariant
            i <= n,
            r.len() == i,
            forall|j: int| 0 <= j < i ==> (#[trigger] r@[j])@ == Scalar::Null,
        decreases n - i,
    {
        r.push(ScalarValue::Null);
        i += 1;
    }
    assert(scalar::cells(r@) == null_row(n as nat));
    r
}

/// Appends `left` joined with each of `rights`.
fn push_combined(
    output: &mut Vec<Vec<ScalarValue>>,
    left: &Vec<ScalarValue>,
    rights: &Vec<Vec<ScalarValue>>,
    excluded: &HashSet<usize>,
)
    ensures
        scalar::rows_of(final(output)@) == scalar::rows_of(old(output)@) + combined_all(
            scalar::cells(left@),
            scalar::rows_of(rights@),
            excluded@,
        ),
{
    let ghost want = combined_all(scalar::cells(left@), scalar::rows_of(rights@), excluded@);
    let mut i: usize = 0;
    while i < rights.len()
        invariant
            i <= rights.len(),
            want == combined_all(scalar::cells(left@), scalar::rows_of(rights@), excluded@),
            scalar::rows_of(output@) == scalar::rows_of(old(output)@) + want.take(i as int),
        decreases rights.len() - i,
    {
        let ghost before = output@;
        output.push(combine_rows(left, &rights[i], excluded));
        assert(scalar::rows_of(output@) == scalar::rows_of(before).push(want[i as int]));
        i += 1;
        assert(scalar::rows_of(output@) == scalar::rows_of(old(output)@) + want.take(i as int));
    }
    assert(want.take(i as int) == want);
}

impl JoinHashTable {
    /// One list of rows per key.
    pub open spec fn wf(&self) -> bool {
        self.keys@.len() == self.rows@.len()
    }

    /// An empty table.
    pub fn new() -> (r: JoinHashTable)
        ensures
            r.wf(),
            r@ == Seq::<Bucket>::empty(),
    {
        let r = JoinHashTable { keys: Vec::new(), rows: Vec::new() };
        assert(r@ == Seq::<Bucket>::empty());
        r
    }

    /// The position of the bucket of `key`, if there is one.
    pub fn position(&self, key: &RowKey) -> (r: Option<usize>)
        requires
            self.wf(),
        ensures
            match r {
                Some(i) => bucket_position(self@, key@) == Some(i as int) && i < self@.len(),
                None => bucket_position(self@, key@) is None,
            },
    {
        let mut n: usize = self.keys.len();
        assert(self@.take(n as int) == self@);
        while n > 0
            invariant
                self.wf(),
                n <= self@.len(),
                self@.len() == self.keys@.len(),
                bucket_position(self@, key@) == bucket_position(self@.take(n as int), key@),
            decreases n,
        {
            let i: usize = n - 1;
            assert(self@.take(n as int).drop_last() == self@.take(i as int));
            assert(self@.take(n as int).last() == self@[i as int]);
            if self.keys[i] == *key {
                return Some(i);
            }
            n = i;
        }
        assert(self@.take(0).len() == 0);
        None
    }

    /// Adds one row of the build side.
    pub fn insert(&mut self, key: RowKey, row: Vec<ScalarValue>)
        requires
            old(self).wf(),
        ensures
            final(self).wf(),
            final(self)@ == with_row(old(self)@, key@, scalar::cells(row@)),
    {
        match self.position(&key) {
            Some(i) => {
                let ghost before = self.rows@[i as int]@;
                let mut bucket: Vec<Vec<ScalarValue>> = Vec::new();
                std::mem::swap(&mut bucket, &mut self.rows[i]);
                bucket.push(row);
                std::mem::swap(&mut bucket, &mut self.rows[i]);
                proof {
                    bucket_position_hit(old(self)@, key@);
                    assert(scalar::rows_of(self.rows@[i as int]@) == scalar::rows_of(before).push(
                        scalar::cells(row@),
                    ));
                    assert(self@ == with_row(old(self)@, key@, scalar::cells(row@)));
                }
            },
            None => {
                let ghost k = key@;
                let ghost c = scalar::cells(row@);
                let mut bucket: Vec<Vec<ScalarValue>> = Vec::new();
                bucket.push(row);
                assert(scalar::rows_of(bucket@) == seq![c]);
                self.keys.push(key);
                self.rows.push(bucket);
                assert(self@ == with_row(old(self)@, k, c));
            },
        }
    }

    /// Adds every row of a batch of the build side, keyed by `keys`.
    pub fn insert_batch(&mut self, batch: &RecordBatch, keys: &Vec<usize>)
        requires
            old(self).wf(),
            batch.wf(),
            batch.num_rows > 0 ==> forall|i: int|
                0 <= i < keys@.len() ==> (#[trigger] keys@[i]) < batch.columns@.len(),
        ensures
            final(self).wf(),
            final(self)@ == with_rows(old(self)@, batch.rows(), keys@),
    {
        let mut row: usize = 0;
        assert(batch.rows().take(0) == Seq::<Seq<Scalar>>::empty());
        while row < batch.num_rows
            invariant
                self.wf(),
                batch.wf(),
                batch.num_rows > 0 ==> forall|i: int|
                    0 <= i < keys@.len() ==> (#[trigger] keys@[i]) < batch.columns@.len(),
                row <= batch.num_rows,
                self@ == with_rows(old(self)@, batch.rows().take(row as int), keys@),
            decreases batch.num_rows - row,
        {
            let key = key_of(batch, keys, row);
            let cells = batch.full_row(row);
            self.insert(key, cells);
            assert(batch.rows().take(row + 1).drop_last() == batch.rows().take(row as int));
            assert(batch.rows().take(row + 1).last() == batch.rows()[row as int]);
            row += 1;
        }
        assert(batch.rows().take(row as int) == batch.rows());
    }

    /// The position of the bucket that a probe key matches, if there is one.
    pub fn partner(&self, nulls: NullEquality, key: &RowKey) -> (r: Option<usize>)
        requires
            self.wf(),
        ensures
            match r {
                Some(i) => partner_position(nulls, self@, key@) == Some(i as int) && i < self@.len(),
                None => partner_position(nulls, self@, key@) is None,
            },
    {
        if nulls == NullEquality::NullEqualsNothing && key.has_null() {
            return None;
        }
        self.position(key)
    }

    /// Joins every row of a batch of the probe side.
    pub fn probe_batch(
        &self,
        join_type: JoinType,
        nulls: NullEquality,
        batch: &RecordBatch,
        left_keys: &Vec<usize>,
        right_width: usize,
        excluded: &HashSet<usize>,
    ) -> (r: Vec<Vec<ScalarValue>>)
        requires
            self.wf(),
            batch.wf(),
            batch.num_rows > 0 ==> forall|i: int|
                0 <= i < left_keys@.len() ==> (#[trigger] left_keys@[i]) < batch.columns@.len(),
        ensures
            scalar::rows_of(r@) == probed_rows(
                join_type,
                nulls,
                self@,
                batch.rows(),
                left_keys@,
                right_width as nat,
                excluded@,
            ),
    {
        let mut output: Vec<Vec<ScalarValue>> = Vec::new();
        let mut row: usize = 0;
        assert(batch.rows().take(0) == Seq::<Seq<Scalar>>::empty());
        assert(scalar::rows_of(output@) == Seq::<Seq<Scalar>>::empty());
        while row < batch.num_rows
            invariant
                self.wf(),
                batch.wf(),
                batch.num_rows > 0 ==> forall|i: int|
                    0 <= i < left_keys@.len() ==> (#[trigger] left_keys@[i]) < batch.columns@.len(),
                row <= batch.num_rows,
                scalar::rows_of(output@) == probed_rows(
                    join_type,
                    nulls,
                    self@,
                    batch.rows().take(row as int),
                    left_keys@,
                    right_width as nat,
                    excluded@,
                ),
            decreases batch.num_rows - row,
        {
            let ghost before = scalar::rows_of(output@);
            let ghost left = batch.rows()[row as int];
            let key = key_of(batch, left_keys, row);
            let left_row = batch.full_row(row);
            match self.partner(nulls, &key) {
                Some(i) => {
                    push_combined(&mut output, &left_row, &self.rows[i], excluded);
                    assert(self@[i as int].rows == scalar::rows_of(self.rows@[i as int]@));
                    assert(scalar::rows_of(output@) == before + probed_row(
                        join_type,
                        nulls,
                        self@,
                        left,
                        left_keys@,
                        right_width as nat,
                        excluded@,
                    ));
                },
                None => {
                    if join_type == JoinType::Left {
                        let null_right = row_of_nulls(right_width);
                        let ghost prior = output@;
                        output.push(combine_rows(&left_row, &null_right, excluded));
                        assert(scalar::rows_of(output@) == scalar::rows_of(prior).push(
                            combined(left, null_row(right_width as nat), excluded@),
                        ));
                    }
                    assert(scalar::rows_of(output@) == before + probed_row(
                        join_type,
                        nulls,
                        self@,
                        left,
                        left_keys@,
                        right_width as nat,
                        excluded@,
                    ));
                },
            }
            assert(batch.rows().take(row + 1).drop_last() == batch.rows().take(row as int));
            assert(batch.rows().take(row + 1).last() == left);
            row += 1;
        }
        assert(batch.rows().take(row as int) == batch.rows());
        output
    }

    /// Marks the buckets that the rows of a batch of the probe side hit.
    pub fn note_hits(
        &self,
        nulls: NullEquality,
        matched: &mut Vec<bool>,
        batch: &RecordBatch,
        left_keys: &Vec<usize>,
    )
        requires
            self.wf(),
            old(matched)@.len() == self@.len(),
            batch.wf(),
            batch.num_rows > 0 ==> forall|i: int|
                0 <= i < left_keys@.len() ==> (#[trigger] left_keys@[i]) < batch.columns@.len(),
        ensures
            final(matched)@.len() == self@.len(),
            final(matched)@ == hits(nulls, self@, old(matched)@, batch.rows(), left_keys@),
    {
        let mut row: usize = 0;
        assert(batch.rows().take(0) == Seq::<Seq<Scalar>>::empty());
        while row < batch.num_rows
            invariant
                self.wf(),
                matched@.len() == self@.len(),
                batch.wf(),
                batch.num_rows > 0 ==> forall|i: int|
                    0 <= i < left_keys@.len() ==> (#[trigger] left_keys@[i]) < batch.columns@.len(),
                row <= batch.num_rows,
                matched@ == hits(nulls, self@, old(matched)@, batch.rows().take(row as int), left_keys@),
            decreases batch.num_rows - row,
        {
            let key = key_of(batch, left_keys, row);
            assert(batch.rows().take(row + 1).drop_last() == batch.rows().take(row as int));
            assert(batch.rows().take(row + 1).last() == batch.rows()[row as int]);
            if let Some(i) = self.partner(nulls, &key) {
                matched[i] = true;
            }
            row += 1;
            assert(matched@ == hits(
                nulls,
                self@,
                old(matched)@,
                batch.rows().take(row as int),
                left_keys@,
            ));
        }
        assert(batch.rows().take(row as int) == batch.rows());
    }

    /// The rows of the buckets that were never hit, padded with nulls on the
    /// left.
    pub fn unmatched(&self, matched: &Vec<bool>, left_width: usize, excluded: &HashSet<usize>) -> (r:
        Vec<Vec<ScalarValue>>)
        requires
            self.wf(),
            matched@.len() == self@.len(),
        ensures
            scalar::rows_of(r@) == unmatched_rows(
                self@,
                matched@,
                left_width as nat,
                excluded@,
            ),
    {
        let mut output: Vec<Vec<ScalarValue>> = Vec::new();
        let null_left = row_of_nulls(left_width);
        let mut i: usize = 0;
        assert(scalar::rows_of(output@) == Seq::<Seq<Scalar>>::empty());
        while i < self.keys.len()
            invariant
                self.wf(),
                matched@.len() == self@.len(),
                self@.len() == self.keys@.len(),
                scalar::cells(null_left@) == null_row(left_width as nat),
                i <= self.keys.len(),
                scalar::rows_of(output@) == unmatched_rows(
                    self@.take(i as int),
                    matched@.take(i as int),
                    left_width as nat,
                    excluded@,
                ),
            decreases self.keys.len() - i,
        {
            assert(self@.take(i + 1).drop_last() == self@.take(i as int));
            assert(matched@.take(i + 1).drop_last() == matched@.take(i as int));
            assert(self@.take(i + 1).last() == self@[i as int]);
            if !matched[i] {
                push_combined(&mut output, &null_left, &self.rows[i], excluded);
            }
            i += 1;
        }
        assert(self@.take(i as int) == self@);
        assert(matched@.take(i as int) == matched@);
        output
    }
}

/// The position found for a key is in range and holds that key.
pub proof fn bucket_position_hit(buckets: Seq<Bucket>, key: Seq<Scalar>)
    ensures
        match bucket_position(buckets, key) {
            Some(i) => 0 <= i < buckets.len() && buckets[i].key == key,
            None => forall|i: int| 0 <= i < buckets.len() ==> (#[trigger] buckets[i]).key != key,
        },
    decreases buckets.len(),
{
    if buckets.len() > 0 && buckets.last().key != key {
        bucket_position_hit(buckets.drop_last(), key);
        assert forall|i: int|
            bucket_position(buckets, key) is None && 0 <= i < buckets.len() implies (
        #[trigger] buckets[i]).key != key by {
            if i < buckets.len() - 1 {
                assert(buckets.drop_last()[i] == buckets[i]);
            }
        }
    }
}

} // verus!
