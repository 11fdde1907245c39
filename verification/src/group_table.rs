//! The groups of an aggregation.
//!
//! Groups are numbered in the order in which their keys first occur.
use vstd::prelude::*;
use crate::row_key::RowKey;
use crate::scalar::{Scalar, ScalarValue};
use crate::batch;

verus! {

/// The number of the group of `key`, if it has been seen.
pub open spec fn group_number(groups: Seq<Seq<Scalar>>, key: Seq<Scalar>) -> Option<int>
    decreases groups.len(),
{
    if groups.len() == 0 {
        None
    } else if groups.last() == key {
        Some(groups.len() - 1)
    } else {
        group_number(groups.drop_last(), key)
    }
}

/// The groups once `key` has been seen.
pub open spec fn with_group(groups: Seq<Seq<Scalar>>, key: Seq<Scalar>) -> Seq<Seq<Scalar>> {
    match group_number(groups, key) {
        Some(_) => groups,
        None => groups.push(key),
    }
}

/// The groups once all of `keys` have been seen, in order.
pub open spec fn with_groups(groups: Seq<Seq<Scalar>>, keys: Seq<Seq<Scalar>>) -> Seq<Seq<Scalar>>
    decreases keys.len(),
{
    if keys.len() == 0 {
        groups
    } else {
        with_group(with_groups(groups, keys.drop_last()), keys.last())
    }
}

/// No key occurs twice.
pub open spec fn groups_distinct(groups: Seq<Seq<Scalar>>) -> bool {
    forall|i: int, j: int|
        0 <= i < j < groups.len() ==> (#[trigger] groups[i]) != (#[trigger] groups[j])
}

/// A number that was found is that of the key.
pub proof fn group_number_hit(groups: Seq<Seq<Scalar>>, key: Seq<Scalar>)
    ensures
        match group_number(groups, key) {
            Some(i) => 0 <= i < groups.len() && groups[i] == key,
            None => forall|i: int| 0 <= i < groups.len() ==> (#[trigger] groups[i]) != key,
        },
    decreases groups.len(),
{
    if groups.len() > 0 {
        let shorter = groups.drop_last();
        group_number_hit(shorter, key);
        if group_number(groups, key) is None {
            assert forall|i: int| 0 <= i < groups.len() implies (#[trigger] groups[i]) != key by {
                if i < groups.len() - 1 {
                    assert(shorter[i] == groups[i]);
                }
            }
        }
    }
}

/// Seeing a further key does not renumber a group.
pub proof fn with_group_keeps_number(
    groups: Seq<Seq<Scalar>>,
    added: Seq<Scalar>,
    key: Seq<Scalar>,
)
    ensures
        match group_number(groups, key) {
            Some(i) => group_number(with_group(groups, added), key) == Some(i),
            None => key != added ==> group_number(with_group(groups, added), key) is None,
        },
        group_number(with_group(groups, added), added) is Some,
{
    if group_number(groups, added) is None {
        let longer = groups.push(added);
        assert(longer.drop_last() == groups);
        group_number_hit(groups, key);
    }
}

/// Groups stay distinct, and stay where they are.
pub proof fn with_groups_grow(groups: Seq<Seq<Scalar>>, keys: Seq<Seq<Scalar>>)
    requires
        groups_distinct(groups),
    ensures
        groups_distinct(with_groups(groups, keys)),
        groups.len() <= with_groups(groups, keys).len(),
        forall|i: int|
            0 <= i < groups.len() ==> (#[trigger] with_groups(groups, keys)[i]) == groups[i],
    decreases keys.len(),
{
    if keys.len() > 0 {
        with_groups_grow(groups, keys.drop_last());
        group_number_hit(with_groups(groups, keys.drop_last()), keys.last());
    }
}

/// Every key that has been seen has a group.
pub proof fn every_key_has_a_group(groups: Seq<Seq<Scalar>>, keys: Seq<Seq<Scalar>>, i: int)
    requires
        0 <= i < keys.len(),
    ensures
        group_number(with_groups(groups, keys), keys[i]) is Some,
    decreases keys.len(),
{
    let before = with_groups(groups, keys.drop_last());
    if i < keys.len() - 1 {
        every_key_has_a_group(groups, keys.drop_last(), i);
        assert(keys.drop_last()[i] == keys[i]);
    }
    with_group_keeps_number(before, keys.last(), keys[i]);
}

/// Every group is the key of some row.
pub proof fn every_group_has_a_key(keys: Seq<Seq<Scalar>>, g: int) -> (i: int)
    requires
        0 <= g < with_groups(seq![], keys).len(),
    ensures
        0 <= i < keys.len(),
        keys[i] == with_groups(seq![], keys)[g],
    decreases keys.len(),
{
    let before = with_groups(seq![], keys.drop_last());
    if g < before.len() {
        let i = every_group_has_a_key(keys.drop_last(), g);
        assert(keys.drop_last()[i] == keys[i]);
        i
    } else {
        keys.len() - 1
    }
}

/// Two rows are in one group exactly where their keys are the same.
pub proof fn same_group_iff_same_key(keys: Seq<Seq<Scalar>>, i: int, j: int)
    requires
        0 <= i < keys.len(),
        0 <= j < keys.len(),
    ensures
        group_number(with_groups(seq![], keys), keys[i]) == group_number(
            with_groups(seq![], keys),
            keys[j],
        ) <==> keys[i] == keys[j],
{
    every_key_has_a_group(seq![], keys, i);
    every_key_has_a_group(seq![], keys, j);
    group_number_hit(with_groups(seq![], keys), keys[i]);
    group_number_hit(with_groups(seq![], keys), keys[j]);
}

/// Seeing keys batch after batch gives the same groups as seeing them all at
/// once.
pub proof fn group_batches_concatenate(
    groups: Seq<Seq<Scalar>>,
    first: Seq<Seq<Scalar>>,
    second: Seq<Seq<Scalar>>,
)
    ensures
        with_groups(groups, first + second) == with_groups(with_groups(groups, first), second),
    decreases second.len(),
{
    if second.len() == 0 {
        assert(first + second == first);
    } else {
        assert((first + second).drop_last() == first + second.drop_last());
        group_batches_concatenate(groups, first, second.drop_last());
    }
}

/// The keys of the groups seen so far.
#[derive(Debug)]
pub struct GroupTable {
    pub keys: Vec<RowKey>,
}

impl View for GroupTable {
    type V = Seq<Seq<Scalar>>;

    open spec fn view(&self) -> Seq<Seq<Scalar>> {
        Seq::new(self.keys@.len(), |i: int| self.keys@[i]@)
    }
}

/// Row `row` of some columns.
pub fn key_at(columns: &Vec<Vec<ScalarValue>>, row: usize) -> (r: RowKey)
    requires
        forall|c: int| 0 <= c < columns@.len() ==> row < (#[trigger] columns@[c])@.len(),
    ensures
        r@ == batch::row_at(columns@, row as int),
{
    let mut cells: Vec<ScalarValue> = Vec::new();
    let mut c: usize = 0;
    while c < columns.len()
        invariant
            forall|c: int| 0 <= c < columns@.len() ==> row < (#[trigger] columns@[c])@.len(),
            c <= columns.len(),
            cells.len() == c,
            forall|k: int| 0 <= k < c ==> (#[trigger] cells@[k])@ == columns@[k]@[row as int]@,
        decreases columns.len() - c,
    {
        assert(row < columns@[c as int]@.len());
        cells.push(columns[c][row].clone());
        c += 1;
    }
    let r = RowKey(cells);
    assert(r@ == batch::row_at(columns@, row as int));
    r
}

impl GroupTable {
    /// No groups.
    pub fn new() -> (r: Self)
        ensures
            r@ == Seq::<Seq<Scalar>>::empty(),
    {
        let r = GroupTable { keys: Vec::new() };
        assert(r@ == Seq::<Seq<Scalar>>::empty());
        r
    }

    /// How many groups there are.
    pub fn len(&self) -> (r: usize)
        ensures
            r == self@.len(),
    {
        self.keys.len()
    }

    /// The number of the group of a key, which is made where there is none.
    pub fn assign(&mut self, key: RowKey) -> (r: usize)
        ensures
            final(self)@ == with_group(old(self)@, key@),
            group_number(final(self)@, key@) == Some(r as int),
            r < final(self)@.len(),
    {
        let ghost k = key@;
        let mut n: usize = self.keys.len();
        assert(self@.take(n as int) == self@);
        while n > 0
            invariant
                *self == *old(self),
                k == key@,
                n <= self@.len(),
                self@.len() == self.keys@.len(),
                group_number(self@, k) == group_number(self@.take(n as int), k),
            decreases n,
        {
            let i: usize = n - 1;
            assert(self@.take(n as int).drop_last() == self@.take(i as int));
            assert(self@.take(n as int).last() == self@[i as int]);
            if self.keys[i] == key {
                return i;
            }
            n = i;
        }
        assert(self@.take(0).len() == 0);
        let r: usize = self.keys.len();
        self.keys.push(key);
        assert(self@ == old(self)@.push(k));
        assert(self@.drop_last() == old(self)@);
        r
    }

    /// The number of the group of each row, whose key is given by columns.
    pub fn assign_rows(&mut self, columns: &Vec<Vec<ScalarValue>>, num_rows: usize) -> (r: Vec<
        usize,
    >)
        requires
            groups_distinct(old(self)@),
            batch::all_of_length(columns@, num_rows as int),
        ensures
            groups_distinct(final(self)@),
            final(self)@ == with_groups(
                old(self)@,
                batch::table_rows(columns@, num_rows as nat),
            ),
            r@.len() == num_rows,
            forall|i: int|
                0 <= i < num_rows ==> (#[trigger] r@[i]) < final(self)@.len() && Some(
                    r@[i] as int,
                ) == group_number(final(self)@, batch::row_at(columns@, i)),
    {
        let ghost all = batch::table_rows(columns@, num_rows as nat);
        let mut r: Vec<usize> = Vec::new();
        let mut row: usize = 0;
        assert(all.take(0) == Seq::<Seq<Scalar>>::empty());
        while row < num_rows
            invariant
                batch::all_of_length(columns@, num_rows as int),
                all == batch::table_rows(columns@, num_rows as nat),
                groups_distinct(self@),
                row <= num_rows,
                self@ == with_groups(old(self)@, all.take(row as int)),
                r@.len() == row,
                forall|i: int|
                    0 <= i < row ==> (#[trigger] r@[i]) < self@.len() && Some(r@[i] as int)
                        == group_number(self@, batch::row_at(columns@, i)),
            decreases num_rows - row,
        {
            let ghost before = self@;
            let ghost seen = r@;
            let key = key_at(columns, row);
            let ghost k = key@;
            let slot: usize = self.assign(key);
            r.push(slot);
            proof {
                assert(all.take(row + 1).drop_last() == all.take(row as int));
                assert(all.take(row + 1).last() == k);
                group_number_hit(before, k);
                assert forall|i: int| 0 <= i < row + 1 implies (#[trigger] r@[i]) < self@.len()
                    && Some(r@[i] as int) == group_number(self@, batch::row_at(columns@, i)) by {
                    if i < row {
                        assert(r@[i] == seen[i]);
                        with_group_keeps_number(before, k, batch::row_at(columns@, i));
                    }
                }
            }
            row += 1;
        }
        assert(all.take(row as int) == all);
        r
    }
}

} // verus!
