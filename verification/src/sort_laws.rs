//! What holds of sorted rows.
use vstd::prelude::*;
use crate::sorting::{SortCell, SortKey, SortKeys, SortOptions};
use crate::{batch, sorting};

verus! {

/// Whether the cells of a column are sorted by the same kind of value, null
/// aside.
pub open spec fn uniform(cells: Seq<SortCell>) -> bool {
    ||| forall|i: int| 0 <= i < cells.len() ==> !((#[trigger] cells[i]) is Bytes)
    ||| forall|i: int| 0 <= i < cells.len() ==> !((#[trigger] cells[i]) is Number)
}

/// Whether every column has `n` cells, sorted by the same kind of value.
pub open spec fn uniform_columns(columns: Seq<SortKeys>, n: int) -> bool {
    forall|c: int|
        0 <= c < columns.len() ==> uniform((#[trigger] columns[c]).cells) && columns[c].cells.len()
            == n
}

proof fn bytes_less_orders(a: Seq<u8>, b: Seq<u8>, c: Seq<u8>)
    ensures
        !(sorting::bytes_less(a, b) && sorting::bytes_less(b, a)),
        sorting::bytes_less(a, c) ==> sorting::bytes_less(a, b) || sorting::bytes_less(b, c),
    decreases a.len(),
{
    if a.len() > 0 && b.len() > 0 && c.len() > 0 {
        bytes_less_orders(a.drop_first(), b.drop_first(), c.drop_first());
    } else if a.len() > 0 && b.len() > 0 {
        bytes_less_orders(a.drop_first(), b.drop_first(), c);
    }
}

proof fn cell_before_orders(cells: Seq<SortCell>, o: SortOptions, i: int, j: int, k: int)
    requires
        uniform(cells),
        0 <= i < cells.len(),
        0 <= j < cells.len(),
        0 <= k < cells.len(),
    ensures
        !(sorting::cell_before(cells[i], cells[j], o) && sorting::cell_before(
            cells[j],
            cells[i],
            o,
        )),
        sorting::cell_before(cells[i], cells[k], o) ==> sorting::cell_before(cells[i], cells[j], o)
            || sorting::cell_before(cells[j], cells[k], o),
{
    match (cells[i], cells[j], cells[k]) {
        (SortCell::Bytes(a), SortCell::Bytes(b), SortCell::Bytes(c)) => {
            bytes_less_orders(a, b, c);
            bytes_less_orders(c, b, a);
        },
        (SortCell::Bytes(a), SortCell::Bytes(b), _) => {
            bytes_less_orders(a, b, a);
        },
        _ => {},
    }
}

/// The order of rows is a strict weak order: of two rows at most one comes
/// before the other, and where one row comes before another, any third row comes
/// after the one or before the other.
pub proof fn row_before_is_an_order(columns: Seq<SortKeys>, n: int, i: int, j: int, k: int)
    requires
        uniform_columns(columns, n),
        0 <= i < n,
        0 <= j < n,
        0 <= k < n,
    ensures
        !(sorting::row_before(columns, i, j) && sorting::row_before(columns, j, i)),
        sorting::row_before(columns, i, k) ==> sorting::row_before(columns, i, j)
            || sorting::row_before(columns, j, k),
    decreases columns.len(),
{
    if columns.len() > 0 {
        let c = columns[0];
        let rest = columns.drop_first();
        assert forall|d: int| 0 <= d < rest.len() implies uniform((#[trigger] rest[d]).cells)
            && rest[d].cells.len() == n by {
            assert(rest[d] == columns[d + 1]);
        }
        row_before_is_an_order(rest, n, i, j, k);
        cell_before_orders(c.cells, c.options, i, j, k);
        cell_before_orders(c.cells, c.options, k, j, i);
        cell_before_orders(c.cells, c.options, i, k, j);
        cell_before_orders(c.cells, c.options, j, i, k);
        cell_before_orders(c.cells, c.options, k, i, j);
        cell_before_orders(c.cells, c.options, j, k, i);
    }
}

/// Evaluated sort keys that can be sorted give uniform columns.
pub proof fn sortable_keys_are_uniform(keys: Seq<SortKey>, n: int)
    requires
        forall|i: int|
            0 <= i < keys.len() ==> (#[trigger] keys[i]).values@.len() == n && sorting::sortable(
                keys[i].values@,
            ),
    ensures
        uniform_columns(sorting::sort_keys(keys), n),
{
    let columns = sorting::sort_keys(keys);
    assert forall|c: int| 0 <= c < columns.len() implies uniform((#[trigger] columns[c]).cells)
        && columns[c].cells.len() == n by {
        let values = keys[c].values@;
        let cells = columns[c].cells;
        if forall|i: int| 0 <= i < values.len() ==> !sorting::sorted_by_bytes(
            (#[trigger] values[i])@,
        ) {
            assert forall|i: int| 0 <= i < cells.len() implies !((#[trigger] cells[i]) is Bytes) by {
                assert(!sorting::sorted_by_bytes(values[i]@));
            }
        } else {
            assert forall|i: int| 0 <= i < cells.len() implies !(
            (#[trigger] cells[i]) is Number) by {
                assert(values[i]@ is Null || sorting::sorted_by_bytes(values[i]@));
            }
        }
    }
}

/// Whether `positions` are `n` different positions below `n`.
pub open spec fn permutes(positions: Seq<int>, n: int) -> bool {
    &&& positions.len() == n
    &&& forall|i: int| 0 <= i < positions.len() ==> 0 <= #[trigger] positions[i] < n
    &&& forall|i: int, j: int|
        0 <= i < j < positions.len() ==> #[trigger] positions[i] != #[trigger] positions[j]
}

proof fn permutation_has_all(positions: Seq<int>, n: int, k: int)
    requires
        permutes(positions, n),
        0 <= k < n,
    ensures
        positions.contains(k),
{
    let found = positions.to_set();
    let range = vstd::set_lib::set_int_range(0, n);
    vstd::set_lib::lemma_int_range(0, n);
    positions.unique_seq_to_set();
    assert(found.subset_of(range)) by {
        assert forall|x: int| found.contains(x) implies range.contains(x) by {
            assert(positions.contains(x));
        }
    }
    vstd::set_lib::lemma_len_subset(found, range);
    vstd::set_lib::lemma_subset_equality(found, range);
    assert(found.contains(k));
}

proof fn permutation_keeps_rows<T>(rows: Seq<T>, positions: Seq<int>, n: int)
    requires
        0 <= n <= rows.len(),
        permutes(positions, n),
    ensures
        batch::gathered(rows, positions).to_multiset() =~= rows.take(n).to_multiset(),
    decreases n,
{
    let out = batch::gathered(rows, positions);
    if n > 0 {
        permutation_has_all(positions, n, n - 1);
        let k = choose|k: int| 0 <= k < positions.len() && positions[k] == n - 1;
        let fewer = positions.remove(k);
        assert forall|i: int| 0 <= i < fewer.len() implies 0 <= #[trigger] fewer[i] < n - 1 by {
            if i < k {
                assert(fewer[i] == positions[i]);
            } else {
                assert(fewer[i] == positions[i + 1]);
            }
        }
        assert forall|i: int, j: int| 0 <= i < j < fewer.len() implies #[trigger] fewer[i]
            != #[trigger] fewer[j] by {
            let i0 = if i < k { i } else { i + 1 };
            let j0 = if j < k { j } else { j + 1 };
            assert(positions[i0] != positions[j0]);
        }
        permutation_keeps_rows(rows, fewer, n - 1);
        assert(batch::gathered(rows, fewer) == out.remove(k));
        vstd::seq_lib::to_multiset_remove(out, k);
        vstd::seq_lib::to_multiset_contains(out, out[k]);
        assert(rows.take(n) == rows.take(n - 1).push(rows[n - 1]));
        vstd::seq_lib::to_multiset_build(rows.take(n - 1), rows[n - 1]);
        assert(out.contains(out[k]));
    } else {
        assert(out == rows.take(0));
    }
}

/// Sorting without a limit neither loses nor doubles a row: what comes out are
/// the rows that went in, in another order.
pub proof fn sorting_keeps_every_row<T>(
    rows: Seq<T>,
    positions: Seq<int>,
    columns: Seq<SortKeys>,
)
    requires
        sorting::first_in_order(positions, columns, rows.len() as int, None),
    ensures
        batch::gathered(rows, positions).to_multiset() == rows.to_multiset(),
        forall|k: int| 0 <= k < rows.len() ==> #[trigger] positions.contains(k),
{
    let n = rows.len() as int;
    assert(permutes(positions, n));
    permutation_keeps_rows(rows, positions, n);
    assert(rows.take(n) == rows);
    assert forall|k: int| 0 <= k < n implies #[trigger] positions.contains(k) by {
        permutation_has_all(positions, n, k);
    }
}

/// Whether `positions` are different rows in order, and no row that they leave
/// out comes before one of the first `m`.
spec fn begins_in_order(positions: Seq<int>, columns: Seq<SortKeys>, n: int, m: int) -> bool {
    &&& 0 <= m <= positions.len() <= n
    &&& forall|i: int| 0 <= i < positions.len() ==> 0 <= #[trigger] positions[i] < n
    &&& forall|i: int, j: int|
        0 <= i < j < positions.len() ==> #[trigger] positions[i] != #[trigger] positions[j]
    &&& forall|i: int, j: int|
        0 <= i < j < positions.len() ==> !sorting::row_before(
            columns,
            #[trigger] positions[j],
            #[trigger] positions[i],
        )
    &&& forall|k: int, i: int|
        0 <= k < n && !positions.contains(k) && 0 <= i < m ==> !#[trigger] sorting::row_before(
            columns,
            k,
            positions[i],
        )
}

/// Where row `k` goes among `positions`, from `m` on and not after `p`.
proof fn place_of(positions: Seq<int>, columns: Seq<SortKeys>, n: int, m: int, k: int, p: int) -> (r:
    int)
    requires
        uniform_columns(columns, n),
        begins_in_order(positions, columns, n, m),
        0 <= k < n,
        !positions.contains(k),
        m <= p <= positions.len(),
        forall|i: int|
            p <= i < positions.len() ==> sorting::row_before(columns, k, #[trigger] positions[i]),
    ensures
        m <= r <= positions.len(),
        forall|i: int|
            0 <= i < r ==> !sorting::row_before(columns, k, #[trigger] positions[i]),
        forall|i: int|
            r <= i < positions.len() ==> !sorting::row_before(columns, #[trigger] positions[i], k),
    decreases p,
{
    if p > m && sorting::row_before(columns, k, positions[p - 1]) {
        place_of(positions, columns, n, m, k, p - 1)
    } else {
        assert forall|i: int| 0 <= i < p implies !sorting::row_before(
            columns,
            k,
            #[trigger] positions[i],
        ) by {
            if p > m && i < p - 1 {
                row_before_is_an_order(columns, n, k, positions[p - 1], positions[i]);
            }
        }
        assert forall|i: int| p <= i < positions.len() implies !sorting::row_before(
            columns,
            #[trigger] positions[i],
            k,
        ) by {
            row_before_is_an_order(columns, n, k, positions[i], k);
        }
        p
    }
}

proof fn completed(positions: Seq<int>, columns: Seq<SortKeys>, n: int, m: int) -> (full: Seq<int>)
    requires
        uniform_columns(columns, n),
        begins_in_order(positions, columns, n, m),
    ensures
        sorting::first_in_order(full, columns, n, None),
        full.take(m) == positions.take(m),
    decreases n - positions.len(),
{
    if positions.len() == n {
        assert forall|k: int| 0 <= k < n implies #[trigger] positions.contains(k) by {
            permutation_has_all(positions, n, k);
        }
        positions
    } else {
        let k = left_out(positions, n);
        let p = place_of(positions, columns, n, m, k, positions.len() as int);
        let more = positions.insert(p, k);
        assert forall|i: int, j: int| 0 <= i < j < more.len() implies #[trigger] more[i]
            != #[trigger] more[j] by {
            let i0 = if i < p { i } else { i - 1 };
            let j0 = if j < p { j } else { j - 1 };
            if i != p && j != p {
                assert(positions[i0] != positions[j0]);
            } else if i == p {
                assert(positions[j0] == more[j]);
            } else {
                assert(positions[i0] == more[i]);
            }
        }
        assert forall|i: int, j: int| 0 <= i < j < more.len() implies !sorting::row_before(
            columns,
            #[trigger] more[j],
            #[trigger] more[i],
        ) by {
            let i0 = if i < p { i } else { i - 1 };
            let j0 = if j < p { j } else { j - 1 };
            if i != p && j != p {
                assert(more[i] == positions[i0] && more[j] == positions[j0]);
            } else if i == p {
                assert(more[j] == positions[j0]);
            } else {
                assert(more[i] == positions[i0]);
            }
        }
        assert forall|x: int, i: int|
            0 <= x < n && !more.contains(x) && 0 <= i < m implies !#[trigger] sorting::row_before(
            columns,
            x,
            more[i],
        ) by {
            if positions.contains(x) {
                let j = choose|j: int| 0 <= j < positions.len() && positions[j] == x;
                if j < p {
                    assert(more[j] == x);
                } else {
                    assert(more[j + 1] == x);
                }
            }
            assert(more[i] == positions[i]);
        }
        let full = completed(more, columns, n, m);
        assert(more.take(m) == positions.take(m));
        full
    }
}

/// A row that fewer than `n` different positions below `n` leave out.
proof fn left_out(positions: Seq<int>, n: int) -> (k: int)
    requires
        positions.len() < n,
        forall|i: int| 0 <= i < positions.len() ==> 0 <= #[trigger] positions[i] < n,
        forall|i: int, j: int|
            0 <= i < j < positions.len() ==> #[trigger] positions[i] != #[trigger] positions[j],
    ensures
        0 <= k < n,
        !positions.contains(k),
{
    let found = positions.to_set();
    let range = vstd::set_lib::set_int_range(0, n);
    vstd::set_lib::lemma_int_range(0, n);
    positions.unique_seq_to_set();
    if forall|k: int| 0 <= k < n ==> #[trigger] positions.contains(k) {
        assert forall|x: int| range.contains(x) implies found.contains(x) by {
            assert(positions.contains(x));
        }
        vstd::seq_lib::seq_to_set_is_finite(positions);
        vstd::set_lib::lemma_len_subset(range, found);
    }
    choose|k: int| 0 <= k < n && !#[trigger] positions.contains(k)
}

/// Sorting with a limit is sorting and then taking the first rows.
pub proof fn top_rows_are_the_first_of_a_sort(
    positions: Seq<int>,
    columns: Seq<SortKeys>,
    n: int,
    limit: Option<usize>,
) -> (full: Seq<int>)
    requires
        uniform_columns(columns, n),
        sorting::first_in_order(positions, columns, n, limit),
        n >= 0,
    ensures
        sorting::first_in_order(full, columns, n, None),
        positions == full.take(sorting::taken(n, limit)),
{
    let m = positions.len() as int;
    assert(begins_in_order(positions, columns, n, m));
    let full = completed(positions, columns, n, m);
    assert(positions.take(m) == positions);
    full
}

} // verus!
