//! Skipping and limiting the rows of a stream of batches.
use vstd::prelude::*;
use crate::batch::RecordBatch;
use crate::batch;

verus! {

/// How many rows a limit still skips, and how many it still lets through.
#[derive(Clone, Copy, Debug, PartialEq, Eq, Structural)]
pub struct LimitState {
    pub skip: usize,
    pub remaining: usize,
}

/// `n`, but no more than `bound`.
pub open spec fn at_most(n: int, bound: int) -> int {
    if n < bound {
        n
    } else {
        bound
    }
}

/// `rows` without the first `skip`, and no more than `fetch` of them.
pub open spec fn window<T>(rows: Seq<T>, skip: int, fetch: int) -> Seq<T> {
    let rest = rows.skip(at_most(skip, rows.len() as int));
    rest.take(at_most(fetch, rest.len() as int))
}

impl LimitState {
    /// The state after a batch of `rows` rows.
    pub open spec fn after(self, rows: int) -> LimitState {
        LimitState {
            skip: (self.skip - at_most(self.skip as int, rows)) as usize,
            remaining: (self.remaining - at_most(
                self.remaining as int,
                rows - at_most(self.skip as int, rows),
            )) as usize,
        }
    }

    /// A limit that skips `skip` rows and lets `fetch` rows through, or all
    /// there can be where no number is given.
    pub fn new(skip: usize, fetch: Option<usize>) -> (r: Self)
        ensures
            r.skip == skip,
            r.remaining == match fetch {
                Some(n) => n,
                None => usize::MAX,
            },
    {
        LimitState {
            skip,
            remaining: match fetch {
                Some(n) => n,
                None => usize::MAX,
            },
        }
    }

    /// Whether another batch is asked for.
    pub fn wants_more(&self) -> (r: bool)
        ensures
            r == (self.remaining > 0),
    {
        self.remaining > 0
    }

    /// What is passed on of a batch. A batch that is skipped as a whole is not
    /// passed on at all; an empty one is, once nothing is left to skip.
    pub fn next_batch(&mut self, batch: RecordBatch) -> (r: Option<RecordBatch>)
        requires
            old(self).remaining > 0,
            batch.wf(),
        ensures
            *final(self) == old(self).after(batch.num_rows as int),
            r is None <==> old(self).skip > 0 && old(self).skip >= batch.num_rows,
            r matches Some(passed) ==> passed.wf() && passed.schema@ == batch.schema@
                && passed.rows() == window(
                batch.rows(),
                old(self).skip as int,
                old(self).remaining as int,
            ),
    {
        let rows: usize = batch.num_rows;
        if self.skip > 0 && self.skip >= rows {
            self.skip = self.skip - rows;
            return None;
        }
        let ghost all = batch.rows();
        let ghost before = *self;
        let kept: usize = rows - self.skip;
        let batch: RecordBatch = if self.skip == 0 {
            batch
        } else {
            batch.slice(self.skip, kept)
        };
        assert(batch.rows() == all.skip(before.skip as int));
        self.skip = 0;
        if kept <= self.remaining {
            self.remaining = self.remaining - kept;
            assert(batch.rows() == window(all, before.skip as int, before.remaining as int));
            Some(batch)
        } else {
            let take: usize = self.remaining;
            self.remaining = 0;
            let passed = batch.slice(0, take);
            assert(passed.rows() == window(all, before.skip as int, before.remaining as int));
            Some(passed)
        }
    }
}

/// What is passed on of a stream of batches, batch by batch. Once nothing more
/// may be passed on, no further batch is asked for.
pub open spec fn passed_on<T>(state: LimitState, batches: Seq<Seq<T>>) -> Seq<T>
    decreases batches.len(),
{
    if batches.len() == 0 || state.remaining == 0 {
        seq![]
    } else {
        window(batches[0], state.skip as int, state.remaining as int) + passed_on(
            state.after(batches[0].len() as int),
            batches.drop_first(),
        )
    }
}

proof fn flattened_first<T>(parts: Seq<Seq<T>>)
    requires
        parts.len() > 0,
    ensures
        batch::flattened(parts) == parts[0] + batch::flattened(parts.drop_first()),
    decreases parts.len(),
{
    if parts.len() == 1 {
        assert(parts.drop_last() == Seq::<Seq<T>>::empty());
        assert(parts.drop_first() == Seq::<Seq<T>>::empty());
        assert(batch::flattened(parts.drop_last()) == Seq::<T>::empty());
        assert(batch::flattened(parts.drop_first()) == Seq::<T>::empty());
    } else {
        flattened_first(parts.drop_last());
        assert(parts.drop_last().drop_first() == parts.drop_first().drop_last());
    }
}

/// However the rows are divided into batches, what is passed on are the rows
/// after the skipped ones, up to the limit.
pub proof fn limit_is_skip_then_take<T>(state: LimitState, batches: Seq<Seq<T>>)
    ensures
        passed_on(state, batches) == window(
            batch::flattened(batches),
            state.skip as int,
            state.remaining as int,
        ),
    decreases batches.len(),
{
    let all = batch::flattened(batches);
    if batches.len() == 0 || state.remaining == 0 {
        assert(window(all, state.skip as int, state.remaining as int) == Seq::<T>::empty());
    } else {
        let first = batches[0];
        let rest = batch::flattened(batches.drop_first());
        let next = state.after(first.len() as int);
        flattened_first(batches);
        limit_is_skip_then_take(next, batches.drop_first());
        assert(all == first + rest);
        let skipped = at_most(state.skip as int, first.len() as int);
        let head = window(first, state.skip as int, state.remaining as int);
        let tail = window(rest, next.skip as int, next.remaining as int);
        let want = window(all, state.skip as int, state.remaining as int);
        assert(head.len() == at_most(state.remaining as int, first.len() - skipped));
        assert(want =~= head + tail);
    }
}

/// Limiting each partition before limiting all of them changes nothing, where
/// each lets through at least as many rows as are skipped and fetched overall.
pub proof fn local_limit_is_absorbed<T>(rows: Seq<T>, local: int, skip: int, fetch: int)
    requires
        0 <= skip,
        0 <= fetch,
        skip + fetch <= local,
    ensures
        window(window(rows, 0, local), skip, fetch) == window(rows, skip, fetch),
{
    let inner = window(rows, 0, local);
    assert(rows.skip(0) == rows);
    assert(inner == rows.take(at_most(local, rows.len() as int)));
    assert(window(inner, skip, fetch) =~= window(rows, skip, fetch));
}

} // verus!
