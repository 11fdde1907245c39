//! The operator that spreads rows over the partitions of a shuffle.
use vstd::prelude::*;
use std::sync::Arc;
use crate::batch::RecordBatch;
use crate::display::{DisplayAs, DisplayFormatType};
use crate::error::{Fault, FdapQueryError};
use crate::expr::{expr_strings, PhysicalExpr};
use crate::filter_exec::select_rows;
use crate::group_table::key_at;
use crate::partitioning::Partitioning;
use crate::plan::{only_child, ExecutionPlan};
use crate::plan_properties::PlanProperties;
use crate::row_key::target_partition;
use crate::scalar::{Scalar, ScalarValue};
use crate::schema::{FieldModel, Schema};
use crate::shuffle_location::{ShuffleLocation, ShuffleLocationModel};
use crate::text::{owned, push_decimal_int, push_joined};
use crate::{batch, expr, filter_exec, plan, row_key, shuffle_location, text};

verus! {

/// Spreads the rows of its input over partitions by the hash of their keys.
#[derive(Debug)]
pub struct ShuffleWriterExec {
    pub input: Arc<ExecutionPlan>,
    pub partition_expr: Vec<PhysicalExpr>,
    pub job_uuid: String,
    pub stage_id: i32,
    pub partition_count: i32,
    pub properties: PlanProperties,
}

/// The partition of each row, whose key is given by columns.
pub open spec fn row_targets(columns: Seq<Vec<ScalarValue>>, n: nat, partitions: int) -> Seq<int> {
    Seq::new(n, |i: int| row_key::target_of(batch::row_at(columns, i), partitions))
}

/// Which rows go to partition `p`.
pub open spec fn goes_to(targets: Seq<int>, p: int) -> Seq<bool> {
    Seq::new(targets.len(), |i: int| targets[i] == p)
}

/// The rows that go to partition `p`, in order.
pub open spec fn part<T>(rows: Seq<T>, targets: Seq<int>, p: int) -> Seq<T> {
    batch::gathered(rows, batch::kept_indices(goes_to(targets, p)))
}

/// The partition of each row, whose key is given by columns.
pub fn compute_targets(
    key_columns: &Vec<Vec<ScalarValue>>,
    row_count: usize,
    partition_count: usize,
) -> (r: Vec<usize>)
    requires
        batch::all_of_length(key_columns@, row_count as int),
        row_count > 0 ==> partition_count > 0,
    ensures
        r@.len() == row_count,
        Seq::new(r@.len(), |i: int| r@[i] as int) == row_targets(
            key_columns@,
            row_count as nat,
            partition_count as int,
        ),
        forall|i: int| 0 <= i < row_count ==> (#[trigger] r@[i]) < partition_count,
{
    let mut targets: Vec<usize> = Vec::new();
    let mut row: usize = 0;
    while row < row_count
        invariant
            batch::all_of_length(key_columns@, row_count as int),
            row_count > 0 ==> partition_count > 0,
            row <= row_count,
            targets.len() == row,
            forall|i: int|
                0 <= i < row ==> (#[trigger] targets@[i]) < partition_count && targets@[i]
                    == row_key::target_of(
                    batch::row_at(key_columns@, i),
                    partition_count as int,
                ),
        decreases row_count - row,
    {
        let key = key_at(key_columns, row);
        targets.push(target_partition(&key, partition_count));
        row += 1;
    }
    assert(Seq::new(targets@.len(), |i: int| targets@[i] as int) == row_targets(
        key_columns@,
        row_count as nat,
        partition_count as int,
    ));
    targets
}

/// The rows of some batches.
pub open spec fn batch_rows(batches: Seq<RecordBatch>) -> Seq<Seq<Seq<Scalar>>> {
    Seq::new(batches.len(), |i: int| batches[i].rows())
}

/// Batches waiting to be written, by partition.
#[derive(Debug)]
pub struct ShuffleBuffers {
    pub schema: Schema,
    pub buffers: Vec<Vec<RecordBatch>>,
}

/// The batches of a partition once the rows that go there have been added; a
/// batch without rows is not added.
pub open spec fn grown(
    before: Seq<Seq<Seq<Scalar>>>,
    rows: Seq<Seq<Scalar>>,
) -> Seq<Seq<Seq<Scalar>>> {
    if rows.len() > 0 {
        before.push(rows)
    } else {
        before
    }
}

/// The error of putting the rows of a batch into the partitions from `p` on, of
/// which there are `n`: that of the first partition whose rows make no batch.
pub open spec fn spread_fault(
    schema: Seq<FieldModel>,
    input: RecordBatch,
    targets: Seq<int>,
    p: int,
    n: int,
) -> Option<Fault>
    decreases n - p,
{
    if p >= n {
        None
    } else {
        let kept = batch::kept_indices(goes_to(targets, p));
        if kept.len() > 0 && filter_exec::rows_fault(schema, input, kept) is Some {
            filter_exec::rows_fault(schema, input, kept)
        } else {
            spread_fault(schema, input, targets, p + 1, n)
        }
    }
}

/// Which rows go to partition `p`.
fn rows_for(targets: &Vec<usize>, p: usize) -> (r: (Vec<bool>, bool))
    ensures
        r.0@ == goes_to(Seq::new(targets@.len(), |i: int| targets@[i] as int), p as int),
        r.1 == (batch::kept_indices(r.0@).len() > 0),
{
    let mut take: Vec<bool> = Vec::new();
    let mut any: bool = false;
    let mut i: usize = 0;
    while i < targets.len()
        invariant
            i <= targets.len(),
            take.len() == i,
            forall|j: int| 0 <= j < i ==> (#[trigger] take@[j]) == (targets@[j] == p),
            any == (batch::kept_indices(take@).len() > 0),
        decreases targets.len() - i,
    {
        let here: bool = targets[i] == p;
        let ghost before = take@;
        take.push(here);
        assert(take@.drop_last() == before);
        if here {
            any = true;
        }
        i += 1;
    }
    assert(take@ == goes_to(Seq::new(targets@.len(), |i: int| targets@[i] as int), p as int));
    (take, any)
}

impl ShuffleBuffers {
    /// Empty buffers for the given number of partitions.
    pub fn new(schema: Schema, partition_count: usize) -> (r: Self)
        ensures
            r.schema == schema,
            r.buffers@.len() == partition_count,
            forall|p: int| 0 <= p < partition_count ==> (#[trigger] r.buffers@[p])@.len() == 0,
    {
        let mut buffers: Vec<Vec<RecordBatch>> = Vec::new();
        let mut p: usize = 0;
        while p < partition_count
            invariant
                p <= partition_count,
                buffers.len() == p,
                forall|q: int| 0 <= q < p ==> (#[trigger] buffers@[q])@.len() == 0,
            decreases partition_count - p,
        {
            buffers.push(Vec::new());
            p += 1;
        }
        ShuffleBuffers { schema, buffers }
    }

    /// Adds the rows of a batch, given its key columns, to the partitions that
    /// they go to.
    pub fn add_batch(&mut self, input: &RecordBatch, key_columns: &Vec<Vec<ScalarValue>>) -> (r:
        Result<(), FdapQueryError>)
        requires
            input.wf(),
            batch::all_of_length(key_columns@, input.num_rows as int),
            input.num_rows > 0 ==> old(self).buffers@.len() > 0,
        ensures
            final(self).schema == old(self).schema,
            final(self).buffers@.len() == old(self).buffers@.len(),
            match r {
                Ok(_) => forall|p: int|
                    0 <= p < old(self).buffers@.len() ==> batch_rows(
                        (#[trigger] final(self).buffers@[p])@,
                    ) == grown(
                        batch_rows(old(self).buffers@[p]@),
                        part(
                            input.rows(),
                            row_targets(
                                key_columns@,
                                input.num_rows as nat,
                                old(self).buffers@.len() as int,
                            ),
                            p,
                        ),
                    ),
                Err(e) => spread_fault(
                    old(self).schema@,
                    *input,
                    row_targets(
                        key_columns@,
                        input.num_rows as nat,
                        old(self).buffers@.len() as int,
                    ),
                    0,
                    old(self).buffers@.len() as int,
                ) == Some(e@),
            },
            r is Ok ==> spread_fault(
                old(self).schema@,
                *input,
                row_targets(
                    key_columns@,
                    input.num_rows as nat,
                    old(self).buffers@.len() as int,
                ),
                0,
                old(self).buffers@.len() as int,
            ) is None,
    {
        let n: usize = self.buffers.len();
        let targets = compute_targets(key_columns, input.num_rows, n);
        let ghost goals = row_targets(key_columns@, input.num_rows as nat, n as int);
        let ghost start = self.buffers@;
        let mut p: usize = 0;
        while p < n
            invariant
                input.wf(),
                n == self.buffers@.len(),
                n == start.len(),
                start == old(self).buffers@,
                self.schema == old(self).schema,
                p <= n,
                targets@.len() == input.num_rows,
                goals == Seq::new(targets@.len(), |i: int| targets@[i] as int),
                goals == row_targets(key_columns@, input.num_rows as nat, n as int),
                forall|q: int|
                    0 <= q < p ==> batch_rows((#[trigger] self.buffers@[q])@) == grown(
                        batch_rows(start[q]@),
                        part(input.rows(), goals, q),
                    ),
                forall|q: int| p <= q < n ==> (#[trigger] self.buffers@[q]) == start[q],
                spread_fault(self.schema@, *input, goals, 0, n as int) == spread_fault(
                    self.schema@,
                    *input,
                    goals,
                    p as int,
                    n as int,
                ),
            decreases n - p,
        {
            let (take, any) = rows_for(&targets, p);
            let ghost before = self.buffers@;
            if any {
                assert(part(input.rows(), goals, p as int).len() > 0);
                match select_rows(input, &take, self.schema.clone()) {
                    Ok(rows) => {
                        let ghost chosen = rows.rows();
                        let mut buffer: Vec<RecordBatch> = Vec::new();
                        std::mem::swap(&mut buffer, &mut self.buffers[p]);
                        let ghost was = buffer@;
                        buffer.push(rows);
                        assert(batch_rows(buffer@) == batch_rows(was).push(chosen));
                        std::mem::swap(&mut buffer, &mut self.buffers[p]);
                    },
                    Err(e) => {
                        assert(take@ == goes_to(goals, p as int));
                        return Err(e);
                    },
                }
            } else {
                assert(part(input.rows(), goals, p as int).len() == 0);
            }
            p += 1;
        }
        Ok(())
    }

    /// The partitions that hold something, in order.
    pub open spec fn filled(&self) -> Seq<int> {
        batch::kept_indices(Seq::new(self.buffers@.len(), |p: int| self.buffers@[p]@.len() > 0))
    }
}

impl ShuffleWriterExec {
    /// Spreads the rows of `input` over `partition_count` partitions.
    pub fn new(
        input: Arc<ExecutionPlan>,
        partition_expr: Vec<PhysicalExpr>,
        job_uuid: &str,
        stage_id: i32,
        partition_count: i32,
    ) -> (r: Self)
        ensures
            r.input == input,
            r.partition_expr == partition_expr,
            r.job_uuid@ == job_uuid@,
            r.stage_id == stage_id,
            r.partition_count == partition_count,
            r.properties.output_partitioning == Partitioning::UnknownPartitioning(1),
    {
        let properties = PlanProperties::single_partition_unknown();
        ShuffleWriterExec {
            input,
            partition_expr,
            job_uuid: owned(job_uuid),
            stage_id,
            partition_count,
            properties,
        }
    }

    /// Starts a shuffle: one empty buffer per partition.
    pub fn start_shuffle(&self) -> (r: ShuffleBuffers)
        requires
            self.partition_count >= 0,
        ensures
            r.schema@ == self.input.spec_schema(),
            r.buffers@.len() == self.partition_count,
            forall|p: int| 0 <= p < r.buffers@.len() ==> (#[trigger] r.buffers@[p])@.len() == 0,
    {
        ShuffleBuffers::new(self.input.schema(), self.partition_count as usize)
    }

    /// Where the partitions that hold something are kept once this executor has
    /// written them, in order.
    pub fn locations(
        &self,
        buffers: &ShuffleBuffers,
        executor_id: &str,
        executor_host: &str,
        executor_port: i32,
    ) -> (r: Vec<ShuffleLocation>)
        requires
            buffers.buffers@.len() <= i32::MAX,
        ensures
            shuffle_location::locations(r@) == Seq::new(
                buffers.filled().len(),
                |i: int|
                    ShuffleLocationModel {
                        job_uuid: self.job_uuid@,
                        stage_id: self.stage_id,
                        partition_id: buffers.filled()[i] as i32,
                        executor_id: executor_id@,
                        executor_host: executor_host@,
                        executor_port,
                    },
            ),
    {
        let ghost flags = Seq::new(
            buffers.buffers@.len(),
            |p: int| buffers.buffers@[p]@.len() > 0,
        );
        let mut r: Vec<ShuffleLocation> = Vec::new();
        let mut p: usize = 0;
        assert(flags.take(0) == Seq::<bool>::empty());
        while p < buffers.buffers.len()
            invariant
                buffers.buffers@.len() <= i32::MAX,
                flags == Seq::new(
                    buffers.buffers@.len(),
                    |p: int| buffers.buffers@[p]@.len() > 0,
                ),
                p <= buffers.buffers.len(),
                r@.len() == batch::kept_indices(flags.take(p as int)).len(),
                forall|i: int|
                    0 <= i < r@.len() ==> (#[trigger] r@[i])@ == (ShuffleLocationModel {
                        job_uuid: self.job_uuid@,
                        stage_id: self.stage_id,
                        partition_id: batch::kept_indices(flags.take(p as int))[i] as i32,
                        executor_id: executor_id@,
                        executor_host: executor_host@,
                        executor_port,
                    }),
            decreases buffers.buffers.len() - p,
        {
            assert(flags.take(p + 1).drop_last() == flags.take(p as int));
            assert(flags.take(p + 1).last() == flags[p as int]);
            if !buffers.buffers[p].is_empty() {
                r.push(
                    ShuffleLocation::new(
                        self.job_uuid.as_str(),
                        self.stage_id,
                        p as i32,
                        executor_id,
                        executor_host,
                        executor_port,
                    ),
                );
            }
            p += 1;
        }
        assert(flags.take(p as int) == flags);
        r
    }

    /// A shuffle yields no batches: it is written instead.
    pub fn execute(&self, partition: usize) -> (r: Result<Schema, FdapQueryError>)
        ensures
            r matches Err(e) && e@ == Fault::NotImplemented(
                "ShuffleWriterExec::execute() doesn't fit the trait's batch-yielding shape \u{2014} use write_shuffle(ctx) which returns Vec<ShuffleLocation>. flight-server's do_action handler does this via downcast."@,
            ),
    {
        Err(
            FdapQueryError::NotImplemented(
                owned(
                    "ShuffleWriterExec::execute() doesn't fit the trait's batch-yielding shape \u{2014} use write_shuffle(ctx) which returns Vec<ShuffleLocation>. flight-server's do_action handler does this via downcast.",
                ),
            ),
        )
    }

    /// The same shuffle over another input.
    pub fn with_new_children(self, children: Vec<Arc<ExecutionPlan>>) -> (r: Result<
        Self,
        FdapQueryError,
    >)
        ensures
            match r {
                Ok(rebuilt) => children@.len() == 1 && {
                    &&& rebuilt.input == children@[0]
                    &&& rebuilt.partition_expr == self.partition_expr
                    &&& rebuilt.job_uuid@ == self.job_uuid@
                    &&& rebuilt.stage_id == self.stage_id
                    &&& rebuilt.partition_count == self.partition_count
                    &&& rebuilt.properties.output_partitioning == Partitioning::UnknownPartitioning(
                        1,
                    )
                },
                Err(e) => children@.len() != 1 && e@ == plan::not_one_child(
                    "ShuffleWriterExec"@,
                    children@.len(),
                ),
            },
    {
        match only_child("ShuffleWriterExec", children) {
            Ok(child) => Ok(
                ShuffleWriterExec::new(
                    child,
                    self.partition_expr,
                    self.job_uuid.as_str(),
                    self.stage_id,
                    self.partition_count,
                ),
            ),
            Err(e) => Err(e),
        }
    }
}

impl DisplayAs for ShuffleWriterExec {
    open spec fn displayable(&self) -> bool {
        true
    }

    open spec fn rendered(&self, t: DisplayFormatType) -> Seq<char> {
        "ShuffleWriterExec: jobUuid="@ + self.job_uuid@ + ", stageId="@ + text::decimal_int(
            self.stage_id as int,
        ) + ", partitionCount="@ + text::decimal_int(self.partition_count as int)
            + ", partitionExpr=["@ + text::join(
            expr::expr_texts(expr::exprs(self.partition_expr@)),
            ", "@,
        ) + "]"@
    }

    fn fmt_as(&self, t: DisplayFormatType) -> (r: String) {
        let mut out: String = owned("ShuffleWriterExec: jobUuid=");
        out.append(self.job_uuid.as_str());
        out.append(", stageId=");
        push_decimal_int(&mut out, self.stage_id as i128);
        out.append(", partitionCount=");
        push_decimal_int(&mut out, self.partition_count as i128);
        out.append(", partitionExpr=[");
        let parts = expr_strings(&self.partition_expr);
        push_joined(&mut out, &parts, ", ");
        out.append("]");
        out
    }
}

/// How many rows go to the first `n` partitions together.
pub open spec fn rows_placed(targets: Seq<int>, n: nat) -> nat
    decreases n,
{
    if n == 0 {
        0
    } else {
        rows_placed(targets, (n - 1) as nat) + batch::kept_indices(goes_to(targets, n - 1)).len()
    }
}

proof fn rows_placed_step(targets: Seq<int>, n: nat)
    requires
        targets.len() > 0,
    ensures
        rows_placed(targets, n) == rows_placed(targets.drop_last(), n) + if 0 <= targets.last() < n {
            1nat
        } else {
            0nat
        },
    decreases n,
{
    if n > 0 {
        rows_placed_step(targets, (n - 1) as nat);
        assert(goes_to(targets, n - 1).drop_last() == goes_to(targets.drop_last(), n - 1));
    }
}

/// A shuffle loses no row and doubles none: the partitions together hold as
/// many rows as were spread.
pub proof fn shuffle_keeps_the_number_of_rows(targets: Seq<int>, partitions: nat)
    requires
        forall|i: int| 0 <= i < targets.len() ==> 0 <= #[trigger] targets[i] < partitions,
    ensures
        rows_placed(targets, partitions) == targets.len(),
    decreases targets.len(),
{
    if targets.len() == 0 {
        no_rows_placed(targets, partitions);
    } else {
        rows_placed_step(targets, partitions);
        assert forall|i: int| 0 <= i < targets.drop_last().len() implies 0
            <= #[trigger] targets.drop_last()[i] < partitions by {
            assert(targets.drop_last()[i] == targets[i]);
        }
        shuffle_keeps_the_number_of_rows(targets.drop_last(), partitions);
        assert(0 <= targets[targets.len() - 1] < partitions);
    }
}

proof fn no_rows_placed(targets: Seq<int>, n: nat)
    requires
        targets.len() == 0,
    ensures
        rows_placed(targets, n) == 0,
    decreases n,
{
    if n > 0 {
        no_rows_placed(targets, (n - 1) as nat);
    }
}

/// A row is in the partition that it goes to and in no other.
pub proof fn every_row_goes_to_its_target(targets: Seq<int>, p: int, i: int)
    requires
        0 <= i < targets.len(),
    ensures
        batch::kept_indices(goes_to(targets, p)).contains(i) <==> targets[i] == p,
{
    let keep = goes_to(targets, p);
    batch::kept_indices_exact(keep);
    if batch::kept_indices(keep).contains(i) {
        let k = choose|k: int|
            0 <= k < batch::kept_indices(keep).len() && batch::kept_indices(keep)[k] == i;
        assert(keep[batch::kept_indices(keep)[k]]);
    }
    if targets[i] == p {
        assert(keep[i]);
    }
}

/// Rows with the same key go to the same partition.
pub proof fn same_key_same_partition(
    columns: Seq<Vec<ScalarValue>>,
    n: nat,
    partitions: int,
    i: int,
    j: int,
)
    requires
        0 <= i < n,
        0 <= j < n,
        batch::row_at(columns, i) == batch::row_at(columns, j),
    ensures
        row_targets(columns, n, partitions)[i] == row_targets(columns, n, partitions)[j],
{
}

} // verus!
