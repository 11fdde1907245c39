//! The operator that yields batches held in memory.
use vstd::prelude::*;
use std::sync::Arc;
use crate::batch::RecordBatch;
use crate::display::{DisplayAs, DisplayFormatType};
use crate::error::{Fault, FdapQueryError};
use crate::partitioning::Partitioning;
use crate::plan::{check_partition, no_children, ExecutionPlan};
use crate::plan_properties::PlanProperties;
use crate::schema::Schema;
use crate::text::{owned, push_decimal};
use crate::{batch, plan, text};

verus! {

/// Yields batches held in memory, in order.
#[derive(Debug)]
pub struct MemoryExec {
    pub schema: Schema,
    pub batches: Vec<RecordBatch>,
    pub projection: Option<Vec<usize>>,
    pub properties: PlanProperties,
}

/// The batches of a memory operator that are still to come.
#[derive(Debug)]
pub struct MemoryStream {
    pub batches: Vec<RecordBatch>,
    pub projection: Option<Vec<usize>>,
    pub next: usize,
}

/// Whether `r` is what is yielded for a batch: the batch itself, or its
/// projection, which fails where a column does not exist.
pub open spec fn yielded(
    r: Result<RecordBatch, FdapQueryError>,
    source: RecordBatch,
    projection: Option<Vec<usize>>,
) -> bool {
    match projection {
        None => r matches Ok(out) && out.wf() && out.schema@ == source.schema@ && out.rows()
            == source.rows(),
        Some(indices) => match r {
            Ok(out) => batch::first_beyond(indices@, source.columns@.len()) is None && out.wf()
                && out.schema@ == batch::projected(source.schema@, indices@) && out.rows()
                == batch::projected_rows(source.rows(), indices@),
            Err(e) => batch::first_beyond(indices@, source.columns@.len()) matches Some(i) && e@
                == Fault::ArrowError(
                "project index "@ + text::decimal(i as nat) + " out of bounds, max field "@
                    + text::decimal(source.columns@.len()),
            ),
        },
    }
}

impl MemoryStream {
    /// The next batch, projected.
    pub fn next(&mut self) -> (r: Option<Result<RecordBatch, FdapQueryError>>)
        requires
            forall|i: int| 0 <= i < old(self).batches@.len() ==> (#[trigger] old(self).batches@[i]).wf(),
        ensures
            final(self).batches == old(self).batches,
            final(self).projection == old(self).projection,
            match r {
                Some(item) => old(self).next < old(self).batches@.len() && final(self).next
                    == old(self).next + 1 && yielded(
                    item,
                    old(self).batches@[old(self).next as int],
                    old(self).projection,
                ),
                None => old(self).next >= old(self).batches@.len() && final(self).next
                    == old(self).next,
            },
    {
        if self.next >= self.batches.len() {
            return None;
        }
        let at: usize = self.next;
        assert(self.batches@[at as int].wf());
        let item: Result<RecordBatch, FdapQueryError> = match &self.projection {
            Some(indices) => self.batches[at].project(indices),
            None => Ok(self.batches[at].clone()),
        };
        self.next = at + 1;
        Some(item)
    }
}

/// The first projected column that does not exist in the first batch.
pub open spec fn bad_column(data: Seq<RecordBatch>, projection: Option<Vec<usize>>) -> Option<
    usize,
> {
    match projection {
        Some(indices) => if data.len() > 0 {
            batch::first_beyond(indices@, data[0].columns@.len())
        } else {
            None
        },
        None => None,
    }
}

/// The projection as plain values.
pub open spec fn indices_of(projection: Option<Vec<usize>>) -> Option<Seq<usize>> {
    match projection {
        Some(indices) => Some(indices@),
        None => None,
    }
}

impl MemoryExec {
    /// Yields `batches` as they are.
    pub fn new(schema: Schema, batches: Vec<RecordBatch>) -> (r: Self)
        ensures
            r.schema == schema,
            r.batches == batches,
            r.projection is None,
            r.properties.output_partitioning == Partitioning::UnknownPartitioning(1),
    {
        MemoryExec {
            schema,
            batches,
            projection: None,
            properties: PlanProperties::single_partition_unknown(),
        }
    }

    /// Yields the projected columns of `data`. The columns must exist in the
    /// first batch, where there is one.
    pub fn try_new(data: Vec<RecordBatch>, schema: Schema, projection: Option<Vec<usize>>) -> (r:
        Result<Self, FdapQueryError>)
        ensures
            match r {
                Ok(exec) => bad_column(data@, projection) is None && exec.schema == schema
                    && exec.batches == data && exec.projection == projection
                    && exec.properties.output_partitioning == Partitioning::UnknownPartitioning(1),
                Err(e) => bad_column(data@, projection) matches Some(i) && e@ == Fault::ArrowError(
                    "MemoryExec projection index "@ + text::decimal(i as nat)
                        + " out of bounds for "@ + text::decimal(data@[0].columns@.len())
                        + " columns"@,
                ),
            },
    {
        if let Some(indices) = &projection {
            if data.len() > 0 {
                let ncols: usize = data[0].num_columns();
                let mut k: usize = 0;
                assert(indices@.skip(0) == indices@);
                while k < indices.len()
                    invariant
                        data@.len() > 0,
                        projection == Some(*indices),
                        ncols == data@[0].columns@.len(),
                        k <= indices.len(),
                        batch::first_beyond(indices@, ncols as nat) == batch::first_beyond(
                            indices@.skip(k as int),
                            ncols as nat,
                        ),
                    decreases indices.len() - k,
                {
                    let i: usize = indices[k];
                    assert(indices@.skip(k as int)[0] == i);
                    assert(indices@.skip(k as int).drop_first() == indices@.skip(k + 1));
                    if i >= ncols {
                        let mut m: String = owned("MemoryExec projection index ");
                        push_decimal(&mut m, i as u128);
                        m.append(" out of bounds for ");
                        push_decimal(&mut m, ncols as u128);
                        m.append(" columns");
                        return Err(FdapQueryError::ArrowError(m));
                    }
                    k += 1;
                }
                assert(indices@.skip(k as int).len() == 0);
            }
        }
        Ok(
            MemoryExec {
                schema,
                batches: data,
                projection,
                properties: PlanProperties::single_partition_unknown(),
            },
        )
    }

    /// Starts yielding the batches.
    pub fn execute(&self, partition: usize) -> (r: Result<MemoryStream, FdapQueryError>)
        requires
            forall|i: int| 0 <= i < self.batches@.len() ==> (#[trigger] self.batches@[i]).wf(),
        ensures
            match r {
                Ok(stream) => partition == 0 && stream.next == 0 && indices_of(stream.projection)
                    == indices_of(self.projection) && stream.batches@.len() == self.batches@.len()
                    && forall|i: int|
                    0 <= i < self.batches@.len() ==> (#[trigger] stream.batches@[i]).wf()
                        && stream.batches@[i].schema@ == self.batches@[i].schema@
                        && stream.batches@[i].rows() == self.batches@[i].rows(),
                Err(e) => partition != 0 && e@ == plan::no_such_partition("MemoryExec"@, partition),
            },
    {
        if let Err(e) = check_partition("MemoryExec", partition) {
            return Err(e);
        }
        let mut batches: Vec<RecordBatch> = Vec::new();
        let mut i: usize = 0;
        while i < self.batches.len()
            invariant
                forall|i: int| 0 <= i < self.batches@.len() ==> (#[trigger] self.batches@[i]).wf(),
                i <= self.batches.len(),
                batches.len() == i,
                forall|j: int|
                    0 <= j < i ==> (#[trigger] batches@[j]).wf() && batches@[j].schema@
                        == self.batches@[j].schema@ && batches@[j].rows() == self.batches@[j].rows(),
            decreases self.batches.len() - i,
        {
            assert(self.batches@[i as int].wf());
            batches.push(self.batches[i].clone());
            i += 1;
        }
        let projection: Option<Vec<usize>> = match &self.projection {
            Some(indices) => {
                let mut copy: Vec<usize> = Vec::new();
                let mut k: usize = 0;
                while k < indices.len()
                    invariant
                        k <= indices.len(),
                        copy@ == indices@.take(k as int),
                    decreases indices.len() - k,
                {
                    copy.push(indices[k]);
                    k += 1;
                    assert(copy@ == indices@.take(k as int));
                }
                assert(copy@ == indices@);
                Some(copy)
            },
            None => None,
        };
        Ok(MemoryStream { batches, projection, next: 0 })
    }

    /// The operator itself, which takes no children.
    pub fn with_new_children(self, children: Vec<Arc<ExecutionPlan>>) -> (r: Result<
        Self,
        FdapQueryError,
    >)
        ensures
            match r {
                Ok(same) => children@.len() == 0 && same == self,
                Err(e) => children@.len() != 0 && e@ == plan::not_a_leaf(
                    "MemoryExec"@,
                    children@.len(),
                ),
            },
    {
        match no_children("MemoryExec", &children) {
            Ok(_) => Ok(self),
            Err(e) => Err(e),
        }
    }
}

impl DisplayAs for MemoryExec {
    open spec fn displayable(&self) -> bool {
        true
    }

    open spec fn rendered(&self, t: DisplayFormatType) -> Seq<char> {
        "MemoryExec: batches="@ + text::decimal(self.batches@.len())
    }

    fn fmt_as(&self, t: DisplayFormatType) -> (r: String) {
        let mut out: String = owned("MemoryExec: batches=");
        push_decimal(&mut out, self.batches.len() as u128);
        out
    }
}

} // verus!
