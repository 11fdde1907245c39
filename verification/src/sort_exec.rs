//! The sort operator.
use vstd::prelude::*;
use std::sync::Arc;
use crate::batch::RecordBatch;
use crate::concat::concat_batches;
use crate::display::{DisplayAs, DisplayFormatType};
use crate::error::{Fault, FdapQueryError};
use crate::metrics::builder::ExecutionPlanMetricsSet;
use crate::metrics::value::NoCustomMetric;
use crate::partitioning::PartitioningModel;
use crate::plan::{check_partition, only_child, share, ExecutionPlan};
use crate::plan_properties::PlanProperties;
use crate::schema::Schema;
use crate::sorting::{format_exprs, sort_batch, PhysicalSortExpr, SortKey};
use crate::text::{owned, push_decimal};
use crate::{batch, concat, plan, sorting, text};

verus! {

/// The sort keys of a sort, the first deciding first.
pub type LexOrdering = Vec<PhysicalSortExpr>;

/// Sorts its input, and may hand out the first rows alone.
#[derive(Debug)]
pub struct SortExec {
    pub input: Arc<ExecutionPlan>,
    pub expr: LexOrdering,
    /// The metrics, which a copy of the operator shares.
    pub metrics_set: Arc<ExecutionPlanMetricsSet<NoCustomMetric>>,
    /// Whether each partition of the input is sorted by itself.
    pub preserve_partitioning: bool,
    /// How many rows are handed out.
    pub fetch: Option<usize>,
    pub cache: PlanProperties,
}

/// The output partitioning: that of the input where it is preserved, and a
/// single partition otherwise.
pub open spec fn sorted_partitioning(
    input: ExecutionPlan,
    preserve_partitioning: bool,
) -> PartitioningModel {
    if preserve_partitioning {
        input.spec_properties()@
    } else {
        PartitioningModel::UnknownPartitioning(1)
    }
}

/// The error of input batches that cannot be put together.
pub open spec fn concat_failed(reason: Seq<char>) -> Fault {
    Fault::Internal("SortExec: concat_batches failed: Invalid argument error: "@ + reason)
}

/// Whether two lists hold the same sort keys.
pub open spec fn same_keys(a: Seq<PhysicalSortExpr>, b: Seq<PhysicalSortExpr>) -> bool {
    a.len() == b.len() && forall|i: int|
        0 <= i < a.len() ==> (#[trigger] a[i]).expr@ == b[i].expr@ && a[i].options == b[i].options
}

fn copy_keys(keys: &LexOrdering) -> (r: LexOrdering)
    ensures
        same_keys(r@, keys@),
{
    let mut r: LexOrdering = Vec::new();
    let mut i: usize = 0;
    while i < keys.len()
        invariant
            i <= keys.len(),
            r.len() == i,
            forall|j: int|
                0 <= j < i ==> (#[trigger] r@[j]).expr@ == keys@[j].expr@ && r@[j].options
                    == keys@[j].options,
        decreases keys.len() - i,
    {
        r.push(keys[i].clone());
        i += 1;
    }
    r
}

impl Clone for SortExec {
    fn clone(&self) -> (r: Self)
        ensures
            r.input == self.input,
            same_keys(r.expr@, self.expr@),
            r.metrics_set == self.metrics_set,
            r.preserve_partitioning == self.preserve_partitioning,
            r.fetch == self.fetch,
            r.cache@ == self.cache@,
    {
        SortExec {
            input: share(&self.input),
            expr: copy_keys(&self.expr),
            metrics_set: share(&self.metrics_set),
            preserve_partitioning: self.preserve_partitioning,
            fetch: self.fetch,
            cache: self.cache.clone(),
        }
    }
}

impl SortExec {
    /// Sorts all of `input` into one partition.
    pub fn new(expr: LexOrdering, input: Arc<ExecutionPlan>) -> (r: Self)
        ensures
            r.input == input,
            r.expr == expr,
            r.metrics_set@.len() == 0,
            !r.preserve_partitioning,
            r.fetch is None,
            r.cache@ == PartitioningModel::UnknownPartitioning(1),
    {
        let cache = Self::compute_properties(&input, false);
        SortExec {
            input,
            expr,
            metrics_set: Arc::new(ExecutionPlanMetricsSet::new()),
            preserve_partitioning: false,
            fetch: None,
            cache,
        }
    }

    /// Whether each partition of the input is sorted by itself.
    pub fn preserve_partitioning(&self) -> (r: bool)
        ensures
            r == self.preserve_partitioning,
    {
        self.preserve_partitioning
    }

    /// The same sort, of each partition by itself or of all together.
    pub fn with_preserve_partitioning(self, preserve_partitioning: bool) -> (r: Self)
        ensures
            r.input == self.input,
            r.expr == self.expr,
            r.metrics_set == self.metrics_set,
            r.preserve_partitioning == preserve_partitioning,
            r.fetch == self.fetch,
            r.cache@ == sorted_partitioning(*self.input, preserve_partitioning),
    {
        let mut r = self;
        r.preserve_partitioning = preserve_partitioning;
        r.cache = Self::compute_properties(&r.input, preserve_partitioning);
        r
    }

    /// The same sort, handing out another number of rows.
    pub fn with_fetch(&self, fetch: Option<usize>) -> (r: Self)
        ensures
            r.input == self.input,
            same_keys(r.expr@, self.expr@),
            r.metrics_set == self.metrics_set,
            r.preserve_partitioning == self.preserve_partitioning,
            r.fetch == fetch,
            r.cache@ == self.cache@,
    {
        let mut r = self.clone();
        r.fetch = fetch;
        r
    }

    /// The input.
    pub fn input(&self) -> (r: &Arc<ExecutionPlan>)
        ensures
            *r == self.input,
    {
        &self.input
    }

    /// The sort keys.
    pub fn expr(&self) -> (r: &LexOrdering)
        ensures
            *r == self.expr,
    {
        &self.expr
    }

    /// How many rows are handed out.
    pub fn fetch(&self) -> (r: Option<usize>)
        ensures
            r == self.fetch,
    {
        self.fetch
    }

    fn compute_properties(input: &Arc<ExecutionPlan>, preserve_partitioning: bool) -> (r:
        PlanProperties)
        ensures
            r@ == sorted_partitioning(**input, preserve_partitioning),
    {
        if preserve_partitioning {
            PlanProperties::new(input.properties().output_partitioning.clone())
        } else {
            PlanProperties::single_partition_unknown()
        }
    }

    /// Starts sorting a partition: gives the schema of the output.
    pub fn execute(&self, partition: usize) -> (r: Result<Schema, FdapQueryError>)
        ensures
            match r {
                Ok(schema) => (self.preserve_partitioning || partition == 0) && schema@
                    == self.input.spec_schema(),
                Err(e) => !self.preserve_partitioning && partition != 0 && e@
                    == plan::no_such_partition("SortExec"@, partition),
            },
    {
        if !self.preserve_partitioning {
            if let Err(e) = check_partition("SortExec", partition) {
                return Err(e);
            }
        }
        Ok(self.input.schema())
    }

    /// All batches of the input put together under the schema of the input;
    /// nothing where there are none.
    pub fn combine(&self, batches: &Vec<RecordBatch>) -> (r: Result<
        Option<RecordBatch>,
        FdapQueryError,
    >)
        requires
            forall|i: int|
                0 <= i < batches@.len() ==> (#[trigger] batches@[i]).wf()
                    && batches@[i].columns@.len() >= self.input.spec_schema().len(),
            concat::stacked(batches@, self.input.spec_schema().len()).len() <= usize::MAX,
        ensures
            match r {
                Ok(Some(all)) => batches@.len() > 0 && concat::concat_fault(
                    self.input.spec_schema(),
                    batches@,
                ) is None && all.wf() && all.schema@ == self.input.spec_schema() && all.rows()
                    == concat::stacked(batches@, self.input.spec_schema().len()),
                Ok(None) => batches@.len() == 0,
                Err(e) => batches@.len() > 0 && match concat::concat_fault(
                    self.input.spec_schema(),
                    batches@,
                ) {
                    Some(reason) => e@ == concat_failed(reason),
                    None => false,
                },
            },
    {
        if batches.is_empty() {
            return Ok(None);
        }
        match concat_batches(&self.input.schema(), batches) {
            Ok(all) => Ok(Some(all)),
            Err(reason) => {
                let mut m: String = owned(
                    "SortExec: concat_batches failed: Invalid argument error: ",
                );
                m.append(reason.as_str());
                Err(FdapQueryError::Internal(m))
            },
        }
    }

    /// The output: the rows in order, and no more of them than are to be handed
    /// out, given the values of the sort keys for each row.
    pub fn finish(&self, combined: &RecordBatch, keys: &Vec<SortKey>) -> (r: Result<
        RecordBatch,
        FdapQueryError,
    >)
        requires
            combined.wf(),
            combined.num_rows <= u32::MAX,
            forall|i: int|
                0 <= i < keys@.len() ==> (#[trigger] keys@[i]).values@.len() == combined.num_rows
                    && sorting::sortable(keys@[i].values@),
        ensures
            match r {
                Ok(sorted) => keys@.len() > 0 && sorted.wf() && sorted.schema@ == combined.schema@
                    && exists|positions: Seq<int>|
                    #[trigger] sorting::first_in_order(
                        positions,
                        sorting::sort_keys(keys@),
                        combined.num_rows as int,
                        self.fetch,
                    ) && sorted.rows() == batch::gathered(combined.rows(), positions),
                Err(e) => keys@.len() == 0 && e@ == Fault::Internal(
                    "SortExec: lexsort_to_indices failed: Invalid argument error: Sort requires at least one column"@,
                ),
            },
    {
        sort_batch(combined, keys, self.fetch)
    }

    /// The same sort over another input.
    pub fn with_new_children(self, children: Vec<Arc<ExecutionPlan>>) -> (r: Result<
        Self,
        FdapQueryError,
    >)
        ensures
            match r {
                Ok(rebuilt) => children@.len() == 1 && {
                    &&& rebuilt.input == children@[0]
                    &&& rebuilt.expr == self.expr
                    &&& rebuilt.metrics_set == self.metrics_set
                    &&& rebuilt.preserve_partitioning == self.preserve_partitioning
                    &&& rebuilt.fetch == self.fetch
                    &&& rebuilt.cache@ == sorted_partitioning(
                        *children@[0],
                        self.preserve_partitioning,
                    )
                },
                Err(e) => children@.len() != 1 && e@ == plan::not_one_child(
                    "SortExec"@,
                    children@.len(),
                ),
            },
    {
        match only_child("SortExec", children) {
            Ok(child) => {
                let cache = Self::compute_properties(&child, self.preserve_partitioning);
                Ok(
                    SortExec {
                        input: child,
                        expr: self.expr,
                        metrics_set: self.metrics_set,
                        preserve_partitioning: self.preserve_partitioning,
                        fetch: self.fetch,
                        cache,
                    },
                )
            },
            Err(e) => Err(e),
        }
    }
}

impl DisplayAs for SortExec {
    open spec fn displayable(&self) -> bool {
        true
    }

    open spec fn rendered(&self, t: DisplayFormatType) -> Seq<char> {
        match t {
            DisplayFormatType::TreeRender => sorting::ordering_text(self.expr@) + "\n"@
                + match self.fetch {
                Some(n) => "limit="@ + text::decimal(n as nat) + "\n"@,
                None => seq![],
            },
            _ => "SortExec: "@ + (match self.fetch {
                Some(n) => "TopK(fetch="@ + text::decimal(n as nat) + "), "@,
                None => seq![],
            }) + "expr=["@ + sorting::ordering_text(self.expr@) + "], preserve_partitioning=["@ + (
            if self.preserve_partitioning {
                "true"@
            } else {
                "false"@
            }) + "]"@,
        }
    }

    fn fmt_as(&self, t: DisplayFormatType) -> (r: String) {
        let keys = format_exprs(&self.expr);
        match t {
            DisplayFormatType::TreeRender => {
                let mut out: String = keys;
                out.append("\n");
                if let Some(n) = self.fetch {
                    out.append("limit=");
                    push_decimal(&mut out, n as u128);
                    out.append("\n");
                }
                assert(out@ == self.rendered(t));
                out
            },
            _ => {
                let mut out: String = owned("SortExec: ");
                if let Some(n) = self.fetch {
                    out.append("TopK(fetch=");
                    push_decimal(&mut out, n as u128);
                    out.append("), ");
                }
                out.append("expr=[");
                out.append(keys.as_str());
                out.append("], preserve_partitioning=[");
                if self.preserve_partitioning {
                    out.append("true");
                } else {
                    out.append("false");
                }
                out.append("]");
                assert(out@ == self.rendered(t));
                out
            },
        }
    }
}

} // verus!
