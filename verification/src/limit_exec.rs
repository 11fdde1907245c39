//! Operators that limit the number of rows.
use vstd::prelude::*;
use std::sync::Arc;
use crate::batch::RecordBatch;
use crate::display::{DisplayAs, DisplayFormatType};
use crate::error::{Fault, FdapQueryError};
use crate::limits::LimitState;
use crate::partitioning::Partitioning;
use crate::plan::{check_partition, only_child, ExecutionPlan};
use crate::plan_properties::PlanProperties;
use crate::schema::{FieldModel, Schema};
use crate::text::{owned, push_decimal};
use crate::{batch, plan, text};

verus! {

/// Skips rows and limits how many come out, over all partitions.
#[derive(Debug)]
pub struct GlobalLimitExec {
    pub input: Arc<ExecutionPlan>,
    pub skip: usize,
    pub fetch: Option<usize>,
    pub properties: PlanProperties,
}

impl GlobalLimitExec {
    /// Skips `skip` rows and lets at most `fetch` rows through.
    pub fn new(input: Arc<ExecutionPlan>, skip: usize, fetch: Option<usize>) -> (r: Self)
        ensures
            r == (GlobalLimitExec {
                input,
                skip,
                fetch,
                properties: PlanProperties {
                    output_partitioning: Partitioning::UnknownPartitioning(1),
                },
            }),
    {
        let properties = PlanProperties::single_partition_unknown();
        GlobalLimitExec { input, skip, fetch, properties }
    }

    /// The input.
    pub fn input(&self) -> (r: &Arc<ExecutionPlan>)
        ensures
            *r == self.input,
    {
        &self.input
    }

    /// How many rows are skipped.
    pub fn skip(&self) -> (r: usize)
        ensures
            r == self.skip,
    {
        self.skip
    }

    /// How many rows are let through.
    pub fn fetch(&self) -> (r: Option<usize>)
        ensures
            r == self.fetch,
    {
        self.fetch
    }

    /// Starts limiting the batches of the input.
    pub fn execute(&self, partition: usize) -> (r: Result<LimitState, FdapQueryError>)
        ensures
            match r {
                Ok(state) => partition == 0 && state.skip == self.skip && state.remaining
                    == match self.fetch {
                    Some(n) => n,
                    None => usize::MAX,
                },
                Err(e) => partition != 0 && e@ == plan::no_such_partition(
                    "GlobalLimitExec"@,
                    partition,
                ),
            },
    {
        match check_partition("GlobalLimitExec", partition) {
            Ok(_) => Ok(LimitState::new(self.skip, self.fetch)),
            Err(e) => Err(e),
        }
    }

    /// The same limit over another input.
    pub fn with_new_children(self, children: Vec<Arc<ExecutionPlan>>) -> (r: Result<
        Self,
        FdapQueryError,
    >)
        ensures
            match r {
                Ok(rebuilt) => children@.len() == 1 && rebuilt.input == children@[0] && rebuilt.skip
                    == self.skip && rebuilt.fetch == self.fetch
                    && rebuilt.properties.output_partitioning == Partitioning::UnknownPartitioning(
                    1,
                ),
                Err(e) => children@.len() != 1 && e@ == plan::not_one_child(
                    "GlobalLimitExec"@,
                    children@.len(),
                ),
            },
    {
        match only_child("GlobalLimitExec", children) {
            Ok(child) => Ok(GlobalLimitExec::new(child, self.skip, self.fetch)),
            Err(e) => Err(e),
        }
    }
}

impl DisplayAs for GlobalLimitExec {
    open spec fn displayable(&self) -> bool {
        true
    }

    open spec fn rendered(&self, t: DisplayFormatType) -> Seq<char> {
        match t {
            DisplayFormatType::TreeRender => match self.fetch {
                Some(n) => "limit="@ + text::decimal(n as nat) + "\nskip="@ + text::decimal(
                    self.skip as nat,
                ),
                None => "skip="@ + text::decimal(self.skip as nat),
            },
            _ => "GlobalLimitExec: skip="@ + text::decimal(self.skip as nat) + ", fetch="@
                + match self.fetch {
                Some(n) => text::decimal(n as nat),
                None => "None"@,
            },
        }
    }

    fn fmt_as(&self, t: DisplayFormatType) -> (r: String) {
        match t {
            DisplayFormatType::TreeRender => match self.fetch {
                Some(n) => {
                    let mut out: String = owned("limit=");
                    push_decimal(&mut out, n as u128);
                    out.append("\nskip=");
                    push_decimal(&mut out, self.skip as u128);
                    out
                },
                None => {
                    let mut out: String = owned("skip=");
                    push_decimal(&mut out, self.skip as u128);
                    out
                },
            },
            _ => {
                let mut out: String = owned("GlobalLimitExec: skip=");
                push_decimal(&mut out, self.skip as u128);
                out.append(", fetch=");
                match self.fetch {
                    Some(n) => push_decimal(&mut out, n as u128),
                    None => out.append("None"),
                }
                out
            },
        }
    }
}

/// Limits how many rows come out of each partition.
#[derive(Debug)]
pub struct LocalLimitExec {
    pub input: Arc<ExecutionPlan>,
    pub fetch: usize,
    pub properties: PlanProperties,
}

impl LocalLimitExec {
    /// Lets at most `fetch` rows through.
    pub fn new(input: Arc<ExecutionPlan>, fetch: usize) -> (r: Self)
        ensures
            r == (LocalLimitExec {
                input,
                fetch,
                properties: PlanProperties {
                    output_partitioning: Partitioning::UnknownPartitioning(1),
                },
            }),
    {
        let properties = PlanProperties::single_partition_unknown();
        LocalLimitExec { input, fetch, properties }
    }

    /// The input.
    pub fn input(&self) -> (r: &Arc<ExecutionPlan>)
        ensures
            *r == self.input,
    {
        &self.input
    }

    /// How many rows are let through.
    pub fn fetch(&self) -> (r: usize)
        ensures
            r == self.fetch,
    {
        self.fetch
    }

    /// Starts limiting the batches of the input.
    pub fn execute(&self, partition: usize) -> (r: Result<LimitState, FdapQueryError>)
        ensures
            match r {
                Ok(state) => partition == 0 && state.skip == 0 && state.remaining == self.fetch,
                Err(e) => partition != 0 && e@ == plan::no_such_partition(
                    "LocalLimitExec"@,
                    partition,
                ),
            },
    {
        match check_partition("LocalLimitExec", partition) {
            Ok(_) => Ok(LimitState::new(0, Some(self.fetch))),
            Err(e) => Err(e),
        }
    }

    /// The same limit over another input.
    pub fn with_new_children(self, children: Vec<Arc<ExecutionPlan>>) -> (r: Result<
        Self,
        FdapQueryError,
    >)
        ensures
            match r {
                Ok(rebuilt) => children@.len() == 1 && rebuilt.input == children@[0]
                    && rebuilt.fetch == self.fetch && rebuilt.properties.output_partitioning
                    == Partitioning::UnknownPartitioning(1),
                Err(e) => children@.len() != 1 && e@ == plan::not_one_child(
                    "LocalLimitExec"@,
                    children@.len(),
                ),
            },
    {
        match only_child("LocalLimitExec", children) {
            Ok(child) => Ok(LocalLimitExec::new(child, self.fetch)),
            Err(e) => Err(e),
        }
    }
}

impl DisplayAs for LocalLimitExec {
    open spec fn displayable(&self) -> bool {
        true
    }

    open spec fn rendered(&self, t: DisplayFormatType) -> Seq<char> {
        match t {
            DisplayFormatType::TreeRender => "limit="@ + text::decimal(self.fetch as nat),
            _ => "LocalLimitExec: fetch="@ + text::decimal(self.fetch as nat),
        }
    }

    fn fmt_as(&self, t: DisplayFormatType) -> (r: String) {
        let mut out: String = match t {
            DisplayFormatType::TreeRender => owned("limit="),
            _ => owned("LocalLimitExec: fetch="),
        };
        push_decimal(&mut out, self.fetch as u128);
        out
    }
}

/// The error of putting the first `n` rows of a batch under a schema, if there is
/// one.
pub open spec fn truncation_fault(
    schema: Seq<FieldModel>,
    batch: RecordBatch,
    n: int,
) -> Option<Fault> {
    batch::batch_fault(
        schema,
        batch::transposed(batch.rows().take(n), batch.columns@.len()),
    )
}

/// The first `n` rows of a batch, under the given schema.
pub fn truncate(batch: &RecordBatch, n: usize, schema: Schema) -> (r: Result<
    RecordBatch,
    FdapQueryError,
>)
    requires
        batch.wf(),
        n <= batch.num_rows,
    ensures
        match r {
            Ok(out) => truncation_fault(schema@, *batch, n as int) is None && out.wf()
                && out.schema@ == schema@ && out.rows() == batch.rows().take(n as int),
            Err(e) => truncation_fault(schema@, *batch, n as int) == Some(e@),
        },
{
    let first = batch.slice(0, n);
    let ghost rows = first.rows();
    proof {
        assert(rows == batch.rows().take(n as int));
        batch::columns_are_rows_transposed(first);
        if first.columns@.len() > 0 {
            assert(first.columns@[0]@.len() == first.num_rows);
        }
    }
    let r = RecordBatch::try_new(schema, first.columns);
    assert(r matches Ok(out) ==> out.rows() =~= rows);
    r
}

/// Limits how many rows come out.
#[derive(Debug)]
pub struct LimitExec {
    pub input: Arc<ExecutionPlan>,
    pub limit: usize,
    pub properties: PlanProperties,
}

impl LimitExec {
    /// Lets at most `limit` rows through.
    pub fn new(input: Arc<ExecutionPlan>, limit: usize) -> (r: Self)
        ensures
            r == (LimitExec {
                input,
                limit,
                properties: PlanProperties {
                    output_partitioning: Partitioning::UnknownPartitioning(1),
                },
            }),
    {
        let properties = PlanProperties::single_partition_unknown();
        LimitExec { input, limit, properties }
    }

    /// Starts limiting the batches of the input.
    pub fn execute(&self, partition: usize) -> (r: Result<LimitState, FdapQueryError>)
        ensures
            match r {
                Ok(state) => partition == 0 && state.skip == 0 && state.remaining == self.limit,
                Err(e) => partition != 0 && e@ == plan::no_such_partition("LimitExec"@, partition),
            },
    {
        match check_partition("LimitExec", partition) {
            Ok(_) => Ok(LimitState::new(0, Some(self.limit))),
            Err(e) => Err(e),
        }
    }

    /// What is passed on of a batch: the batch itself, or its first rows under
    /// the schema of the input.
    pub fn next_batch(&self, state: &mut LimitState, batch: RecordBatch) -> (r: Result<
        RecordBatch,
        FdapQueryError,
    >)
        requires
            old(state).remaining > 0,
            old(state).skip == 0,
            batch.wf(),
        ensures
            *final(state) == old(state).after(batch.num_rows as int),
            if batch.num_rows <= old(state).remaining {
                r == Ok::<RecordBatch, FdapQueryError>(batch)
            } else {
                let n = old(state).remaining as int;
                match r {
                    Ok(out) => truncation_fault(self.input.spec_schema(), batch, n) is None
                        && out.wf() && out.schema@ == self.input.spec_schema() && out.rows()
                        == batch.rows().take(n),
                    Err(e) => truncation_fault(self.input.spec_schema(), batch, n) == Some(e@),
                }
            },
    {
        if batch.num_rows <= state.remaining {
            state.remaining = state.remaining - batch.num_rows;
            Ok(batch)
        } else {
            let take: usize = state.remaining;
            state.remaining = 0;
            truncate(&batch, take, self.input.schema())
        }
    }

    /// The same limit over another input.
    pub fn with_new_children(self, children: Vec<Arc<ExecutionPlan>>) -> (r: Result<
        Self,
        FdapQueryError,
    >)
        ensures
            match r {
                Ok(rebuilt) => children@.len() == 1 && rebuilt.input == children@[0]
                    && rebuilt.limit == self.limit && rebuilt.properties.output_partitioning
                    == Partitioning::UnknownPartitioning(1),
                Err(e) => children@.len() != 1 && e@ == plan::not_one_child(
                    "LimitExec"@,
                    children@.len(),
                ),
            },
    {
        match only_child("LimitExec", children) {
            Ok(child) => Ok(LimitExec::new(child, self.limit)),
            Err(e) => Err(e),
        }
    }
}

impl DisplayAs for LimitExec {
    open spec fn displayable(&self) -> bool {
        true
    }

    open spec fn rendered(&self, t: DisplayFormatType) -> Seq<char> {
        "LimitExec: limit="@ + text::decimal(self.limit as nat)
    }

    fn fmt_as(&self, t: DisplayFormatType) -> (r: String) {
        let mut out: String = owned("LimitExec: limit=");
        push_decimal(&mut out, self.limit as u128);
        out
    }
}

} // verus!
