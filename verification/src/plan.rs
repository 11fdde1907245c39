//! Execution plans: trees of physical operators.
use vstd::prelude::*;
use std::sync::Arc;
use crate::aggregate_exec::AggregateExec;
use crate::data_source_exec::DataSourceExec;
use crate::display::{DisplayAs, DisplayFormatType};
use crate::error::{Fault, FdapQueryError};
use crate::extension_exec::ExtensionExec;
use crate::filter_exec::{FilterExec, SelectionExec};
use crate::hash_join_exec::{HashJoinExec, PartitionMode};
use crate::limit_exec::{GlobalLimitExec, LimitExec, LocalLimitExec};
use crate::memory_exec::MemoryExec;
use crate::metrics::metrics_set::{MetricModel, MetricsSet};
use crate::metrics::value::NoCustomMetric;
use crate::plan_properties::PlanProperties;
use crate::projection_exec::ProjectionExec;
use crate::scan_exec::ScanExec;
use crate::schema::{FieldModel, Schema};
use crate::shuffle_reader_exec::ShuffleReaderExec;
use crate::shuffle_writer_exec::ShuffleWriterExec;
use crate::sort_exec::SortExec;
use crate::text::{owned, push_decimal};
use crate::text;

verus! {

/// A tree of physical operators.
#[derive(Debug)]
pub enum ExecutionPlan {
    Aggregate(AggregateExec),
    DataSource(DataSourceExec),
    Filter(FilterExec),
    GlobalLimit(GlobalLimitExec),
    HashJoin(HashJoinExec),
    Limit(LimitExec),
    LocalLimit(LocalLimitExec),
    Memory(MemoryExec),
    Projection(ProjectionExec),
    Scan(ScanExec),
    Selection(SelectionExec),
    ShuffleReader(ShuffleReaderExec),
    ShuffleWriter(ShuffleWriterExec),
    Sort(SortExec),
    /// An operator defined elsewhere.
    Extension(ExtensionExec),
}

/// `Arc::clone`: another pointer to the same value.
#[verifier::external_body]
pub(crate) fn share<T>(value: &Arc<T>) -> (r: Arc<T>)
    ensures
        r == *value,
{
    Arc::clone(value)
}

/// The error of an operator with one output partition that is asked for another.
pub open spec fn no_such_partition(name: Seq<char>, partition: usize) -> Fault {
    Fault::Internal(
        name + " has 1 output partition; partition "@ + text::decimal(partition as nat)
            + " is out of range"@,
    )
}

/// The error of an operator with one child that is given another number.
pub open spec fn not_one_child(name: Seq<char>, n: nat) -> Fault {
    Fault::Internal(name + "::with_new_children expected 1 child, got "@ + text::decimal(n))
}

/// The error of an operator without children that is given some.
pub open spec fn not_a_leaf(name: Seq<char>, n: nat) -> Fault {
    Fault::Internal(name + " is a leaf and expects no children, got "@ + text::decimal(n))
}

/// Refuses any partition but the first.
pub fn check_partition(name: &str, partition: usize) -> (r: Result<(), FdapQueryError>)
    ensures
        match r {
            Ok(_) => partition == 0,
            Err(e) => partition != 0 && e@ == no_such_partition(name@, partition),
        },
{
    if partition != 0 {
        let mut m: String = owned(name);
        m.append(" has 1 output partition; partition ");
        push_decimal(&mut m, partition as u128);
        m.append(" is out of range");
        return Err(FdapQueryError::Internal(m));
    }
    Ok(())
}

/// The one child of an operator with one child.
pub fn only_child(name: &str, children: Vec<Arc<ExecutionPlan>>) -> (r: Result<
    Arc<ExecutionPlan>,
    FdapQueryError,
>)
    ensures
        match r {
            Ok(child) => children@.len() == 1 && child == children@[0],
            Err(e) => children@.len() != 1 && e@ == not_one_child(name@, children@.len()),
        },
{
    let mut children = children;
    if children.len() != 1 {
        let mut m: String = owned(name);
        m.append("::with_new_children expected 1 child, got ");
        push_decimal(&mut m, children.len() as u128);
        return Err(FdapQueryError::Internal(m));
    }
    Ok(children.remove(0))
}

/// Refuses children for an operator without children.
pub fn no_children(name: &str, children: &Vec<Arc<ExecutionPlan>>) -> (r: Result<
    (),
    FdapQueryError,
>)
    ensures
        match r {
            Ok(_) => children@.len() == 0,
            Err(e) => children@.len() != 0 && e@ == not_a_leaf(name@, children@.len()),
        },
{
    if children.len() != 0 {
        let mut m: String = owned(name);
        m.append(" is a leaf and expects no children, got ");
        push_decimal(&mut m, children.len() as u128);
        return Err(FdapQueryError::Internal(m));
    }
    Ok(())
}

/// Whether `rebuilt` is the operator `plan`, but for its children and what
/// follows from them.
pub open spec fn rebuilt_from(rebuilt: ExecutionPlan, plan: ExecutionPlan) -> bool {
    match (rebuilt, plan) {
        (ExecutionPlan::Aggregate(a), ExecutionPlan::Aggregate(b)) => a.mode == b.mode && a.group_by
            == b.group_by && a.aggr_expr == b.aggr_expr && a.filter_expr == b.filter_expr && a.schema
            == b.schema && a.input_schema == b.input_schema,
        (ExecutionPlan::DataSource(a), ExecutionPlan::DataSource(b)) => a == b,
        (ExecutionPlan::Filter(a), ExecutionPlan::Filter(b)) => a.predicate == b.predicate,
        (ExecutionPlan::GlobalLimit(a), ExecutionPlan::GlobalLimit(b)) => a.skip == b.skip
            && a.fetch == b.fetch,
        (ExecutionPlan::HashJoin(a), ExecutionPlan::HashJoin(b)) => a.on == b.on && a.filter
            == b.filter && a.join_type == b.join_type && a.join_schema == b.join_schema && a.mode
            == b.mode.settled() && a.projection == b.projection && a.column_indices
            == b.column_indices && a.null_equality == b.null_equality && a.null_aware
            == b.null_aware && a.right_columns_to_exclude == b.right_columns_to_exclude,
        (ExecutionPlan::Limit(a), ExecutionPlan::Limit(b)) => a.limit == b.limit,
        (ExecutionPlan::LocalLimit(a), ExecutionPlan::LocalLimit(b)) => a.fetch == b.fetch,
        (ExecutionPlan::Memory(a), ExecutionPlan::Memory(b)) => a == b,
        (ExecutionPlan::Projection(a), ExecutionPlan::Projection(b)) => a.expr == b.expr && a.schema
            == b.schema,
        (ExecutionPlan::Scan(a), ExecutionPlan::Scan(b)) => a == b,
        (ExecutionPlan::Selection(a), ExecutionPlan::Selection(b)) => a.expr == b.expr,
        (ExecutionPlan::ShuffleReader(a), ExecutionPlan::ShuffleReader(b)) => a == b,
        (ExecutionPlan::ShuffleWriter(a), ExecutionPlan::ShuffleWriter(b)) => a.partition_expr
            == b.partition_expr && a.job_uuid@ == b.job_uuid@ && a.stage_id == b.stage_id
            && a.partition_count == b.partition_count,
        (ExecutionPlan::Sort(a), ExecutionPlan::Sort(b)) => a.expr == b.expr && a.metrics_set
            == b.metrics_set && a.preserve_partitioning == b.preserve_partitioning && a.fetch
            == b.fetch,
        (ExecutionPlan::Extension(a), ExecutionPlan::Extension(b)) => a.name == b.name && a.labels
            == b.labels && a.schema == b.schema && a.properties == b.properties && a.metrics
            == b.metrics,
        _ => false,
    }
}

/// Rebuilding an operator with the children that it has changes nothing that is
/// shown of it, and neither its name nor its schema.
pub proof fn rebuilding_keeps_the_operator(rebuilt: ExecutionPlan, plan: ExecutionPlan)
    requires
        rebuilt_from(rebuilt, plan),
        rebuilt.spec_children() == plan.spec_children(),
        plan matches ExecutionPlan::HashJoin(join) ==> join.mode != PartitionMode::Auto,
    ensures
        rebuilt.spec_name() == plan.spec_name(),
        rebuilt.spec_schema() == plan.spec_schema(),
        forall|t: DisplayFormatType| #[trigger] rebuilt.rendered(t) == plan.rendered(t),
{
    match (rebuilt, plan) {
        (ExecutionPlan::Filter(a), ExecutionPlan::Filter(b)) => {
            assert(seq![a.input][0] == seq![b.input][0]);
        },
        (ExecutionPlan::GlobalLimit(a), ExecutionPlan::GlobalLimit(b)) => {
            assert(seq![a.input][0] == seq![b.input][0]);
        },
        (ExecutionPlan::Limit(a), ExecutionPlan::Limit(b)) => {
            assert(seq![a.input][0] == seq![b.input][0]);
        },
        (ExecutionPlan::LocalLimit(a), ExecutionPlan::LocalLimit(b)) => {
            assert(seq![a.input][0] == seq![b.input][0]);
        },
        (ExecutionPlan::Selection(a), ExecutionPlan::Selection(b)) => {
            assert(seq![a.input][0] == seq![b.input][0]);
        },
        (ExecutionPlan::ShuffleWriter(a), ExecutionPlan::ShuffleWriter(b)) => {
            assert(seq![a.input][0] == seq![b.input][0]);
        },
        (ExecutionPlan::Sort(a), ExecutionPlan::Sort(b)) => {
            assert(seq![a.input][0] == seq![b.input][0]);
        },
        _ => {},
    }
}

impl ExecutionPlan {
    /// The name of the operator.
    pub open spec fn spec_name(self) -> Seq<char> {
        match self {
            ExecutionPlan::Aggregate(_) => "AggregateExec"@,
            ExecutionPlan::DataSource(_) => "DataSourceExec"@,
            ExecutionPlan::Filter(_) => "FilterExec"@,
            ExecutionPlan::GlobalLimit(_) => "GlobalLimitExec"@,
            ExecutionPlan::HashJoin(_) => "HashJoinExec"@,
            ExecutionPlan::Limit(_) => "LimitExec"@,
            ExecutionPlan::LocalLimit(_) => "LocalLimitExec"@,
            ExecutionPlan::Memory(_) => "MemoryExec"@,
            ExecutionPlan::Projection(_) => "ProjectionExec"@,
            ExecutionPlan::Scan(_) => "ScanExec"@,
            ExecutionPlan::Selection(_) => "SelectionExec"@,
            ExecutionPlan::ShuffleReader(_) => "ShuffleReaderExec"@,
            ExecutionPlan::ShuffleWriter(_) => "ShuffleWriterExec"@,
            ExecutionPlan::Sort(op) => match op.fetch {
                Some(_) => "SortExec(TopK)"@,
                None => "SortExec"@,
            },
            ExecutionPlan::Extension(op) => op.name@,
        }
    }

    /// The name of the operator.
    pub fn name(&self) -> (r: &str)
        ensures
            r@ == self.spec_name(),
    {
        match self {
            ExecutionPlan::Aggregate(_) => "AggregateExec",
            ExecutionPlan::DataSource(_) => "DataSourceExec",
            ExecutionPlan::Filter(_) => "FilterExec",
            ExecutionPlan::GlobalLimit(_) => "GlobalLimitExec",
            ExecutionPlan::HashJoin(_) => "HashJoinExec",
            ExecutionPlan::Limit(_) => "LimitExec",
            ExecutionPlan::LocalLimit(_) => "LocalLimitExec",
            ExecutionPlan::Memory(_) => "MemoryExec",
            ExecutionPlan::Projection(_) => "ProjectionExec",
            ExecutionPlan::Scan(_) => "ScanExec",
            ExecutionPlan::Selection(_) => "SelectionExec",
            ExecutionPlan::ShuffleReader(_) => "ShuffleReaderExec",
            ExecutionPlan::ShuffleWriter(_) => "ShuffleWriterExec",
            ExecutionPlan::Sort(op) => match op.fetch {
                Some(_) => "SortExec(TopK)",
                None => "SortExec",
            },
            ExecutionPlan::Extension(op) => op.name.as_str(),
        }
    }

    /// The schema of the output.
    pub open spec fn spec_schema(self) -> Seq<FieldModel>
        decreases self,
    {
        match self {
            ExecutionPlan::Aggregate(op) => op.schema@,
            ExecutionPlan::DataSource(op) => op.schema@,
            ExecutionPlan::Filter(op) => op.input.spec_schema(),
            ExecutionPlan::GlobalLimit(op) => op.input.spec_schema(),
            ExecutionPlan::HashJoin(op) => op.join_schema@,
            ExecutionPlan::Limit(op) => op.input.spec_schema(),
            ExecutionPlan::LocalLimit(op) => op.input.spec_schema(),
            ExecutionPlan::Memory(op) => op.schema@,
            ExecutionPlan::Projection(op) => op.schema@,
            ExecutionPlan::Scan(op) => op.schema@,
            ExecutionPlan::Selection(op) => op.input.spec_schema(),
            ExecutionPlan::ShuffleReader(op) => op.shuffle_schema@,
            ExecutionPlan::ShuffleWriter(op) => op.input.spec_schema(),
            ExecutionPlan::Sort(op) => op.input.spec_schema(),
            ExecutionPlan::Extension(op) => op.schema@,
        }
    }

    /// The schema of the output.
    pub fn schema(&self) -> (r: Schema)
        ensures
            r@ == self.spec_schema(),
        decreases self,
    {
        match self {
            ExecutionPlan::Aggregate(op) => op.schema.clone(),
            ExecutionPlan::DataSource(op) => op.schema.clone(),
            ExecutionPlan::Filter(op) => op.input.schema(),
            ExecutionPlan::GlobalLimit(op) => op.input.schema(),
            ExecutionPlan::HashJoin(op) => op.join_schema.clone(),
            ExecutionPlan::Limit(op) => op.input.schema(),
            ExecutionPlan::LocalLimit(op) => op.input.schema(),
            ExecutionPlan::Memory(op) => op.schema.clone(),
            ExecutionPlan::Projection(op) => op.schema.clone(),
            ExecutionPlan::Scan(op) => op.schema.clone(),
            ExecutionPlan::Selection(op) => op.input.schema(),
            ExecutionPlan::ShuffleReader(op) => op.shuffle_schema.clone(),
            ExecutionPlan::ShuffleWriter(op) => op.input.schema(),
            ExecutionPlan::Sort(op) => op.input.schema(),
            ExecutionPlan::Extension(op) => op.schema.clone(),
        }
    }

    /// What is known of the output before the plan runs.
    pub open spec fn spec_properties(self) -> PlanProperties {
        match self {
            ExecutionPlan::Aggregate(op) => op.properties,
            ExecutionPlan::DataSource(op) => op.properties,
            ExecutionPlan::Filter(op) => op.properties,
            ExecutionPlan::GlobalLimit(op) => op.properties,
            ExecutionPlan::HashJoin(op) => op.properties,
            ExecutionPlan::Limit(op) => op.properties,
            ExecutionPlan::LocalLimit(op) => op.properties,
            ExecutionPlan::Memory(op) => op.properties,
            ExecutionPlan::Projection(op) => op.properties,
            ExecutionPlan::Scan(op) => op.properties,
            ExecutionPlan::Selection(op) => op.properties,
            ExecutionPlan::ShuffleReader(op) => op.properties,
            ExecutionPlan::ShuffleWriter(op) => op.properties,
            ExecutionPlan::Sort(op) => op.cache,
            ExecutionPlan::Extension(op) => op.properties,
        }
    }

    /// What is known of the output before the plan runs.
    pub fn properties(&self) -> (r: &PlanProperties)
        ensures
            *r == self.spec_properties(),
    {
        match self {
            ExecutionPlan::Aggregate(op) => &op.properties,
            ExecutionPlan::DataSource(op) => &op.properties,
            ExecutionPlan::Filter(op) => &op.properties,
            ExecutionPlan::GlobalLimit(op) => &op.properties,
            ExecutionPlan::HashJoin(op) => &op.properties,
            ExecutionPlan::Limit(op) => &op.properties,
            ExecutionPlan::LocalLimit(op) => &op.properties,
            ExecutionPlan::Memory(op) => &op.properties,
            ExecutionPlan::Projection(op) => &op.properties,
            ExecutionPlan::Scan(op) => &op.properties,
            ExecutionPlan::Selection(op) => &op.properties,
            ExecutionPlan::ShuffleReader(op) => &op.properties,
            ExecutionPlan::ShuffleWriter(op) => &op.properties,
            ExecutionPlan::Sort(op) => &op.cache,
            ExecutionPlan::Extension(op) => &op.properties,
        }
    }

    /// The children, in order.
    pub open spec fn spec_children(self) -> Seq<Arc<ExecutionPlan>> {
        match self {
            ExecutionPlan::Aggregate(op) => seq![op.input],
            ExecutionPlan::DataSource(_) => seq![],
            ExecutionPlan::Filter(op) => seq![op.input],
            ExecutionPlan::GlobalLimit(op) => seq![op.input],
            ExecutionPlan::HashJoin(op) => seq![op.left, op.right],
            ExecutionPlan::Limit(op) => seq![op.input],
            ExecutionPlan::LocalLimit(op) => seq![op.input],
            ExecutionPlan::Memory(_) => seq![],
            ExecutionPlan::Projection(op) => seq![op.input],
            ExecutionPlan::Scan(_) => seq![],
            ExecutionPlan::Selection(op) => seq![op.input],
            ExecutionPlan::ShuffleReader(_) => seq![],
            ExecutionPlan::ShuffleWriter(op) => seq![op.input],
            ExecutionPlan::Sort(op) => seq![op.input],
            ExecutionPlan::Extension(op) => op.children@,
        }
    }

    /// The children, in order.
    pub fn children(&self) -> (r: Vec<&Arc<ExecutionPlan>>)
        ensures
            r@.len() == self.spec_children().len(),
            forall|i: int| 0 <= i < r@.len() ==> *(#[trigger] r@[i]) == self.spec_children()[i],
    {
        let mut r: Vec<&Arc<ExecutionPlan>> = Vec::new();
        match self {
            ExecutionPlan::Aggregate(op) => r.push(&op.input),
            ExecutionPlan::DataSource(_) => {},
            ExecutionPlan::Filter(op) => r.push(&op.input),
            ExecutionPlan::GlobalLimit(op) => r.push(&op.input),
            ExecutionPlan::HashJoin(op) => {
                r.push(&op.left);
                r.push(&op.right);
            },
            ExecutionPlan::Limit(op) => r.push(&op.input),
            ExecutionPlan::LocalLimit(op) => r.push(&op.input),
            ExecutionPlan::Memory(_) => {},
            ExecutionPlan::Projection(op) => r.push(&op.input),
            ExecutionPlan::Scan(_) => {},
            ExecutionPlan::Selection(op) => r.push(&op.input),
            ExecutionPlan::ShuffleReader(_) => {},
            ExecutionPlan::ShuffleWriter(op) => r.push(&op.input),
            ExecutionPlan::Sort(op) => r.push(&op.input),
            ExecutionPlan::Extension(op) => {
                let mut i: usize = 0;
                while i < op.children.len()
                    invariant
                        i <= op.children.len(),
                        r.len() == i,
                        forall|j: int| 0 <= j < i ==> *(#[trigger] r@[j]) == op.children@[j],
                    decreases op.children.len() - i,
                {
                    r.push(&op.children[i]);
                    i += 1;
                }
            },
        }
        r
    }

    /// What has been measured of the operator: nothing but where it is defined
    /// elsewhere.
    pub open spec fn spec_metrics(self) -> Option<Seq<MetricModel<()>>> {
        match self {
            ExecutionPlan::Extension(op) => match op.metrics {
                Some(metrics) => Some(metrics@),
                None => None,
            },
            _ => None,
        }
    }

    /// What has been measured of the operator.
    pub fn metrics(&self) -> (r: Option<MetricsSet<NoCustomMetric>>)
        ensures
            match r {
                Some(metrics) => self.spec_metrics() == Some(metrics@),
                None => self.spec_metrics() is None,
            },
    {
        match self {
            ExecutionPlan::Extension(op) => match &op.metrics {
                Some(metrics) => Some(metrics.snapshot()),
                None => None,
            },
            _ => None,
        }
    }

    /// How many children the operator takes.
    pub open spec fn arity(self) -> nat {
        self.spec_children().len()
    }

    /// The error of giving the operator `n` children, where it takes another
    /// number.
    pub open spec fn arity_fault(self, n: nat) -> Fault {
        match self {
            ExecutionPlan::Aggregate(_) => not_one_child("AggregateExec"@, n),
            ExecutionPlan::DataSource(_) => not_a_leaf("DataSourceExec"@, n),
            ExecutionPlan::Filter(_) => not_one_child("FilterExec"@, n),
            ExecutionPlan::GlobalLimit(_) => not_one_child("GlobalLimitExec"@, n),
            ExecutionPlan::HashJoin(_) => Fault::Internal(
                "HashJoinExec::with_new_children expected 2 children (left, right), got "@
                    + text::decimal(n),
            ),
            ExecutionPlan::Limit(_) => not_one_child("LimitExec"@, n),
            ExecutionPlan::LocalLimit(_) => not_one_child("LocalLimitExec"@, n),
            ExecutionPlan::Memory(_) => not_a_leaf("MemoryExec"@, n),
            ExecutionPlan::Projection(_) => not_one_child("ProjectionExec"@, n),
            ExecutionPlan::Scan(_) => not_a_leaf("ScanExec"@, n),
            ExecutionPlan::Selection(_) => not_one_child("SelectionExec"@, n),
            ExecutionPlan::ShuffleReader(_) => not_a_leaf("ShuffleReaderExec"@, n),
            ExecutionPlan::ShuffleWriter(_) => not_one_child("ShuffleWriterExec"@, n),
            ExecutionPlan::Sort(_) => not_one_child("SortExec"@, n),
            ExecutionPlan::Extension(op) => Fault::Internal(
                op.name@ + "::with_new_children expected "@ + text::decimal(op.children@.len())
                    + " children, got "@ + text::decimal(n),
            ),
        }
    }

    /// The same operator over other children.
    pub fn with_new_children(self, children: Vec<Arc<ExecutionPlan>>) -> (r: Result<
        ExecutionPlan,
        FdapQueryError,
    >)
        ensures
            match r {
                Ok(rebuilt) => children@.len() == self.arity() && rebuilt.spec_children()
                    == children@ && rebuilt_from(rebuilt, self),
                Err(e) => children@.len() != self.arity() && e@ == self.arity_fault(
                    children@.len(),
                ),
            },
    {
        match self {
            ExecutionPlan::Aggregate(op) => match op.with_new_children(children) {
                Ok(rebuilt) => Ok(ExecutionPlan::Aggregate(rebuilt)),
                Err(e) => Err(e),
            },
            ExecutionPlan::DataSource(op) => match op.with_new_children(children) {
                Ok(rebuilt) => Ok(ExecutionPlan::DataSource(rebuilt)),
                Err(e) => Err(e),
            },
            ExecutionPlan::Filter(op) => match op.with_new_children(children) {
                Ok(rebuilt) => Ok(ExecutionPlan::Filter(rebuilt)),
                Err(e) => Err(e),
            },
            ExecutionPlan::GlobalLimit(op) => match op.with_new_children(children) {
                Ok(rebuilt) => Ok(ExecutionPlan::GlobalLimit(rebuilt)),
                Err(e) => Err(e),
            },
            ExecutionPlan::HashJoin(op) => match op.with_new_children(children) {
                Ok(rebuilt) => Ok(ExecutionPlan::HashJoin(rebuilt)),
                Err(e) => Err(e),
            },
            ExecutionPlan::Limit(op) => match op.with_new_children(children) {
                Ok(rebuilt) => Ok(ExecutionPlan::Limit(rebuilt)),
                Err(e) => Err(e),
            },
            ExecutionPlan::LocalLimit(op) => match op.with_new_children(children) {
                Ok(rebuilt) => Ok(ExecutionPlan::LocalLimit(rebuilt)),
                Err(e) => Err(e),
            },
            ExecutionPlan::Memory(op) => match op.with_new_children(children) {
                Ok(rebuilt) => Ok(ExecutionPlan::Memory(rebuilt)),
                Err(e) => Err(e),
            },
            ExecutionPlan::Projection(op) => match op.with_new_children(children) {
                Ok(rebuilt) => Ok(ExecutionPlan::Projection(rebuilt)),
                Err(e) => Err(e),
            },
            ExecutionPlan::Scan(op) => match op.with_new_children(children) {
                Ok(rebuilt) => Ok(ExecutionPlan::Scan(rebuilt)),
                Err(e) => Err(e),
            },
            ExecutionPlan::Selection(op) => match op.with_new_children(children) {
                Ok(rebuilt) => Ok(ExecutionPlan::Selection(rebuilt)),
                Err(e) => Err(e),
            },
            ExecutionPlan::ShuffleReader(op) => match op.with_new_children(children) {
                Ok(rebuilt) => Ok(ExecutionPlan::ShuffleReader(rebuilt)),
                Err(e) => Err(e),
            },
            ExecutionPlan::ShuffleWriter(op) => match op.with_new_children(children) {
                Ok(rebuilt) => Ok(ExecutionPlan::ShuffleWriter(rebuilt)),
                Err(e) => Err(e),
            },
            ExecutionPlan::Sort(op) => match op.with_new_children(children) {
                Ok(rebuilt) => Ok(ExecutionPlan::Sort(rebuilt)),
                Err(e) => Err(e),
            },
            ExecutionPlan::Extension(op) => match op.with_new_children(children) {
                Ok(rebuilt) => Ok(ExecutionPlan::Extension(rebuilt)),
                Err(e) => Err(e),
            },
        }
    }
}

impl DisplayAs for ExecutionPlan {
    open spec fn displayable(&self) -> bool {
        match *self {
            ExecutionPlan::Aggregate(op) => op.displayable(),
            ExecutionPlan::DataSource(op) => op.displayable(),
            ExecutionPlan::Filter(op) => op.displayable(),
            ExecutionPlan::GlobalLimit(op) => op.displayable(),
            ExecutionPlan::HashJoin(op) => op.displayable(),
            ExecutionPlan::Limit(op) => op.displayable(),
            ExecutionPlan::LocalLimit(op) => op.displayable(),
            ExecutionPlan::Memory(op) => op.displayable(),
            ExecutionPlan::Projection(op) => op.displayable(),
            ExecutionPlan::Scan(op) => op.displayable(),
            ExecutionPlan::Selection(op) => op.displayable(),
            ExecutionPlan::ShuffleReader(op) => op.displayable(),
            ExecutionPlan::ShuffleWriter(op) => op.displayable(),
            ExecutionPlan::Sort(op) => op.displayable(),
            ExecutionPlan::Extension(op) => op.displayable(),
        }
    }

    open spec fn rendered(&self, t: DisplayFormatType) -> Seq<char> {
        match *self {
            ExecutionPlan::Aggregate(op) => op.rendered(t),
            ExecutionPlan::DataSource(op) => op.rendered(t),
            ExecutionPlan::Filter(op) => op.rendered(t),
            ExecutionPlan::GlobalLimit(op) => op.rendered(t),
            ExecutionPlan::HashJoin(op) => op.rendered(t),
            ExecutionPlan::Limit(op) => op.rendered(t),
            ExecutionPlan::LocalLimit(op) => op.rendered(t),
            ExecutionPlan::Memory(op) => op.rendered(t),
            ExecutionPlan::Projection(op) => op.rendered(t),
            ExecutionPlan::Scan(op) => op.rendered(t),
            ExecutionPlan::Selection(op) => op.rendered(t),
            ExecutionPlan::ShuffleReader(op) => op.rendered(t),
            ExecutionPlan::ShuffleWriter(op) => op.rendered(t),
            ExecutionPlan::Sort(op) => op.rendered(t),
            ExecutionPlan::Extension(op) => op.rendered(t),
        }
    }

    fn fmt_as(&self, t: DisplayFormatType) -> (r: String) {
        match self {
            ExecutionPlan::Aggregate(op) => op.fmt_as(t),
            ExecutionPlan::DataSource(op) => op.fmt_as(t),
            ExecutionPlan::Filter(op) => op.fmt_as(t),
            ExecutionPlan::GlobalLimit(op) => op.fmt_as(t),
            ExecutionPlan::HashJoin(op) => op.fmt_as(t),
            ExecutionPlan::Limit(op) => op.fmt_as(t),
            ExecutionPlan::LocalLimit(op) => op.fmt_as(t),
            ExecutionPlan::Memory(op) => op.fmt_as(t),
            ExecutionPlan::Projection(op) => op.fmt_as(t),
            ExecutionPlan::Scan(op) => op.fmt_as(t),
            ExecutionPlan::Selection(op) => op.fmt_as(t),
            ExecutionPlan::ShuffleReader(op) => op.fmt_as(t),
            ExecutionPlan::ShuffleWriter(op) => op.fmt_as(t),
            ExecutionPlan::Sort(op) => op.fmt_as(t),
            ExecutionPlan::Extension(op) => op.fmt_as(t),
        }
    }
}

} // verus!
