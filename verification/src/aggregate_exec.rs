//! The aggregation operator.
use vstd::prelude::*;
use std::sync::Arc;
use crate::aggregates::{aggregate_strings, AggregateExpr, AggregateMode, PhysicalGroupBy};
use crate::batch::{create_batch, RecordBatch};
use crate::display::{DisplayAs, DisplayFormatType};
use crate::error::{Fault, FdapQueryError};
use crate::expr::PhysicalExpr;
use crate::group_table::GroupTable;
use crate::partitioning::Partitioning;
use crate::plan::{check_partition, only_child, ExecutionPlan};
use crate::plan_properties::PlanProperties;
use crate::scalar::{copy_cells, Scalar, ScalarValue};
use crate::schema::Schema;
use crate::text::{owned, push_joined};
use crate::{aggregates, batch, group_table, plan, scalar, text};

verus! {

/// Groups the rows of its input and aggregates each group.
#[derive(Debug)]
pub struct AggregateExec {
    pub mode: AggregateMode,
    pub group_by: PhysicalGroupBy,
    pub aggr_expr: Vec<AggregateExpr>,
    /// For each aggregate, the condition on the rows that it sees.
    pub filter_expr: Vec<Option<PhysicalExpr>>,
    pub input: Arc<ExecutionPlan>,
    /// The output: the grouping columns, then the aggregates.
    pub schema: Schema,
    /// The schema before any aggregation.
    pub input_schema: Schema,
    pub properties: PlanProperties,
}

impl AggregateExec {
    /// An aggregation of the given parts.
    pub fn try_new(
        mode: AggregateMode,
        group_by: PhysicalGroupBy,
        aggr_expr: Vec<AggregateExpr>,
        filter_expr: Vec<Option<PhysicalExpr>>,
        input: Arc<ExecutionPlan>,
        input_schema: Schema,
        schema: Schema,
    ) -> (r: Result<Self, FdapQueryError>)
        ensures
            r == Ok::<AggregateExec, FdapQueryError>(
                AggregateExec {
                    mode,
                    group_by,
                    aggr_expr,
                    filter_expr,
                    input,
                    schema,
                    input_schema,
                    properties: PlanProperties {
                        output_partitioning: Partitioning::UnknownPartitioning(1),
                    },
                },
            ),
    {
        let properties = PlanProperties::single_partition_unknown();
        Ok(
            AggregateExec {
                mode,
                group_by,
                aggr_expr,
                filter_expr,
                input,
                schema,
                input_schema,
                properties,
            },
        )
    }

    /// The mode.
    pub fn mode(&self) -> (r: &AggregateMode)
        ensures
            *r == self.mode,
    {
        &self.mode
    }

    /// The grouping.
    pub fn group_expr(&self) -> (r: &PhysicalGroupBy)
        ensures
            *r == self.group_by,
    {
        &self.group_by
    }

    /// The aggregates.
    pub fn aggr_expr(&self) -> (r: &[AggregateExpr])
        ensures
            r@ == self.aggr_expr@,
    {
        self.aggr_expr.as_slice()
    }

    /// For each aggregate, the condition on the rows that it sees.
    pub fn filter_expr(&self) -> (r: &[Option<PhysicalExpr>])
        ensures
            r@ == self.filter_expr@,
    {
        self.filter_expr.as_slice()
    }

    /// The input.
    pub fn input(&self) -> (r: &Arc<ExecutionPlan>)
        ensures
            *r == self.input,
    {
        &self.input
    }

    /// The schema before any aggregation.
    pub fn input_schema(&self) -> (r: Schema)
        ensures
            r@ == self.input_schema@,
    {
        self.input_schema.clone()
    }

    /// The same aggregation over another input.
    pub fn with_new_children(self, children: Vec<Arc<ExecutionPlan>>) -> (r: Result<
        Self,
        FdapQueryError,
    >)
        ensures
            match r {
                Ok(rebuilt) => children@.len() == 1 && rebuilt == (AggregateExec {
                    input: children@[0],
                    properties: PlanProperties {
                        output_partitioning: Partitioning::UnknownPartitioning(1),
                    },
                    ..self
                }),
                Err(e) => children@.len() != 1 && e@ == plan::not_one_child(
                    "AggregateExec"@,
                    children@.len(),
                ),
            },
    {
        match only_child("AggregateExec", children) {
            Ok(child) => AggregateExec::try_new(
                self.mode,
                self.group_by,
                self.aggr_expr,
                self.filter_expr,
                child,
                self.input_schema,
                self.schema,
            ),
            Err(e) => Err(e),
        }
    }

    /// Starts grouping the batches of the input.
    pub fn execute(&self, partition: usize) -> (r: Result<AggregateStream, FdapQueryError>)
        ensures
            match r {
                Ok(stream) => partition == 0 && stream.mode == self.mode && stream.n_group
                    == self.group_by.expr@.len() && stream.n_aggregates == self.aggr_expr@.len()
                    && stream.schema@ == self.schema@ && stream.table@ == Seq::<
                    Seq<Scalar>,
                >::empty(),
                Err(e) => partition != 0 && e@ == plan::no_such_partition(
                    "AggregateExec"@,
                    partition,
                ),
            },
    {
        match check_partition("AggregateExec", partition) {
            Ok(_) => Ok(
                AggregateStream {
                    mode: self.mode,
                    n_group: self.group_by.expr.len(),
                    n_aggregates: self.aggr_expr.len(),
                    schema: self.schema.clone(),
                    table: GroupTable::new(),
                },
            ),
            Err(e) => Err(e),
        }
    }
}

impl DisplayAs for AggregateExec {
    /// Every grouping set speaks of expressions that exist.
    open spec fn displayable(&self) -> bool {
        self.group_by.wf()
    }

    open spec fn rendered(&self, t: DisplayFormatType) -> Seq<char> {
        let groups = self.group_by.terms();
        let aggregates = aggregates::aggregate_texts(aggregates::aggregates(self.aggr_expr@));
        match t {
            DisplayFormatType::TreeRender => "mode="@ + self.mode.spec_name() + "\n"@ + (
            if groups.len() > 0 {
                "group_by="@ + text::join(groups, ", "@) + "\n"@
            } else {
                seq![]
            }) + (if aggregates.len() > 0 {
                "aggr="@ + text::join(aggregates, ", "@) + "\n"@
            } else {
                seq![]
            }),
            _ => "AggregateExec: mode="@ + self.mode.spec_name() + ", gby=["@ + text::join(
                groups,
                ", "@,
            ) + "], aggr=["@ + text::join(aggregates, ", "@) + "]"@,
        }
    }

    fn fmt_as(&self, t: DisplayFormatType) -> (r: String) {
        let groups = self.group_by.term_strings();
        let aggregates = aggregate_strings(&self.aggr_expr);
        match t {
            DisplayFormatType::TreeRender => {
                let mut out: String = owned("mode=");
                out.append(self.mode.name());
                out.append("\n");
                assert(text::views(groups@).len() == groups@.len());
                assert(text::views(aggregates@).len() == aggregates@.len());
                if !groups.is_empty() {
                    out.append("group_by=");
                    push_joined(&mut out, &groups, ", ");
                    out.append("\n");
                }
                if !aggregates.is_empty() {
                    out.append("aggr=");
                    push_joined(&mut out, &aggregates, ", ");
                    out.append("\n");
                }
                assert(out@ == self.rendered(t));
                out
            },
            _ => {
                let mut out: String = owned("AggregateExec: mode=");
                out.append(self.mode.name());
                out.append(", gby=[");
                push_joined(&mut out, &groups, ", ");
                out.append("], aggr=[");
                push_joined(&mut out, &aggregates, ", ");
                out.append("]");
                assert(out@ == self.rendered(t));
                out
            },
        }
    }
}

/// What an aggregation is about to do with a cell that a group sees.
#[derive(Clone, Copy, Debug, PartialEq, Eq, Structural)]
pub enum Intake {
    /// The cell is a value to be taken in.
    Accumulate,
    /// The cell is the state of an earlier stage, to be merged.
    Merge,
}

/// The intermediate state of an aggregate.
#[derive(Debug)]
pub enum AccumulatorValue {
    Scalar(ScalarValue),
    /// The sum, by its bits, and the number of the values of an average.
    AvgState { sum: u64, count: i64 },
}

/// The error of an intermediate state that no cell can hold.
pub open spec fn state_fault() -> Fault {
    Fault::NotImplemented(
        "AggregateExec PARTIAL output of AVG intermediate state requires the distributed module"@,
    )
}

/// The cell that holds an intermediate state.
pub fn state_cell(value: AccumulatorValue) -> (r: Result<ScalarValue, FdapQueryError>)
    ensures
        match value {
            AccumulatorValue::Scalar(cell) => r == Ok::<ScalarValue, FdapQueryError>(cell),
            AccumulatorValue::AvgState { .. } => r matches Err(e) && e@ == state_fault(),
        },
{
    match value {
        AccumulatorValue::Scalar(cell) => Ok(cell),
        AccumulatorValue::AvgState { .. } => Err(
            FdapQueryError::NotImplemented(
                owned(
                    "AggregateExec PARTIAL output of AVG intermediate state requires the distributed module",
                ),
            ),
        ),
    }
}

/// A running aggregation: the groups seen so far. The aggregates of each group
/// are kept beside it, by the number of the group.
#[derive(Debug)]
pub struct AggregateStream {
    pub mode: AggregateMode,
    pub n_group: usize,
    pub n_aggregates: usize,
    pub schema: Schema,
    pub table: GroupTable,
}

/// The output rows: each group's key, then its aggregates.
pub open spec fn output_rows(
    groups: Seq<Seq<Scalar>>,
    outputs: Seq<Vec<ScalarValue>>,
) -> Seq<Seq<Scalar>> {
    Seq::new(groups.len(), |g: int| groups[g] + scalar::cells(outputs[g]@))
}

impl AggregateStream {
    /// The groups are distinct, and every key has one cell per grouping
    /// expression.
    pub open spec fn wf(&self) -> bool {
        &&& group_table::groups_distinct(self.table@)
        &&& forall|g: int| 0 <= g < self.table@.len() ==> (#[trigger] self.table@[g]).len()
            == self.n_group
    }

    /// What is done with the cells that a group sees.
    pub fn intake(&self) -> (r: Intake)
        ensures
            r == if self.mode.spec_merges() {
                Intake::Merge
            } else {
                Intake::Accumulate
            },
    {
        if self.mode.merges() {
            Intake::Merge
        } else {
            Intake::Accumulate
        }
    }

    /// Whether the aggregates are handed out as intermediate states.
    pub fn emits_state(&self) -> (r: bool)
        ensures
            r == self.mode.spec_emits_state(),
    {
        self.mode.emits_state()
    }

    /// Takes the grouping columns of a batch and gives the number of the group
    /// of each of its rows.
    pub fn on_batch(&mut self, group_columns: &Vec<Vec<ScalarValue>>, num_rows: usize) -> (r: Vec<
        usize,
    >)
        requires
            old(self).wf(),
            group_columns@.len() == old(self).n_group,
            batch::all_of_length(group_columns@, num_rows as int),
        ensures
            final(self).wf(),
            final(self).mode == old(self).mode,
            final(self).n_group == old(self).n_group,
            final(self).n_aggregates == old(self).n_aggregates,
            final(self).schema == old(self).schema,
            final(self).table@ == group_table::with_groups(
                old(self).table@,
                batch::table_rows(group_columns@, num_rows as nat),
            ),
            r@.len() == num_rows,
            forall|i: int|
                0 <= i < num_rows ==> (#[trigger] r@[i]) < final(self).table@.len() && Some(
                    r@[i] as int,
                ) == group_table::group_number(
                    final(self).table@,
                    batch::row_at(group_columns@, i),
                ),
    {
        proof {
            let keys = batch::table_rows(group_columns@, num_rows as nat);
            widths_stay(self.table@, keys, self.n_group as nat);
        }
        self.table.assign_rows(group_columns, num_rows)
    }

    /// The output: one row per group, given the aggregates of each group.
    pub fn finish(&self, outputs: &Vec<Vec<ScalarValue>>) -> (r: Result<
        RecordBatch,
        FdapQueryError,
    >)
        requires
            self.wf(),
            outputs@.len() == self.table@.len(),
            forall|g: int|
                0 <= g < outputs@.len() ==> (#[trigger] outputs@[g])@.len() == self.n_aggregates,
            self.table@.len() > 0 ==> self.n_group + self.n_aggregates <= self.schema@.len(),
        ensures
            match r {
                Ok(out) => batch::batch_fault(
                    self.schema@,
                    batch::spread(
                        output_rows(self.table@, outputs@),
                        (self.n_group + self.n_aggregates) as nat,
                        self.schema@.len(),
                    ),
                ) is None && out.wf() && out.schema@ == self.schema@ && out.rows()
                    == batch::filled_rows(
                    output_rows(self.table@, outputs@),
                    (self.n_group + self.n_aggregates) as nat,
                    self.schema@.len(),
                ),
                Err(e) => batch::batch_fault(
                    self.schema@,
                    batch::spread(
                        output_rows(self.table@, outputs@),
                        (self.n_group + self.n_aggregates) as nat,
                        self.schema@.len(),
                    ),
                ) == Some(e@),
            },
    {
        let mut rows: Vec<Vec<ScalarValue>> = Vec::new();
        let mut g: usize = 0;
        while g < self.table.keys.len()
            invariant
                self.wf(),
                outputs@.len() == self.table@.len(),
                self.table@.len() == self.table.keys@.len(),
                g <= self.table.keys.len(),
                rows.len() == g,
                forall|j: int|
                    0 <= j < g ==> scalar::cells((#[trigger] rows@[j])@) == output_rows(
                        self.table@,
                        outputs@,
                    )[j],
            decreases self.table.keys.len() - g,
        {
            let mut row: Vec<ScalarValue> = copy_cells(&self.table.keys[g].0);
            let mut tail: Vec<ScalarValue> = copy_cells(&outputs[g]);
            let ghost head_cells = row@;
            let ghost tail_cells = tail@;
            row.append(&mut tail);
            proof {
                assert(scalar::cells(row@) == scalar::cells(head_cells) + scalar::cells(
                    tail_cells,
                ));
                assert(self.table@[g as int] == self.table.keys@[g as int]@);
            }
            rows.push(row);
            g += 1;
        }
        proof {
            assert forall|j: int| 0 <= j < rows@.len() implies (#[trigger] rows@[j])@.len()
                == self.n_group + self.n_aggregates by {
                assert(scalar::cells(rows@[j]@) == output_rows(self.table@, outputs@)[j]);
                assert(scalar::cells(rows@[j]@).len() == rows@[j]@.len());
                assert(self.table@[j].len() == self.n_group);
                assert(outputs@[j]@.len() == self.n_aggregates);
            }
            assert(scalar::rows_of(rows@) == output_rows(self.table@, outputs@));
            let width = (self.n_group + self.n_aggregates) as nat;
            if rows@.len() == 0 {
                assert(batch::spread(scalar::rows_of(rows@), width, self.schema@.len())
                    =~~= batch::spread(
                    scalar::rows_of(rows@),
                    rows@[0]@.len(),
                    self.schema@.len(),
                ));
            }
        }
        create_batch(&rows, &self.schema)
    }
}

/// Keys of one width give groups of that width.
proof fn widths_stay(groups: Seq<Seq<Scalar>>, keys: Seq<Seq<Scalar>>, width: nat)
    requires
        forall|g: int| 0 <= g < groups.len() ==> (#[trigger] groups[g]).len() == width,
        forall|i: int| 0 <= i < keys.len() ==> (#[trigger] keys[i]).len() == width,
    ensures
        forall|g: int|
            0 <= g < group_table::with_groups(groups, keys).len() ==> (
            #[trigger] group_table::with_groups(groups, keys)[g]).len() == width,
    decreases keys.len(),
{
    if keys.len() > 0 {
        let earlier = keys.drop_last();
        assert forall|i: int| 0 <= i < earlier.len() implies (#[trigger] earlier[i]).len() == width by {
            assert(keys[i].len() == width);
        }
        widths_stay(groups, earlier, width);
        let before = group_table::with_groups(groups, earlier);
        let after = group_table::with_groups(groups, keys);
        assert(keys[keys.len() - 1].len() == width);
        assert forall|g: int| 0 <= g < after.len() implies (#[trigger] after[g]).len() == width by {
            if g < before.len() {
                assert(after[g] == before[g]);
            }
        }
    }
}

} // verus!
