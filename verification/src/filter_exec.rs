//! Operators that keep the rows for which a predicate holds.
use vstd::prelude::*;
use std::sync::Arc;
use crate::batch::RecordBatch;
use crate::display::{DisplayAs, DisplayFormatType};
use crate::error::{Fault, FdapQueryError};
use crate::expr::PhysicalExpr;
use crate::partitioning::Partitioning;
use crate::plan::{check_partition, only_child, ExecutionPlan};
use crate::plan_properties::PlanProperties;
use crate::scalar::{Scalar, ScalarValue};
use crate::schema::{FieldModel, Schema};
use crate::text::owned;
use crate::{batch, expr, plan, scalar};

verus! {

/// Which rows a mask keeps: those at which it is true, not false and not null.
pub open spec fn kept_by(mask: Seq<Scalar>) -> Seq<bool> {
    Seq::new(mask.len(), |i: int| mask[i] == Scalar::Boolean(true))
}

/// The cells of a column at which `keep` is true, in order.
fn kept_cells(column: &Vec<ScalarValue>, keep: &Vec<bool>) -> (r: Vec<ScalarValue>)
    requires
        column@.len() == keep@.len(),
    ensures
        scalar::cells(r@) == batch::gathered(
            scalar::cells(column@),
            batch::kept_indices(keep@),
        ),
{
    let ghost all = scalar::cells(column@);
    let mut r: Vec<ScalarValue> = Vec::new();
    let mut i: usize = 0;
    while i < keep.len()
        invariant
            column@.len() == keep@.len(),
            all == scalar::cells(column@),
            i <= keep.len(),
            scalar::cells(r@) == batch::gathered(all, batch::kept_indices(keep@.take(i as int))),
        decreases keep.len() - i,
    {
        let ghost before = r@;
        assert(keep@.take(i + 1).drop_last() == keep@.take(i as int));
        let ghost earlier = batch::kept_indices(keep@.take(i as int));
        if keep[i] {
            r.push(column[i].clone());
            assert(scalar::cells(r@) == scalar::cells(before).push(all[i as int]));
            assert(batch::gathered(all, earlier.push(i as int)) == batch::gathered(
                all,
                earlier,
            ).push(all[i as int]));
        }
        i += 1;
    }
    assert(keep@.take(i as int) == keep@);
    r
}

/// The error of putting the given rows of a batch under a schema, if there is
/// one.
pub open spec fn rows_fault(
    schema: Seq<FieldModel>,
    input: RecordBatch,
    positions: Seq<int>,
) -> Option<Fault> {
    batch::batch_fault(
        schema,
        batch::transposed(batch::gathered(input.rows(), positions), input.columns@.len()),
    )
}

/// The rows of a batch at which `keep` is true, under the given schema.
pub fn select_rows(input: &RecordBatch, keep: &Vec<bool>, schema: Schema) -> (r: Result<
    RecordBatch,
    FdapQueryError,
>)
    requires
        input.wf(),
        keep@.len() == input.num_rows,
    ensures
        match r {
            Ok(out) => rows_fault(schema@, *input, batch::kept_indices(keep@)) is None && out.wf()
                && out.schema@ == schema@ && out.rows() == batch::gathered(
                input.rows(),
                batch::kept_indices(keep@),
            ),
            Err(e) => rows_fault(schema@, *input, batch::kept_indices(keep@)) == Some(e@),
        },
{
    let ghost kept = batch::kept_indices(keep@);
    let mut columns: Vec<Vec<ScalarValue>> = Vec::new();
    let mut c: usize = 0;
    while c < input.columns.len()
        invariant
            input.wf(),
            keep@.len() == input.num_rows,
            kept == batch::kept_indices(keep@),
            c <= input.columns.len(),
            columns.len() == c,
            forall|k: int|
                0 <= k < c ==> scalar::cells((#[trigger] columns@[k])@) == batch::gathered(
                    scalar::cells(input.columns@[k]@),
                    kept,
                ),
        decreases input.columns.len() - c,
    {
        assert(input.columns@[c as int]@.len() == input.num_rows);
        columns.push(kept_cells(&input.columns[c], keep));
        c += 1;
    }
    proof {
        assert forall|k: int| 0 <= k < columns@.len() implies (#[trigger] columns@[k])@.len()
            == kept.len() by {
            assert(scalar::cells(columns@[k]@).len() == columns@[k]@.len());
        }
    }
    let ghost filled = columns@;
    proof {
        let values = batch::column_values(filled);
        let want = batch::transposed(batch::gathered(input.rows(), kept), input.columns@.len());
        batch::kept_indices_exact(keep@);
        assert forall|k: int| 0 <= k < values.len() implies #[trigger] values[k] == want[k] by {
            assert(input.columns@[k]@.len() == input.num_rows);
            assert forall|i: int| 0 <= i < kept.len() implies values[k][i] == want[k][i] by {
                assert(0 <= kept[i] < input.num_rows);
            }
            assert(values[k] =~= want[k]);
        }
        assert(values =~= want);
    }
    let r = RecordBatch::try_new(schema, columns);
    proof {
        if r is Ok {
            let out = r->Ok_0;
            let want = batch::gathered(input.rows(), kept);
            batch::kept_indices_exact(keep@);
            assert(filled[0]@.len() == kept.len());
            assert forall|i: int| 0 <= i < kept.len() implies out.rows()[i] == want[i] by {
                assert(0 <= kept[i] < input.num_rows);
                assert forall|k: int| 0 <= k < filled.len() implies out.rows()[i][k]
                    == want[i][k] by {
                    assert(scalar::cells(filled[k]@)[i] == batch::gathered(
                        scalar::cells(input.columns@[k]@),
                        kept,
                    )[i]);
                    assert(input.columns@[k]@.len() == input.num_rows);
                }
                assert(out.rows()[i] == want[i]);
            }
            assert(out.rows() == want);
        }
    }
    r
}

/// Whether `r` is what filtering gives: an error where the columns do not fit
/// the schema, and otherwise the rows for which the mask is true.
pub open spec fn filtered(
    r: Result<RecordBatch, FdapQueryError>,
    schema: Seq<FieldModel>,
    input: RecordBatch,
    mask: Seq<Scalar>,
) -> bool {
    match r {
        Ok(out) => rows_fault(schema, input, batch::kept_indices(kept_by(mask))) is None && out.wf()
            && out.schema@ == schema && out.rows() == batch::gathered(
            input.rows(),
            batch::kept_indices(kept_by(mask)),
        ),
        Err(e) => rows_fault(schema, input, batch::kept_indices(kept_by(mask))) == Some(e@),
    }
}

/// The rows of a batch for which the mask is true, under the given schema.
pub fn filter_batch(input: &RecordBatch, mask: &Vec<ScalarValue>, schema: Schema) -> (r: Result<
    RecordBatch,
    FdapQueryError,
>)
    requires
        input.wf(),
        mask@.len() == input.num_rows,
    ensures
        filtered(r, schema@, *input, scalar::cells(mask@)),
{
    let mut keep: Vec<bool> = Vec::new();
    let mut i: usize = 0;
    while i < mask.len()
        invariant
            i <= mask.len(),
            keep.len() == i,
            forall|j: int|
                0 <= j < i ==> (#[trigger] keep@[j]) == (mask@[j]@ == Scalar::Boolean(true)),
        decreases mask.len() - i,
    {
        let here: bool = match mask[i] {
            ScalarValue::Boolean(b) => b,
            _ => false,
        };
        keep.push(here);
        i += 1;
    }
    assert(keep@ == kept_by(scalar::cells(mask@)));
    select_rows(input, &keep, schema)
}

/// A filter keeps exactly the rows for which the mask is true.
pub proof fn filter_keeps_exactly_the_true_rows(
    rows: Seq<Seq<Scalar>>,
    mask: Seq<Scalar>,
    row: Seq<Scalar>,
)
    requires
        mask.len() == rows.len(),
    ensures
        batch::gathered(rows, batch::kept_indices(kept_by(mask))).contains(row) <==> exists|i: int|
            0 <= i < rows.len() && mask[i] == Scalar::Boolean(true) && #[trigger] rows[i] == row,
{
    let keep = kept_by(mask);
    let kept = batch::kept_indices(keep);
    let out = batch::gathered(rows, kept);
    batch::kept_indices_exact(keep);
    if out.contains(row) {
        let k = choose|k: int| 0 <= k < out.len() && out[k] == row;
        assert(keep[kept[k]]);
        assert(rows[kept[k]] == row);
    }
    if exists|i: int|
        0 <= i < rows.len() && mask[i] == Scalar::Boolean(true) && #[trigger] rows[i] == row {
        let i = choose|i: int|
            0 <= i < rows.len() && mask[i] == Scalar::Boolean(true) && #[trigger] rows[i] == row;
        assert(keep[i]);
        let k = choose|k: int| 0 <= k < kept.len() && kept[k] == i;
        assert(out[k] == row);
    }
}

/// Keeps the rows of its input for which a predicate holds.
#[derive(Debug)]
pub struct FilterExec {
    pub predicate: PhysicalExpr,
    pub input: Arc<ExecutionPlan>,
    pub properties: PlanProperties,
}

impl FilterExec {
    /// Keeps the rows of `input` for which `predicate` holds.
    pub fn new(predicate: PhysicalExpr, input: Arc<ExecutionPlan>) -> (r: Self)
        ensures
            r == (FilterExec {
                predicate,
                input,
                properties: PlanProperties {
                    output_partitioning: Partitioning::UnknownPartitioning(1),
                },
            }),
    {
        let properties = PlanProperties::single_partition_unknown();
        FilterExec { predicate, input, properties }
    }

    /// The predicate.
    pub fn predicate(&self) -> (r: &PhysicalExpr)
        ensures
            *r == self.predicate,
    {
        &self.predicate
    }

    /// The input.
    pub fn input(&self) -> (r: &Arc<ExecutionPlan>)
        ensures
            *r == self.input,
    {
        &self.input
    }

    /// Starts filtering: gives the schema of the output.
    pub fn execute(&self, partition: usize) -> (r: Result<Schema, FdapQueryError>)
        ensures
            match r {
                Ok(schema) => partition == 0 && schema@ == self.input.spec_schema(),
                Err(e) => partition != 0 && e@ == plan::no_such_partition("FilterExec"@, partition),
            },
    {
        match check_partition("FilterExec", partition) {
            Ok(_) => Ok(self.input.schema()),
            Err(e) => Err(e),
        }
    }

    /// What is passed on of a batch, given the value of the predicate for each
    /// of its rows.
    pub fn next_batch(&self, input: &RecordBatch, mask: &Vec<ScalarValue>) -> (r: Result<
        RecordBatch,
        FdapQueryError,
    >)
        requires
            input.wf(),
            mask@.len() == input.num_rows,
        ensures
            filtered(r, self.input.spec_schema(), *input, scalar::cells(mask@)),
    {
        let schema = self.input.schema();
        filter_batch(input, mask, schema)
    }

    /// The same filter over another input.
    pub fn with_new_children(self, children: Vec<Arc<ExecutionPlan>>) -> (r: Result<
        Self,
        FdapQueryError,
    >)
        ensures
            match r {
                Ok(rebuilt) => children@.len() == 1 && rebuilt == (FilterExec {
                    predicate: self.predicate,
                    input: children@[0],
                    properties: PlanProperties {
                        output_partitioning: Partitioning::UnknownPartitioning(1),
                    },
                }),
                Err(e) => children@.len() != 1 && e@ == plan::not_one_child(
                    "FilterExec"@,
                    children@.len(),
                ),
            },
    {
        match only_child("FilterExec", children) {
            Ok(child) => Ok(FilterExec::new(self.predicate, child)),
            Err(e) => Err(e),
        }
    }
}

impl DisplayAs for FilterExec {
    open spec fn displayable(&self) -> bool {
        true
    }

    open spec fn rendered(&self, t: DisplayFormatType) -> Seq<char> {
        match t {
            DisplayFormatType::TreeRender => "predicate="@ + expr::expr_text(self.predicate@),
            _ => "FilterExec: "@ + expr::expr_text(self.predicate@),
        }
    }

    fn fmt_as(&self, t: DisplayFormatType) -> (r: String) {
        let mut out: String = match t {
            DisplayFormatType::TreeRender => owned("predicate="),
            _ => owned("FilterExec: "),
        };
        out.append(self.predicate.to_string().as_str());
        out
    }
}

/// Keeps the rows of its input for which an expression holds.
#[derive(Debug)]
pub struct SelectionExec {
    pub input: Arc<ExecutionPlan>,
    pub expr: PhysicalExpr,
    pub properties: PlanProperties,
}

impl SelectionExec {
    /// Keeps the rows of `input` for which `expr` holds.
    pub fn new(input: Arc<ExecutionPlan>, expr: PhysicalExpr) -> (r: Self)
        ensures
            r == (SelectionExec {
                input,
                expr,
                properties: PlanProperties {
                    output_partitioning: Partitioning::UnknownPartitioning(1),
                },
            }),
    {
        let properties = PlanProperties::single_partition_unknown();
        SelectionExec { input, expr, properties }
    }

    /// What is passed on of a batch, given the value of the expression for each
    /// of its rows.
    pub fn next_batch(&self, input: &RecordBatch, mask: &Vec<ScalarValue>) -> (r: Result<
        RecordBatch,
        FdapQueryError,
    >)
        requires
            input.wf(),
            mask@.len() == input.num_rows,
        ensures
            filtered(r, self.input.spec_schema(), *input, scalar::cells(mask@)),
    {
        let schema = self.input.schema();
        filter_batch(input, mask, schema)
    }

    /// The same selection over another input.
    pub fn with_new_children(self, children: Vec<Arc<ExecutionPlan>>) -> (r: Result<
        Self,
        FdapQueryError,
    >)
        ensures
            match r {
                Ok(rebuilt) => children@.len() == 1 && rebuilt == (SelectionExec {
                    input: children@[0],
                    expr: self.expr,
                    properties: PlanProperties {
                        output_partitioning: Partitioning::UnknownPartitioning(1),
                    },
                }),
                Err(e) => children@.len() != 1 && e@ == plan::not_one_child(
                    "SelectionExec"@,
                    children@.len(),
                ),
            },
    {
        match only_child("SelectionExec", children) {
            Ok(child) => Ok(SelectionExec::new(child, self.expr)),
            Err(e) => Err(e),
        }
    }
}

impl DisplayAs for SelectionExec {
    open spec fn displayable(&self) -> bool {
        true
    }

    open spec fn rendered(&self, t: DisplayFormatType) -> Seq<char> {
        "SelectionExec: "@ + expr::expr_text(self.expr@)
    }

    fn fmt_as(&self, t: DisplayFormatType) -> (r: String) {
        let mut out: String = owned("SelectionExec: ");
        out.append(self.expr.to_string().as_str());
        out
    }
}

} // verus!
