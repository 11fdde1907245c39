//! The projection operator.
use vstd::prelude::*;
use std::sync::Arc;
use crate::batch::RecordBatch;
use crate::display::{DisplayAs, DisplayFormatType};
use crate::error::FdapQueryError;
use crate::expr::{expr_strings, Expr, PhysicalExpr};
use crate::partitioning::Partitioning;
use crate::plan::{check_partition, only_child, ExecutionPlan};
use crate::plan_properties::PlanProperties;
use crate::scalar::ScalarValue;
use crate::schema::Schema;
use crate::text::{owned, push_decimal, push_joined};
use crate::{batch, expr, plan, text};

verus! {

/// Computes expressions over its input.
#[derive(Debug)]
pub struct ProjectionExec {
    pub expr: Vec<PhysicalExpr>,
    pub input: Arc<ExecutionPlan>,
    pub schema: Schema,
    pub properties: PlanProperties,
}

/// One numbered line per expression.
pub open spec fn expr_lines(exprs: Seq<Expr>) -> Seq<char>
    decreases exprs.len(),
{
    if exprs.len() == 0 {
        seq![]
    } else {
        expr_lines(exprs.drop_last()) + "expr"@ + text::decimal((exprs.len() - 1) as nat) + "="@
            + expr::expr_text(exprs.last()) + "\n"@
    }
}

impl ProjectionExec {
    /// Computes `expr` over `input`; `schema` is that of the output.
    pub fn new(expr: Vec<PhysicalExpr>, input: Arc<ExecutionPlan>, schema: Schema) -> (r: Self)
        ensures
            r == (ProjectionExec {
                expr,
                input,
                schema,
                properties: PlanProperties {
                    output_partitioning: Partitioning::UnknownPartitioning(1),
                },
            }),
    {
        let properties = PlanProperties::single_partition_unknown();
        ProjectionExec { expr, input, schema, properties }
    }

    /// The expressions.
    pub fn expr(&self) -> (r: &[PhysicalExpr])
        ensures
            r@ == self.expr@,
    {
        self.expr.as_slice()
    }

    /// The input.
    pub fn input(&self) -> (r: &Arc<ExecutionPlan>)
        ensures
            *r == self.input,
    {
        &self.input
    }

    /// Starts projecting: gives the schema of the output.
    pub fn execute(&self, partition: usize) -> (r: Result<Schema, FdapQueryError>)
        ensures
            match r {
                Ok(schema) => partition == 0 && schema@ == self.schema@,
                Err(e) => partition != 0 && e@ == plan::no_such_partition(
                    "ProjectionExec"@,
                    partition,
                ),
            },
    {
        match check_partition("ProjectionExec", partition) {
            Ok(_) => Ok(self.schema.clone()),
            Err(e) => Err(e),
        }
    }

    /// The output for a batch, given the values of the expressions for it: the
    /// values become the columns.
    pub fn next_batch(&self, columns: Vec<Vec<ScalarValue>>) -> (r: Result<
        RecordBatch,
        FdapQueryError,
    >)
        ensures
            match r {
                Ok(out) => batch::batch_fault(self.schema@, batch::column_values(columns@)) is None
                    && out.wf() && out.schema@ == self.schema@ && out.columns == columns
                    && out.num_rows == columns@[0]@.len(),
                Err(e) => batch::batch_fault(self.schema@, batch::column_values(columns@)) == Some(
                    e@,
                ),
            },
    {
        RecordBatch::try_new(self.schema.clone(), columns)
    }

    /// The same projection over another input.
    pub fn with_new_children(self, children: Vec<Arc<ExecutionPlan>>) -> (r: Result<
        Self,
        FdapQueryError,
    >)
        ensures
            match r {
                Ok(rebuilt) => children@.len() == 1 && rebuilt == (ProjectionExec {
                    expr: self.expr,
                    input: children@[0],
                    schema: self.schema,
                    properties: PlanProperties {
                        output_partitioning: Partitioning::UnknownPartitioning(1),
                    },
                }),
                Err(e) => children@.len() != 1 && e@ == plan::not_one_child(
                    "ProjectionExec"@,
                    children@.len(),
                ),
            },
    {
        match only_child("ProjectionExec", children) {
            Ok(child) => Ok(ProjectionExec::new(self.expr, child, self.schema)),
            Err(e) => Err(e),
        }
    }
}

impl DisplayAs for ProjectionExec {
    open spec fn displayable(&self) -> bool {
        true
    }

    open spec fn rendered(&self, t: DisplayFormatType) -> Seq<char> {
        match t {
            DisplayFormatType::TreeRender => expr_lines(expr::exprs(self.expr@)),
            _ => "ProjectionExec: expr=["@ + text::join(
                expr::expr_texts(expr::exprs(self.expr@)),
                ", "@,
            ) + "]"@,
        }
    }

    fn fmt_as(&self, t: DisplayFormatType) -> (r: String) {
        match t {
            DisplayFormatType::TreeRender => {
                let ghost all = expr::exprs(self.expr@);
                let mut out: String = String::new();
                let mut i: usize = 0;
                assert(all.take(0) == Seq::<Expr>::empty());
                while i < self.expr.len()
                    invariant
                        i <= self.expr.len(),
                        all == expr::exprs(self.expr@),
                        out@ == expr_lines(all.take(i as int)),
                    decreases self.expr.len() - i,
                {
                    assert(all.take(i + 1).drop_last() == all.take(i as int));
                    out.append("expr");
                    push_decimal(&mut out, i as u128);
                    out.append("=");
                    out.append(self.expr[i].to_string().as_str());
                    out.append("\n");
                    i += 1;
                    assert(out@ == expr_lines(all.take(i as int)));
                }
                assert(all.take(i as int) == all);
                out
            },
            _ => {
                let mut out: String = owned("ProjectionExec: expr=[");
                let parts = expr_strings(&self.expr);
                push_joined(&mut out, &parts, ", ");
                out.append("]");
                out
            },
        }
    }
}

} // verus!
