//! Logical plans and their expressions.
use vstd::prelude::*;
use crate::aggregates::AggregateFunction;
use crate::expr::Operator;
use crate::join_table::JoinType;
use crate::scalar::{Scalar, ScalarValue};
use crate::text;

verus! {

/// An expression of a logical plan.
#[derive(Debug)]
pub enum LogicalExpr {
    /// A column by its name.
    Column(String),
    Literal(ScalarValue),
    BinaryExpr { left: Box<LogicalExpr>, op: Operator, right: Box<LogicalExpr> },
    Alias { expr: Box<LogicalExpr>, alias: String },
    AggregateFunction { func: AggregateFunction, args: Vec<LogicalExpr>, distinct: bool },
    /// An expression defined elsewhere, known here by its text.
    Other(String),
}

/// The mathematical value of a logical expression.
pub enum LogicalExprValue {
    Column(Seq<char>),
    Literal(Scalar),
    BinaryExpr { left: Box<LogicalExprValue>, op: Operator, right: Box<LogicalExprValue> },
    Alias { expr: Box<LogicalExprValue>, alias: Seq<char> },
    AggregateFunction { func: AggregateFunction, args: Seq<LogicalExprValue>, distinct: bool },
    Other(Seq<char>),
}

impl LogicalExpr {
    /// The value of the expression.
    pub open spec fn value(self) -> LogicalExprValue
        decreases self,
    {
        match self {
            LogicalExpr::Column(name) => LogicalExprValue::Column(name@),
            LogicalExpr::Literal(value) => LogicalExprValue::Literal(value@),
            LogicalExpr::BinaryExpr { left, op, right } => LogicalExprValue::BinaryExpr {
                left: Box::new(left.value()),
                op,
                right: Box::new(right.value()),
            },
            LogicalExpr::Alias { expr, alias } => LogicalExprValue::Alias {
                expr: Box::new(expr.value()),
                alias: alias@,
            },
            LogicalExpr::AggregateFunction { func, args, distinct } =>
                LogicalExprValue::AggregateFunction { func, args: values(args@), distinct },
            LogicalExpr::Other(text) => LogicalExprValue::Other(text@),
        }
    }
}

/// The values of some expressions.
pub open spec fn values(list: Seq<LogicalExpr>) -> Seq<LogicalExprValue>
    decreases list,
{
    if list.len() == 0 {
        seq![]
    } else {
        values(list.drop_last()).push(list.last().value())
    }
}

/// The values of some expressions are the values of each of them.
pub proof fn values_of_each(list: Seq<LogicalExpr>)
    ensures
        values(list).len() == list.len(),
        forall|i: int| 0 <= i < list.len() ==> (#[trigger] values(list)[i]) == list[i].value(),
    decreases list.len(),
{
    if list.len() > 0 {
        values_of_each(list.drop_last());
    }
}

impl View for LogicalExpr {
    type V = LogicalExprValue;

    open spec fn view(&self) -> LogicalExprValue {
        self.value()
    }
}

/// What a scan reads.
#[derive(Clone, Copy, Debug, PartialEq, Eq, Structural)]
pub enum TableSource {
    /// A file of comma-separated values.
    Csv { has_headers: bool, batch_size: usize },
    /// A Parquet file.
    Parquet,
    /// A source defined elsewhere.
    Other,
}

/// A logical plan.
#[allow(inconsistent_fields)]
#[derive(Debug)]
pub enum LogicalPlan {
    TableScan { path: String, source: TableSource, projection: Vec<String> },
    Projection { input: Box<LogicalPlan>, expr: Vec<LogicalExpr> },
    Filter { input: Box<LogicalPlan>, expr: LogicalExpr },
    Limit { input: Box<LogicalPlan>, limit: i32 },
    Aggregate {
        input: Box<LogicalPlan>,
        group_expr: Vec<LogicalExpr>,
        aggregate_expr: Vec<LogicalExpr>,
    },
    Join {
        left: Box<LogicalPlan>,
        right: Box<LogicalPlan>,
        join_type: JoinType,
        on: Vec<(String, String)>,
    },
}

/// The mathematical value of a logical plan.
#[allow(inconsistent_fields)]
pub enum LogicalPlanValue {
    TableScan { path: Seq<char>, source: TableSource, projection: Seq<Seq<char>> },
    Projection { input: Box<LogicalPlanValue>, expr: Seq<LogicalExprValue> },
    Filter { input: Box<LogicalPlanValue>, expr: LogicalExprValue },
    Limit { input: Box<LogicalPlanValue>, limit: i32 },
    Aggregate {
        input: Box<LogicalPlanValue>,
        group_expr: Seq<LogicalExprValue>,
        aggregate_expr: Seq<LogicalExprValue>,
    },
    Join {
        left: Box<LogicalPlanValue>,
        right: Box<LogicalPlanValue>,
        join_type: JoinType,
        on: Seq<(Seq<char>, Seq<char>)>,
    },
}

/// The names of joined columns.
pub open spec fn name_pairs(on: Seq<(String, String)>) -> Seq<(Seq<char>, Seq<char>)> {
    Seq::new(on.len(), |i: int| (on[i].0@, on[i].1@))
}

impl LogicalPlan {
    /// The value of the plan.
    pub open spec fn value(self) -> LogicalPlanValue
        decreases self,
    {
        match self {
            LogicalPlan::TableScan { path, source, projection } => LogicalPlanValue::TableScan {
                path: path@,
                source,
                projection: text::views(projection@),
            },
            LogicalPlan::Projection { input, expr } => LogicalPlanValue::Projection {
                input: Box::new(input.value()),
                expr: values(expr@),
            },
            LogicalPlan::Filter { input, expr } => LogicalPlanValue::Filter {
                input: Box::new(input.value()),
                expr: expr@,
            },
            LogicalPlan::Limit { input, limit } => LogicalPlanValue::Limit {
                input: Box::new(input.value()),
                limit,
            },
            LogicalPlan::Aggregate { input, group_expr, aggregate_expr } =>
                LogicalPlanValue::Aggregate {
                    input: Box::new(input.value()),
                    group_expr: values(group_expr@),
                    aggregate_expr: values(aggregate_expr@),
                },
            LogicalPlan::Join { left, right, join_type, on } => LogicalPlanValue::Join {
                left: Box::new(left.value()),
                right: Box::new(right.value()),
                join_type,
                on: name_pairs(on@),
            },
        }
    }
}

impl View for LogicalPlan {
    type V = LogicalPlanValue;

    open spec fn view(&self) -> LogicalPlanValue {
        self.value()
    }
}

/// A query to be run.
#[derive(Debug)]
pub struct QueryAction {
    pub plan: LogicalPlan,
}

impl QueryAction {
    /// A query that runs `plan`.
    pub fn new(plan: LogicalPlan) -> (r: Self)
        ensures
            r.plan == plan,
    {
        QueryAction { plan }
    }
}

} // verus!
