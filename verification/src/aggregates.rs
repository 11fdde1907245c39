//! Grouping expressions, aggregation modes and aggregate functions.
use vstd::prelude::*;
use crate::expr::{Expr, PhysicalExpr};
use crate::text::{owned, same_text};
use crate::{expr, text};

verus! {

/// Which part of an aggregation an operator performs.
#[derive(Clone, Copy, Debug, PartialEq, Eq, Structural)]
pub enum AggregateMode {
    Partial,
    Final,
    FinalPartitioned,
    Single,
    SinglePartitioned,
    PartialReduce,
}

impl AggregateMode {
    /// The name of the mode.
    pub open spec fn spec_name(self) -> Seq<char> {
        match self {
            AggregateMode::Partial => "Partial"@,
            AggregateMode::Final => "Final"@,
            AggregateMode::FinalPartitioned => "FinalPartitioned"@,
            AggregateMode::Single => "Single"@,
            AggregateMode::SinglePartitioned => "SinglePartitioned"@,
            AggregateMode::PartialReduce => "PartialReduce"@,
        }
    }

    /// The name of the mode.
    pub fn name(&self) -> (r: &'static str)
        ensures
            r@ == self.spec_name(),
    {
        match self {
            AggregateMode::Partial => "Partial",
            AggregateMode::Final => "Final",
            AggregateMode::FinalPartitioned => "FinalPartitioned",
            AggregateMode::Single => "Single",
            AggregateMode::SinglePartitioned => "SinglePartitioned",
            AggregateMode::PartialReduce => "PartialReduce",
        }
    }

    /// Whether the input holds partial states, which are merged.
    pub open spec fn spec_merges(self) -> bool {
        self == AggregateMode::Final || self == AggregateMode::FinalPartitioned
    }

    /// Whether the output holds partial states.
    pub open spec fn spec_emits_state(self) -> bool {
        self == AggregateMode::Partial || self == AggregateMode::PartialReduce
    }

    /// Whether the input holds partial states, which are merged.
    pub fn merges(&self) -> (r: bool)
        ensures
            r == self.spec_merges(),
    {
        *self == AggregateMode::Final || *self == AggregateMode::FinalPartitioned
    }

    /// Whether the output holds partial states.
    pub fn emits_state(&self) -> (r: bool)
        ensures
            r == self.spec_emits_state(),
    {
        *self == AggregateMode::Partial || *self == AggregateMode::PartialReduce
    }
}

/// An aggregate function.
#[derive(Clone, Copy, Debug, PartialEq, Eq, Structural)]
pub enum AggregateFunction {
    Sum,
    Min,
    Max,
    Avg,
    Count,
}

impl AggregateFunction {
    /// The name of the function.
    pub open spec fn spec_name(self) -> Seq<char> {
        match self {
            AggregateFunction::Sum => "SUM"@,
            AggregateFunction::Min => "MIN"@,
            AggregateFunction::Max => "MAX"@,
            AggregateFunction::Avg => "AVG"@,
            AggregateFunction::Count => "COUNT"@,
        }
    }

    /// The name of the function.
    pub fn name(&self) -> (r: &'static str)
        ensures
            r@ == self.spec_name(),
    {
        match self {
            AggregateFunction::Sum => "SUM",
            AggregateFunction::Min => "MIN",
            AggregateFunction::Max => "MAX",
            AggregateFunction::Avg => "AVG",
            AggregateFunction::Count => "COUNT",
        }
    }
}

/// An aggregate function over an input expression.
#[derive(Debug)]
pub struct AggregateExpr {
    pub function: AggregateFunction,
    pub input: PhysicalExpr,
}

/// The mathematical value of an aggregate expression.
pub struct AggregateExprModel {
    pub function: AggregateFunction,
    pub input: Expr,
}

impl View for AggregateExpr {
    type V = AggregateExprModel;

    open spec fn view(&self) -> AggregateExprModel {
        AggregateExprModel { function: self.function, input: self.input@ }
    }
}

/// The text of an aggregate expression.
pub open spec fn aggregate_text(a: AggregateExprModel) -> Seq<char> {
    a.function.spec_name() + "("@ + expr::expr_text(a.input) + ")"@
}

/// The aggregate expressions of a list.
pub open spec fn aggregates(list: Seq<AggregateExpr>) -> Seq<AggregateExprModel> {
    Seq::new(list.len(), |i: int| list[i]@)
}

/// The texts of a list of aggregate expressions.
pub open spec fn aggregate_texts(list: Seq<AggregateExprModel>) -> Seq<Seq<char>> {
    Seq::new(list.len(), |i: int| aggregate_text(list[i]))
}

impl AggregateExpr {
    /// An aggregate function over an input expression.
    pub fn new(function: AggregateFunction, input: PhysicalExpr) -> (r: Self)
        ensures
            r.function == function,
            r.input == input,
    {
        AggregateExpr { function, input }
    }

    /// The expression that is aggregated.
    pub fn input_expression(&self) -> (r: &PhysicalExpr)
        ensures
            *r == self.input,
    {
        &self.input
    }

    /// The text of the aggregate expression.
    pub fn to_string(&self) -> (r: String)
        ensures
            r@ == aggregate_text(self@),
    {
        let mut out: String = owned(self.function.name());
        out.append("(");
        let inner: String = self.input.to_string();
        out.append(inner.as_str());
        out.append(")");
        out
    }
}

/// The texts of a list of aggregate expressions.
pub fn aggregate_strings(list: &Vec<AggregateExpr>) -> (r: Vec<String>)
    ensures
        text::views(r@) == aggregate_texts(aggregates(list@)),
{
    let mut r: Vec<String> = Vec::new();
    let mut i: usize = 0;
    while i < list.len()
        invariant
            i <= list.len(),
            r.len() == i,
            forall|j: int| 0 <= j < i ==> (#[trigger] r@[j])@ == aggregate_text(list@[j]@),
        decreases list.len() - i,
    {
        r.push(list[i].to_string());
        i += 1;
    }
    assert(text::views(r@) == aggregate_texts(aggregates(list@)));
    r
}

/// The grouping of an aggregation: the grouping expressions with their output
/// names, and for grouping sets which of them each set leaves out.
#[derive(Debug)]
pub struct PhysicalGroupBy {
    /// The grouping expressions and their output names.
    pub expr: Vec<(PhysicalExpr, String)>,
    /// What stands for a grouping expression that a grouping set leaves out.
    pub null_expr: Vec<(PhysicalExpr, String)>,
    /// For each grouping set, which expressions it leaves out.
    pub groups: Vec<Vec<bool>>,
    /// Whether there are grouping sets.
    pub has_grouping_set: bool,
}

/// An expression with its output name: the name is left out where it is the
/// text of the expression.
pub open spec fn aliased_text(e: Expr, alias: Seq<char>) -> Seq<char> {
    if expr::expr_text(e) == alias {
        expr::expr_text(e)
    } else {
        expr::expr_text(e) + " as "@ + alias
    }
}

/// The terms of one grouping set.
pub open spec fn group_terms(
    exprs: Seq<(PhysicalExpr, String)>,
    null_exprs: Seq<(PhysicalExpr, String)>,
    group: Seq<bool>,
) -> Seq<Seq<char>> {
    Seq::new(
        group.len(),
        |i: int|
            if group[i] {
                aliased_text(null_exprs[i].0@, null_exprs[i].1@)
            } else {
                aliased_text(exprs[i].0@, exprs[i].1@)
            },
    )
}

fn aliased_string(e: &PhysicalExpr, alias: &String) -> (r: String)
    ensures
        r@ == aliased_text(e@, alias@),
{
    let mut out: String = e.to_string();
    if same_text(&out, alias) {
        out
    } else {
        out.append(" as ");
        out.append(alias.as_str());
        out
    }
}

impl PhysicalGroupBy {
    /// Every grouping set speaks of expressions that exist.
    pub open spec fn wf(&self) -> bool {
        forall|g: int, i: int|
            0 <= g < self.groups@.len() && 0 <= i < (#[trigger] self.groups@[g])@.len() ==> if (
            #[trigger] self.groups@[g]@[i]) {
                i < self.null_expr@.len()
            } else {
                i < self.expr@.len()
            }
    }

    /// The grouping terms, as text: the expressions themselves, or one
    /// parenthesised list per grouping set.
    pub open spec fn terms(&self) -> Seq<Seq<char>> {
        if !self.has_grouping_set {
            Seq::new(self.expr@.len(), |i: int| aliased_text(self.expr@[i].0@, self.expr@[i].1@))
        } else {
            Seq::new(
                self.groups@.len(),
                |g: int|
                    "("@ + text::join(
                        group_terms(self.expr@, self.null_expr@, self.groups@[g]@),
                        ", "@,
                    ) + ")"@,
            )
        }
    }

    /// A grouping of the given parts.
    pub fn new(
        expr: Vec<(PhysicalExpr, String)>,
        null_expr: Vec<(PhysicalExpr, String)>,
        groups: Vec<Vec<bool>>,
        has_grouping_set: bool,
    ) -> (r: Self)
        ensures
            r == (PhysicalGroupBy { expr, null_expr, groups, has_grouping_set }),
    {
        PhysicalGroupBy { expr, null_expr, groups, has_grouping_set }
    }

    /// A plain grouping by the given expressions, without grouping sets.
    pub fn new_single(expr: Vec<(PhysicalExpr, String)>) -> (r: Self)
        ensures
            r.expr == expr,
            r.null_expr@.len() == 0,
            r.groups@.len() == 1,
            r.groups@[0]@ == Seq::new(expr@.len(), |i: int| false),
            !r.has_grouping_set,
            r.wf(),
    {
        let mut group: Vec<bool> = Vec::new();
        let mut i: usize = 0;
        while i < expr.len()
            invariant
                i <= expr.len(),
                group@ == Seq::new(i as nat, |j: int| false),
            decreases expr.len() - i,
        {
            group.push(false);
            i += 1;
            assert(group@ == Seq::new(i as nat, |j: int| false));
        }
        let mut groups: Vec<Vec<bool>> = Vec::new();
        groups.push(group);
        PhysicalGroupBy { expr, null_expr: Vec::new(), groups, has_grouping_set: false }
    }

    /// The grouping expressions and their output names.
    pub fn expr(&self) -> (r: &[(PhysicalExpr, String)])
        ensures
            r@ == self.expr@,
    {
        self.expr.as_slice()
    }

    /// What stands for a grouping expression that a grouping set leaves out.
    pub fn null_expr(&self) -> (r: &[(PhysicalExpr, String)])
        ensures
            r@ == self.null_expr@,
    {
        self.null_expr.as_slice()
    }

    /// For each grouping set, which expressions it leaves out.
    pub fn groups(&self) -> (r: &[Vec<bool>])
        ensures
            r@ == self.groups@,
    {
        self.groups.as_slice()
    }

    /// Whether there are grouping sets.
    pub fn has_grouping_set(&self) -> (r: bool)
        ensures
            r == self.has_grouping_set,
    {
        self.has_grouping_set
    }

    /// Whether there is no grouping expression.
    pub fn is_empty(&self) -> (r: bool)
        ensures
            r == (self.expr@.len() == 0),
    {
        self.expr.is_empty()
    }

    /// Whether this is a plain grouping, without grouping sets.
    pub fn is_single(&self) -> (r: bool)
        ensures
            r == !self.has_grouping_set,
    {
        !self.has_grouping_set
    }

    /// Whether all rows form one group.
    pub fn is_true_no_grouping(&self) -> (r: bool)
        ensures
            r == (self.expr@.len() == 0 && !self.has_grouping_set),
    {
        self.is_empty() && !self.has_grouping_set
    }

    /// The grouping expressions, without their output names.
    pub fn input_exprs(&self) -> (r: Vec<PhysicalExpr>)
        ensures
            expr::exprs(r@) == Seq::new(self.expr@.len(), |i: int| self.expr@[i].0@),
    {
        let mut r: Vec<PhysicalExpr> = Vec::new();
        let mut i: usize = 0;
        while i < self.expr.len()
            invariant
                i <= self.expr.len(),
                r.len() == i,
                forall|j: int| 0 <= j < i ==> (#[trigger] r@[j])@ == self.expr@[j].0@,
            decreases self.expr.len() - i,
        {
            r.push(self.expr[i].0.clone());
            i += 1;
        }
        assert(expr::exprs(r@) == Seq::new(self.expr@.len(), |i: int| self.expr@[i].0@));
        r
    }

    fn group_term_strings(&self, group: &Vec<bool>) -> (r: Vec<String>)
        requires
            forall|i: int|
                0 <= i < group@.len() ==> if (#[trigger] group@[i]) {
                    i < self.null_expr@.len()
                } else {
                    i < self.expr@.len()
                },
        ensures
            text::views(r@) == group_terms(self.expr@, self.null_expr@, group@),
    {
        let mut r: Vec<String> = Vec::new();
        let mut i: usize = 0;
        while i < group.len()
            invariant
                forall|i: int|
                    0 <= i < group@.len() ==> if (#[trigger] group@[i]) {
                        i < self.null_expr@.len()
                    } else {
                        i < self.expr@.len()
                    },
                i <= group.len(),
                r.len() == i,
                forall|j: int|
                    0 <= j < i ==> (#[trigger] r@[j])@ == group_terms(
                        self.expr@,
                        self.null_expr@,
                        group@,
                    )[j],
            decreases group.len() - i,
        {
            if group[i] {
                r.push(aliased_string(&self.null_expr[i].0, &self.null_expr[i].1));
            } else {
                r.push(aliased_string(&self.expr[i].0, &self.expr[i].1));
            }
            i += 1;
        }
        assert(text::views(r@) == group_terms(self.expr@, self.null_expr@, group@));
        r
    }

    /// The grouping terms, as text.
    pub fn term_strings(&self) -> (r: Vec<String>)
        requires
            self.wf(),
        ensures
            text::views(r@) == self.terms(),
    {
        let mut r: Vec<String> = Vec::new();
        if self.is_single() {
            let mut i: usize = 0;
            while i < self.expr.len()
                invariant
                    i <= self.expr.len(),
                    r.len() == i,
                    forall|j: int|
                        0 <= j < i ==> (#[trigger] r@[j])@ == aliased_text(
                            self.expr@[j].0@,
                            self.expr@[j].1@,
                        ),
                decreases self.expr.len() - i,
            {
                r.push(aliased_string(&self.expr[i].0, &self.expr[i].1));
                i += 1;
            }
            assert(text::views(r@) == self.terms());
        } else {
            let mut g: usize = 0;
            while g < self.groups.len()
                invariant
                    self.wf(),
                    g <= self.groups.len(),
                    r.len() == g,
                    forall|j: int|
                        0 <= j < g ==> (#[trigger] r@[j])@ == "("@ + text::join(
                            group_terms(self.expr@, self.null_expr@, self.groups@[j]@),
                            ", "@,
                        ) + ")"@,
                decreases self.groups.len() - g,
            {
                let mut term: String = owned("(");
                assert forall|i: int| 0 <= i < self.groups@[g as int]@.len() implies if (
                #[trigger] self.groups@[g as int]@[i]) {
                    i < self.null_expr@.len()
                } else {
                    i < self.expr@.len()
                } by {}
                let inner: Vec<String> = self.group_term_strings(&self.groups[g]);
                text::push_joined(&mut term, &inner, ", ");
                term.append(")");
                r.push(term);
                g += 1;
            }
            assert(text::views(r@) == self.terms());
        }
        r
    }
}

impl Default for PhysicalGroupBy {
    fn default() -> (r: Self)
        ensures
            r.expr@.len() == 0,
            r.null_expr@.len() == 0,
            r.groups@.len() == 0,
            !r.has_grouping_set,
    {
        PhysicalGroupBy {
            expr: Vec::new(),
            null_expr: Vec::new(),
            groups: Vec::new(),
            has_grouping_set: false,
        }
    }
}

} // verus!
