//! Walking a plan, operator by operator.
use vstd::prelude::*;
use std::sync::Arc;
use crate::plan::ExecutionPlan;

verus! {

/// A child is smaller than its parent.
pub proof fn child_is_smaller(plan: ExecutionPlan, i: int)
    requires
        0 <= i < plan.spec_children().len(),
    ensures
        decreases_to!(plan => *plan.spec_children()[i]),
{
    match plan {
        ExecutionPlan::Aggregate(op) => {
            assert(decreases_to!(plan => op));
            assert(decreases_to!(op => op.input));
        },
        ExecutionPlan::Filter(op) => {
            assert(decreases_to!(op => op.input));
        },
        ExecutionPlan::GlobalLimit(op) => {
            assert(decreases_to!(op => op.input));
        },
        ExecutionPlan::HashJoin(op) => {
            assert(decreases_to!(op => op.left));
            assert(decreases_to!(op => op.right));
        },
        ExecutionPlan::Limit(op) => {
            assert(decreases_to!(op => op.input));
        },
        ExecutionPlan::LocalLimit(op) => {
            assert(decreases_to!(op => op.input));
        },
        ExecutionPlan::Projection(op) => {
            assert(decreases_to!(op => op.input));
        },
        ExecutionPlan::Selection(op) => {
            assert(decreases_to!(op => op.input));
        },
        ExecutionPlan::ShuffleWriter(op) => {
            assert(decreases_to!(op => op.input));
        },
        ExecutionPlan::Sort(op) => {
            assert(decreases_to!(op => op.input));
        },
        ExecutionPlan::Extension(op) => {
            assert(decreases_to!(op => op.children));
            assert(decreases_to!(op.children => op.children@));
            assert(decreases_to!(op.children@ => op.children@[i]));
        },
        _ => {},
    }
}

/// Whether something holds of every operator of a plan.
pub open spec fn all_nodes(plan: ExecutionPlan, holds: spec_fn(ExecutionPlan) -> bool) -> bool
    decreases plan, plan.spec_children().len() + 1,
{
    holds(plan) && all_nodes_from(plan, holds, 0)
}

/// Whether something holds of every operator below the children from `i` on.
pub open spec fn all_nodes_from(
    plan: ExecutionPlan,
    holds: spec_fn(ExecutionPlan) -> bool,
    i: nat,
) -> bool
    decreases plan, plan.spec_children().len() - i,
{
    if i < plan.spec_children().len() {
        proof {
            child_is_smaller(plan, i as int);
        }
        all_nodes(*plan.spec_children()[i as int], holds) && all_nodes_from(plan, holds, i + 1)
    } else {
        true
    }
}

/// How many operators a plan has.
pub open spec fn node_count(plan: ExecutionPlan) -> nat
    decreases plan, plan.spec_children().len() + 1,
{
    1 + node_count_from(plan, 0)
}

/// How many operators there are below the children from `i` on.
pub open spec fn node_count_from(plan: ExecutionPlan, i: nat) -> nat
    decreases plan, plan.spec_children().len() - i,
{
    if i < plan.spec_children().len() {
        proof {
            child_is_smaller(plan, i as int);
        }
        node_count(*plan.spec_children()[i as int]) + node_count_from(plan, i + 1)
    } else {
        0
    }
}

/// Visits the operators of a plan.
///
/// What a visitor does is given by how its state changes: on the way down when
/// an operator is reached, and on the way up when all below it has been walked.
pub trait ExecutionPlanVisitor: Sized {
    /// The error of a visit.
    type Error;

    /// The mathematical value of the visitor.
    type State;

    /// The state of the visitor.
    spec fn state(&self) -> Self::State;

    /// Whether an operator can be reached in a state.
    spec fn can_enter(state: Self::State, plan: ExecutionPlan) -> bool;

    /// What reaching an operator does: the next state, and whether to walk the
    /// children.
    spec fn entered(state: Self::State, plan: ExecutionPlan) -> (
        Self::State,
        Result<bool, Self::Error>,
    );

    /// Whether an operator can be left in a state.
    spec fn can_leave(state: Self::State, plan: ExecutionPlan) -> bool;

    /// What leaving an operator does.
    spec fn left(state: Self::State, plan: ExecutionPlan) -> (
        Self::State,
        Result<bool, Self::Error>,
    );

    /// Reaches an operator, before its children are walked.
    fn pre_visit(&mut self, plan: &ExecutionPlan) -> (r: Result<bool, Self::Error>)
        requires
            Self::can_enter(old(self).state(), *plan),
        ensures
            (final(self).state(), r) == Self::entered(old(self).state(), *plan),
    ;

    /// Leaves an operator, after its children have been walked.
    fn post_visit(&mut self, plan: &ExecutionPlan) -> (r: Result<bool, Self::Error>)
        requires
            Self::can_leave(old(self).state(), *plan),
        ensures
            (final(self).state(), r) == Self::left(old(self).state(), *plan),
    ;
}

/// What walking a plan does: the operator is reached, then its children are
/// walked in order, then it is left. A visitor that declines the children ends
/// the walk of the operator there; an error ends the whole walk.
pub open spec fn walked<V: ExecutionPlanVisitor>(state: V::State, plan: ExecutionPlan) -> (
    V::State,
    Result<(), V::Error>,
)
    decreases plan, plan.spec_children().len() + 1,
{
    let (inside, descend) = V::entered(state, plan);
    match descend {
        Err(e) => (inside, Err(e)),
        Ok(false) => (inside, Ok(())),
        Ok(true) => {
            let (below, outcome) = walked_from::<V>(inside, plan, 0);
            match outcome {
                Err(e) => (below, Err(e)),
                Ok(_) => {
                    let (after, done) = V::left(below, plan);
                    match done {
                        Err(e) => (after, Err(e)),
                        Ok(_) => (after, Ok(())),
                    }
                },
            }
        },
    }
}

/// What walking the children from `i` on does.
pub open spec fn walked_from<V: ExecutionPlanVisitor>(
    state: V::State,
    plan: ExecutionPlan,
    i: nat,
) -> (V::State, Result<(), V::Error>)
    decreases plan, plan.spec_children().len() - i,
{
    if i < plan.spec_children().len() {
        proof {
            child_is_smaller(plan, i as int);
        }
        let (next, outcome) = walked::<V>(state, *plan.spec_children()[i as int]);
        match outcome {
            Err(e) => (next, Err(e)),
            Ok(_) => walked_from::<V>(next, plan, i + 1),
        }
    } else {
        (state, Ok(()))
    }
}

/// Whether every operator that a walk reaches can be reached, and left.
pub open spec fn walkable<V: ExecutionPlanVisitor>(state: V::State, plan: ExecutionPlan) -> bool
    decreases plan, plan.spec_children().len() + 1,
{
    let (inside, descend) = V::entered(state, plan);
    let (below, outcome) = walked_from::<V>(inside, plan, 0);
    V::can_enter(state, plan) && (descend == Ok::<bool, V::Error>(true) ==> walkable_from::<V>(
        inside,
        plan,
        0,
    ) && (outcome is Ok ==> V::can_leave(below, plan)))
}

/// Whether every operator that a walk of the children from `i` on reaches can be
/// reached, and left.
pub open spec fn walkable_from<V: ExecutionPlanVisitor>(
    state: V::State,
    plan: ExecutionPlan,
    i: nat,
) -> bool
    decreases plan, plan.spec_children().len() - i,
{
    if i < plan.spec_children().len() {
        proof {
            child_is_smaller(plan, i as int);
        }
        let child = *plan.spec_children()[i as int];
        let (next, outcome) = walked::<V>(state, child);
        walkable::<V>(state, child) && (outcome is Ok ==> walkable_from::<V>(next, plan, i + 1))
    } else {
        true
    }
}

/// Walks a plan depth first, in the order of the children.
pub fn accept<V: ExecutionPlanVisitor>(plan: &ExecutionPlan, visitor: &mut V) -> (r: Result<
    (),
    V::Error,
>)
    requires
        walkable::<V>(old(visitor).state(), *plan),
    ensures
        (final(visitor).state(), r) == walked::<V>(old(visitor).state(), *plan),
    decreases plan,
{
    match visitor.pre_visit(plan) {
        Err(e) => {
            return Err(e);
        },
        Ok(descend) => {
            if !descend {
                return Ok(());
            }
        },
    }
    let ghost inside = visitor.state();
    let children = plan.children();
    let mut i: usize = 0;
    while i < children.len()
        invariant
            children@.len() == plan.spec_children().len(),
            forall|j: int|
                0 <= j < children@.len() ==> *(#[trigger] children@[j]) == plan.spec_children()[j],
            i <= children.len(),
            walked_from::<V>(inside, *plan, 0) == walked_from::<V>(
                visitor.state(),
                *plan,
                i as nat,
            ),
            walkable_from::<V>(visitor.state(), *plan, i as nat),
            (inside, Ok::<bool, V::Error>(true)) == V::entered(old(visitor).state(), *plan),
        decreases children.len() - i,
    {
        proof {
            child_is_smaller(*plan, i as int);
        }
        let child: &Arc<ExecutionPlan> = children[i];
        match accept(child, visitor) {
            Ok(_) => {},
            Err(e) => {
                return Err(e);
            },
        }
        i += 1;
    }
    match visitor.post_visit(plan) {
        Ok(_) => Ok(()),
        Err(e) => Err(e),
    }
}

} // verus!
