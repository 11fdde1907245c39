//! What the graph of a plan shows: every operator once, with its own number, and
//! an edge to it from the operator above.
use vstd::prelude::*;
use crate::display::{DisplayAs, DisplayFormatType};
use crate::limit_exec::{GlobalLimitExec, LimitExec, LocalLimitExec};
use crate::plan::ExecutionPlan;
use crate::plan_display;
use crate::plan_display::ShowModel;
use crate::plan_visitor;
use crate::text;
use crate::text_laws;

verus! {

/// An operator with its number and that of the operator above it.
pub struct Numbered {
    pub id: nat,
    pub parent: Option<nat>,
    pub plan: ExecutionPlan,
}

/// The operators of a plan from the top down, numbered one after the other.
pub open spec fn numbered(plan: ExecutionPlan, id: nat, parent: Option<nat>) -> Seq<Numbered>
    decreases plan, plan.spec_children().len() + 1,
{
    seq![Numbered { id, parent, plan }] + numbered_from(plan, id + 1, id, 0)
}

/// The operators below the children from `i` on.
pub open spec fn numbered_from(plan: ExecutionPlan, id: nat, parent: nat, i: nat) -> Seq<Numbered>
    decreases plan, plan.spec_children().len() - i,
{
    if i < plan.spec_children().len() {
        proof {
            plan_visitor::child_is_smaller(plan, i as int);
        }
        let here = numbered(*plan.spec_children()[i as int], id, Some(parent));
        here + numbered_from(plan, id + here.len(), parent, i + 1)
    } else {
        seq![]
    }
}

/// What is written of an operator: its node, and the edge to it where there is an
/// operator above.
pub open spec fn drawn(o: ShowModel) -> spec_fn(Numbered) -> Seq<char> {
    |n: Numbered|
        "  "@ + text::decimal(n.id) + "[label=\""@ + escaped(labelled(n.plan, o))
            + "\",tooltip=\"\"]\n"@ + match n.parent {
            Some(above) => "  "@ + text::decimal(above) + " -> "@ + text::decimal(n.id) + "\n"@,
            None => Seq::<char>::empty(),
        }
}

/// What a label says of an operator.
pub open spec fn labelled(plan: ExecutionPlan, o: ShowModel) -> Seq<char> {
    plan.rendered(DisplayFormatType::Default) + plan_display::metrics_part(plan, o)
        + plan_display::statistics_part(o)
}

/// A text in which a backslash stands before every backslash and every quote.
pub open spec fn escaped(s: Seq<char>) -> Seq<char> {
    s.map_values(
        |c: char|
            if c == '\\' || c == '"' {
                seq!['\\', c]
            } else {
                seq![c]
            },
    ).flatten()
}

/// Numbers go up by one from operator to operator, and there are as many as
/// operators; every operator but the first hangs from one with a lower number.
pub proof fn operators_are_numbered_one_by_one(plan: ExecutionPlan, id: nat, parent: Option<nat>)
    ensures
        numbered(plan, id, parent).len() == plan_visitor::node_count(plan),
        forall|k: int|
            0 <= k < numbered(plan, id, parent).len() ==> (#[trigger] numbered(
                plan,
                id,
                parent,
            )[k]).id == id + k,
        forall|k: int|
            0 < k < numbered(plan, id, parent).len() ==> ((#[trigger] numbered(
                plan,
                id,
                parent,
            )[k]).parent matches Some(above) && id <= above < id + k),
    decreases plan, plan.spec_children().len() + 1,
{
    children_are_numbered(plan, id + 1, id, 0);
    let all = numbered(plan, id, parent);
    let below = numbered_from(plan, id + 1, id, 0);
    assert forall|k: int| 0 <= k < all.len() implies (#[trigger] all[k]).id == id + k by {
        if k > 0 {
            assert(all[k] == below[k - 1]);
        }
    }
    assert forall|k: int| 0 < k < all.len() implies ((#[trigger] all[k]).parent matches Some(above)
        && id <= above < id + k) by {
        assert(all[k] == below[k - 1]);
    }
}

proof fn children_are_numbered(plan: ExecutionPlan, id: nat, parent: nat, i: nat)
    requires
        parent < id,
    ensures
        numbered_from(plan, id, parent, i).len() == plan_visitor::node_count_from(plan, i),
        forall|k: int|
            0 <= k < numbered_from(plan, id, parent, i).len() ==> (#[trigger] numbered_from(
                plan,
                id,
                parent,
                i,
            )[k]).id == id + k,
        forall|k: int|
            0 <= k < numbered_from(plan, id, parent, i).len() ==> ((#[trigger] numbered_from(
                plan,
                id,
                parent,
                i,
            )[k]).parent matches Some(above) && parent <= above < id + k),
    decreases plan, plan.spec_children().len() - i,
{
    if i < plan.spec_children().len() {
        plan_visitor::child_is_smaller(plan, i as int);
        let child = *plan.spec_children()[i as int];
        operators_are_numbered_one_by_one(child, id, Some(parent));
        let here = numbered(child, id, Some(parent));
        let next = id + here.len();
        children_are_numbered(plan, next, parent, i + 1);
        let rest = numbered_from(plan, next, parent, i + 1);
        let all = numbered_from(plan, id, parent, i);
        assert(all == here + rest);
        assert(here[0] == (Numbered { id, parent: Some(parent), plan: child }));
        assert forall|k: int| 0 <= k < all.len() implies (#[trigger] all[k]).id == id + k by {
            if k < here.len() {
                assert(all[k] == here[k]);
            } else {
                assert(all[k] == rest[k - here.len()]);
            }
        }
        assert forall|k: int| 0 <= k < all.len() implies ((
        #[trigger] all[k]).parent matches Some(above) && parent <= above < id + k) by {
            if k < here.len() {
                assert(all[k] == here[k]);
            } else {
                assert(all[k] == rest[k - here.len()]);
            }
        }
    }
}

/// The graph of a plan writes every operator, from the top down, with its number
/// and the edge from the operator above.
pub proof fn a_graph_shows_every_operator(
    plan: ExecutionPlan,
    o: ShowModel,
    id: nat,
    parent: Option<nat>,
)
    ensures
        plan_display::graph_text(plan, o, id, parent) == numbered(plan, id, parent).map_values(
            drawn(o),
        ).flatten(),
    decreases plan, plan.spec_children().len() + 1,
{
    let f = drawn(o);
    let head = seq![Numbered { id, parent, plan }];
    let below = numbered_from(plan, id + 1, id, 0);
    label_is_escaped(plan, o);
    below_are_drawn(plan, o, id + 1, id, 0);
    drawn_together(head, below, f);
    assert(head.map_values(f) =~= seq![f(head[0])]);
    head.map_values(f).lemma_flatten_one_element();
    assert(plan_display::graph_node(plan, o, id, parent) =~= f(head[0]));
    assert(plan_display::graph_text(plan, o, id, parent) =~= numbered(plan, id, parent).map_values(
        f,
    ).flatten());
}

proof fn below_are_drawn(plan: ExecutionPlan, o: ShowModel, id: nat, parent: nat, i: nat)
    ensures
        plan_display::graph_from(plan, o, id, parent, i) == numbered_from(
            plan,
            id,
            parent,
            i,
        ).map_values(drawn(o)).flatten(),
    decreases plan, plan.spec_children().len() - i,
{
    let f = drawn(o);
    if i < plan.spec_children().len() {
        plan_visitor::child_is_smaller(plan, i as int);
        let child = *plan.spec_children()[i as int];
        let here = numbered(child, id, Some(parent));
        operators_are_numbered_one_by_one(child, id, Some(parent));
        a_graph_shows_every_operator(child, o, id, Some(parent));
        below_are_drawn(plan, o, id + here.len(), parent, i + 1);
        drawn_together(here, numbered_from(plan, id + here.len(), parent, i + 1), f);
    } else {
        assert(numbered_from(plan, id, parent, i).map_values(f) =~= Seq::<Seq<char>>::empty());
        assert(plan_display::graph_from(plan, o, id, parent, i) =~= Seq::<char>::empty());
    }
}

proof fn drawn_together(a: Seq<Numbered>, b: Seq<Numbered>, f: spec_fn(Numbered) -> Seq<char>)
    ensures
        (a + b).map_values(f).flatten() == a.map_values(f).flatten() + b.map_values(f).flatten(),
    decreases b.len(),
{
    if b.len() == 0 {
        assert(a + b =~= a);
        assert(b.map_values(f) =~= Seq::<Seq<char>>::empty());
        assert(a.map_values(f).flatten() + b.map_values(f).flatten() =~= a.map_values(f).flatten());
    } else {
        let c = b.drop_last();
        drawn_together(a, c, f);
        assert(b.map_values(f) =~= c.map_values(f).push(f(b.last())));
        assert((a + b).map_values(f) =~= (a + c).map_values(f).push(f(b.last())));
        c.map_values(f).lemma_flatten_push(f(b.last()));
        (a + c).map_values(f).lemma_flatten_push(f(b.last()));
        assert((a + b).map_values(f).flatten() =~= a.map_values(f).flatten() + b.map_values(
            f,
        ).flatten());
    }
}

proof fn label_is_escaped(plan: ExecutionPlan, o: ShowModel)
    ensures
        plan_display::graph_label(plan, o) == escaped(labelled(plan, o)),
{
    reveal_strlit("\\\\");
    reveal_strlit("\\\"");
    assert("\\\\"@ =~= seq!['\\', '\\']);
    assert("\\\""@ =~= seq!['\\', '"']);
    replaced_twice(labelled(plan, o));
}

proof fn replaced_twice(s: Seq<char>)
    ensures
        text::replace_char(text::replace_char(s, '\\', seq!['\\', '\\']), '"', seq!['\\', '"'])
            == escaped(s),
    decreases s.len(),
{
    let f = |c: char|
        if c == '\\' || c == '"' {
            seq!['\\', c]
        } else {
            seq![c]
        };
    if s.len() > 0 {
        let rest = s.drop_last();
        let c = s.last();
        let slashes = seq!['\\', '\\'];
        let quoted = seq!['\\', '"'];
        replaced_twice(rest);
        let before = text::replace_char(rest, '\\', slashes);
        let after = text::replace_char(before, '"', quoted);
        assert(s.map_values(f) =~= rest.map_values(f).push(f(c)));
        rest.map_values(f).lemma_flatten_push(f(c));
        if c == '\\' {
            let full = before + slashes;
            assert(full.drop_last() =~= before.push('\\'));
            assert(full.drop_last().drop_last() =~= before);
            reveal_with_fuel(text::replace_char, 3);
            assert(text::replace_char(full.drop_last(), '"', quoted) == after.push('\\'));
            assert(text::replace_char(full, '"', quoted) =~= after + slashes);
        } else {
            let full = before.push(c);
            assert(full.drop_last() =~= before);
            assert(text::replace_char(full, '"', quoted) =~= after + f(c));
        }
    } else {
        assert(s.map_values(f) =~= Seq::<Seq<char>>::empty());
        assert(escaped(s) =~= Seq::<char>::empty());
    }
}

/// The numbers behind the sign in the text of a limit are those of the limit.
pub proof fn a_limit_shows_its_numbers(
    local: LocalLimitExec,
    limit: LimitExec,
    global: GlobalLimitExec,
)
    ensures
        local.rendered(DisplayFormatType::Default).take(22) == "LocalLimitExec: fetch="@,
        text_laws::place_value(local.rendered(DisplayFormatType::Default).skip(22)) == local.fetch,
        limit.rendered(DisplayFormatType::Default).take(17) == "LimitExec: limit="@,
        text_laws::place_value(limit.rendered(DisplayFormatType::Default).skip(17)) == limit.limit,
        text_laws::place_value(local.rendered(DisplayFormatType::TreeRender).skip(6))
            == local.fetch,
        global.fetch is None ==> text_laws::place_value(
            global.rendered(DisplayFormatType::TreeRender).skip(5),
        ) == global.skip,
{
    reveal_strlit("LocalLimitExec: fetch=");
    reveal_strlit("LimitExec: limit=");
    reveal_strlit("limit=");
    reveal_strlit("skip=");
    text_laws::a_decimal_number_is_read_back(local.fetch as nat);
    text_laws::a_decimal_number_is_read_back(limit.limit as nat);
    text_laws::a_decimal_number_is_read_back(global.skip as nat);
    assert(local.rendered(DisplayFormatType::Default).take(22) =~= "LocalLimitExec: fetch="@);
    assert(local.rendered(DisplayFormatType::Default).skip(22) =~= text::decimal(
        local.fetch as nat,
    ));
    assert(limit.rendered(DisplayFormatType::Default).take(17) =~= "LimitExec: limit="@);
    assert(limit.rendered(DisplayFormatType::Default).skip(17) =~= text::decimal(
        limit.limit as nat,
    ));
    assert(local.rendered(DisplayFormatType::TreeRender).skip(6) =~= text::decimal(
        local.fetch as nat,
    ));
    if global.fetch is None {
        assert(global.rendered(DisplayFormatType::TreeRender).skip(5) =~= text::decimal(
            global.skip as nat,
        ));
    }
}

} // verus!
