//! Placing the operators of a plan on a grid.
//!
//! An operator stands above its first child, in the same column; the further
//! children stand to the right of all that is below the earlier ones.
use vstd::prelude::*;
use std::sync::Arc;
use crate::display::{DisplayAs, DisplayFormatType};
use crate::plan::ExecutionPlan;
use crate::text::{chars_of, owned, same_text, string_of};
use crate::tree_render::{split_lines, RenderTree, RenderTreeNode, TreeRenderVisitor};
use crate::{plan_visitor, text, tree_layers, tree_render};

verus! {

/// How many columns a plan takes: one for each operator without children.
pub open spec fn tree_width(plan: ExecutionPlan) -> nat
    decreases plan, plan.spec_children().len() + 1,
{
    if plan.spec_children().len() == 0 {
        1
    } else {
        width_from(plan, 0)
    }
}

/// How many columns the children from `i` on take.
pub open spec fn width_from(plan: ExecutionPlan, i: nat) -> nat
    decreases plan, plan.spec_children().len() - i,
{
    if i < plan.spec_children().len() {
        proof {
            plan_visitor::child_is_smaller(plan, i as int);
        }
        tree_width(*plan.spec_children()[i as int]) + width_from(plan, i + 1)
    } else {
        0
    }
}

/// How many rows a plan takes: one for each operator on the longest way down.
pub open spec fn tree_height(plan: ExecutionPlan) -> nat
    decreases plan, plan.spec_children().len() + 1,
{
    1 + height_from(plan, 0)
}

/// How many rows the children from `i` on take.
pub open spec fn height_from(plan: ExecutionPlan, i: nat) -> nat
    decreases plan, plan.spec_children().len() - i,
{
    if i < plan.spec_children().len() {
        proof {
            plan_visitor::child_is_smaller(plan, i as int);
        }
        let here = tree_height(*plan.spec_children()[i as int]);
        let rest = height_from(plan, i + 1);
        if here > rest {
            here
        } else {
            rest
        }
    } else {
        0
    }
}

/// The operator that stands at a place, where the plan itself stands at the
/// origin.
pub open spec fn operator_at(plan: ExecutionPlan, x: int, y: int) -> Option<ExecutionPlan>
    decreases plan, plan.spec_children().len() + 1,
{
    if y == 0 {
        if x == 0 {
            Some(plan)
        } else {
            None
        }
    } else {
        below_at(plan, 0, x, y - 1)
    }
}

/// The operator that stands at a place, where the child `i` stands at the
/// origin and the further children to its right.
pub open spec fn below_at(plan: ExecutionPlan, i: nat, x: int, y: int) -> Option<ExecutionPlan>
    decreases plan, plan.spec_children().len() - i,
{
    if i < plan.spec_children().len() {
        proof {
            plan_visitor::child_is_smaller(plan, i as int);
        }
        let child = *plan.spec_children()[i as int];
        if x < tree_width(child) {
            operator_at(child, x, y)
        } else {
            below_at(plan, i + 1, x - tree_width(child), y)
        }
    } else {
        None
    }
}

/// Where the children of an operator at a place stand.
pub open spec fn child_places(plan: ExecutionPlan, x: int, y: int) -> Seq<(int, int)> {
    Seq::new(
        plan.spec_children().len(),
        |i: int| (x + width_from(plan, 0) - width_from(plan, i as nat), y + 1),
    )
}

/// The position of the first equals sign.
pub open spec fn equals_at(line: Seq<char>) -> Option<int>
    decreases line.len(),
{
    if line.len() == 0 {
        None
    } else if line[0] == '=' {
        Some(0)
    } else {
        match equals_at(line.drop_first()) {
            Some(i) => Some(i + 1),
            None => None,
        }
    }
}

/// The detail that a line gives: what stands before the first equals sign and
/// what stands after it, or the whole line and nothing.
pub open spec fn detail_of(line: Seq<char>) -> (Seq<char>, Seq<char>) {
    match equals_at(line) {
        Some(i) => (line.take(i), line.skip(i + 1)),
        None => (line, seq![]),
    }
}

/// The position of the detail with a key.
pub open spec fn detail_position(details: Seq<(Seq<char>, Seq<char>)>, key: Seq<char>) -> Option<int>
    decreases details.len(),
{
    if details.len() == 0 {
        None
    } else if details.last().0 == key {
        Some(details.len() - 1)
    } else {
        detail_position(details.drop_last(), key)
    }
}

/// The details with one more; a detail takes the place of an earlier one with
/// the same key.
pub open spec fn with_detail(
    details: Seq<(Seq<char>, Seq<char>)>,
    detail: (Seq<char>, Seq<char>),
) -> Seq<(Seq<char>, Seq<char>)> {
    match detail_position(details, detail.0) {
        Some(i) => details.update(i, detail),
        None => details.push(detail),
    }
}

/// The details that some lines give.
pub open spec fn line_details(lines: Seq<Seq<char>>) -> Seq<(Seq<char>, Seq<char>)>
    decreases lines.len(),
{
    if lines.len() == 0 {
        seq![]
    } else {
        with_detail(line_details(lines.drop_last()), detail_of(lines.last()))
    }
}

/// The lines of a text; nothing after a last line break is no line.
pub open spec fn shown_lines(s: Seq<char>) -> Seq<Seq<char>> {
    let lines = tree_render::lines_of(s);
    if lines.len() > 0 && lines.last().len() == 0 {
        lines.drop_last()
    } else {
        lines
    }
}

/// The details that are shown of an operator.
pub open spec fn operator_details(plan: ExecutionPlan) -> Seq<(Seq<char>, Seq<char>)> {
    line_details(shown_lines(plan.rendered(DisplayFormatType::TreeRender)))
}

/// The places of the children, as plain values.
pub open spec fn places(positions: Seq<(usize, usize)>) -> Seq<(int, int)> {
    Seq::new(positions.len(), |i: int| (positions[i].0 as int, positions[i].1 as int))
}

/// Whether a box shows an operator at a place.
pub open spec fn shows(node: RenderTreeNode, plan: ExecutionPlan, x: int, y: int) -> bool {
    &&& node.name@ == plan.spec_name()
    &&& tree_render::details_of(node.extra_text@) == operator_details(plan)
    &&& places(node.child_positions@) == child_places(plan, x, y)
}

/// Whether a grid shows a plan: it is as wide and as high as the plan, and holds
/// a box for each operator at its place and nothing else.
pub open spec fn draws(root: RenderTree, plan: ExecutionPlan) -> bool {
    &&& root.wf()
    &&& root.width == tree_width(plan)
    &&& root.height == tree_height(plan)
    &&& forall|x: int, y: int|
        0 <= x < root.width && 0 <= y < root.height ==> match #[trigger] root.node_at(x, y) {
            Some(node) => operator_at(plan, x, y) matches Some(op) && shows(node, op, x, y),
            None => operator_at(plan, x, y) is None,
        }
}

/// Whether a plan can be placed on a grid: there are numbers for its places.
pub open spec fn placeable(plan: ExecutionPlan) -> bool {
    tree_width(plan) < usize::MAX && tree_height(plan) < usize::MAX && tree_width(plan)
        * tree_height(plan) <= usize::MAX
}

/// An operator and all below it stand within the grid of the plan.
pub proof fn operators_stay_inside(plan: ExecutionPlan, x: int, y: int)
    requires
        0 <= x,
        0 <= y,
    ensures
        operator_at(plan, x, y) matches Some(op) ==> x + tree_width(op) <= tree_width(plan) && y
            + tree_height(op) <= tree_height(plan),
    decreases plan, plan.spec_children().len() + 1,
{
    if y > 0 {
        below_stays_inside(plan, 0, x, y - 1);
    }
}

proof fn below_stays_inside(plan: ExecutionPlan, i: nat, x: int, y: int)
    requires
        0 <= x,
        0 <= y,
    ensures
        below_at(plan, i, x, y) matches Some(op) ==> x + tree_width(op) <= width_from(plan, i) && y
            + tree_height(op) <= height_from(plan, i) && plan.spec_children().len() > 0,
    decreases plan, plan.spec_children().len() - i,
{
    if i < plan.spec_children().len() {
        plan_visitor::child_is_smaller(plan, i as int);
        let child = *plan.spec_children()[i as int];
        if x < tree_width(child) {
            operators_stay_inside(child, x, y);
        } else {
            below_stays_inside(plan, i + 1, x - tree_width(child), y);
        }
    }
}

/// What holds of every operator of a plan holds of every operator on the grid.
pub proof fn all_nodes_are_placed(
    plan: ExecutionPlan,
    holds: spec_fn(ExecutionPlan) -> bool,
    x: int,
    y: int,
)
    requires
        plan_visitor::all_nodes(plan, holds),
    ensures
        operator_at(plan, x, y) matches Some(op) ==> holds(op),
    decreases plan, plan.spec_children().len() + 1,
{
    if y != 0 {
        all_below_are_placed(plan, holds, 0, x, y - 1);
    }
}

proof fn all_below_are_placed(
    plan: ExecutionPlan,
    holds: spec_fn(ExecutionPlan) -> bool,
    i: nat,
    x: int,
    y: int,
)
    requires
        plan_visitor::all_nodes_from(plan, holds, i),
    ensures
        below_at(plan, i, x, y) matches Some(op) ==> holds(op),
    decreases plan, plan.spec_children().len() - i,
{
    if i < plan.spec_children().len() {
        plan_visitor::child_is_smaller(plan, i as int);
        let child = *plan.spec_children()[i as int];
        if x < tree_width(child) {
            all_nodes_are_placed(child, holds, x, y);
        } else {
            all_below_are_placed(plan, holds, i + 1, x - tree_width(child), y);
        }
    }
}

/// The width and the height of a plan.
pub fn tree_size(plan: &ExecutionPlan) -> (r: (usize, usize))
    requires
        tree_width(*plan) <= usize::MAX,
        tree_height(*plan) <= usize::MAX,
    ensures
        r.0 == tree_width(*plan),
        r.1 == tree_height(*plan),
    decreases plan,
{
    let children = plan.children();
    if children.is_empty() {
        return (1, 1);
    }
    let mut width: usize = 0;
    let mut height: usize = 0;
    let mut n: usize = children.len();
    while n > 0
        invariant
            tree_width(*plan) <= usize::MAX,
            tree_height(*plan) <= usize::MAX,
            children@.len() == plan.spec_children().len(),
            children@.len() > 0,
            forall|j: int|
                0 <= j < children@.len() ==> *(#[trigger] children@[j]) == plan.spec_children()[j],
            n <= children.len(),
            width == width_from(*plan, n as nat),
            height == height_from(*plan, n as nat),
        decreases n,
    {
        let i: usize = n - 1;
        proof {
            plan_visitor::child_is_smaller(*plan, i as int);
            from_is_part(*plan, i as nat);
        }
        let child: &Arc<ExecutionPlan> = children[i];
        let (w, h) = tree_size(child);
        width = w + width;
        if h > height {
            height = h;
        }
        n = i;
    }
    (width, 1 + height)
}

/// Later children take no more than all children.
proof fn from_is_part(plan: ExecutionPlan, i: nat)
    requires
        i <= plan.spec_children().len(),
    ensures
        width_from(plan, i) <= width_from(plan, 0),
        height_from(plan, i) <= height_from(plan, 0),
    decreases i,
{
    if i > 0 {
        from_is_part(plan, (i - 1) as nat);
    }
}

/// The operator that stands at a place.
fn find<'a>(plan: &'a ExecutionPlan, x: usize, y: usize) -> (r: Option<&'a ExecutionPlan>)
    requires
        tree_width(*plan) <= usize::MAX,
        tree_height(*plan) <= usize::MAX,
    ensures
        match r {
            Some(op) => operator_at(*plan, x as int, y as int) == Some(*op),
            None => operator_at(*plan, x as int, y as int) is None,
        },
    decreases plan,
{
    if y == 0 {
        if x == 0 {
            return Some(plan);
        }
        return None;
    }
    let children = plan.children();
    let mut left: usize = x;
    let mut i: usize = 0;
    while i < children.len()
        invariant
            tree_width(*plan) <= usize::MAX,
            tree_height(*plan) <= usize::MAX,
            y > 0,
            children@.len() == plan.spec_children().len(),
            forall|j: int|
                0 <= j < children@.len() ==> *(#[trigger] children@[j]) == plan.spec_children()[j],
            i <= children.len(),
            operator_at(*plan, x as int, y as int) == below_at(*plan, i as nat, left as int, y - 1),
        decreases children.len() - i,
    {
        proof {
            plan_visitor::child_is_smaller(*plan, i as int);
            from_is_part(*plan, i as nat);
        }
        let child: &'a Arc<ExecutionPlan> = children[i];
        let (w, _) = tree_size(child);
        if left < w {
            return find(child, left, y - 1);
        }
        left = left - w;
        i += 1;
    }
    None
}

/// The detail that a line gives.
fn split_detail(line: &String) -> (r: (String, String))
    ensures
        (r.0@, r.1@) == detail_of(line@),
{
    let chars: Vec<char> = chars_of(line.as_str());
    let n: usize = chars.len();
    let mut i: usize = 0;
    assert(chars@.skip(0) == chars@);
    while i < n
        invariant
            n == chars@.len(),
            chars@ == line@,
            i <= n,
            equals_at(line@) == match equals_at(line@.skip(i as int)) {
                Some(j) => Some(j + i),
                None => None::<int>,
            },
        decreases n - i,
    {
        assert(line@.skip(i as int)[0] == chars@[i as int]);
        assert(line@.skip(i as int).drop_first() == line@.skip(i + 1));
        if chars[i] == '=' {
            let key = string_of(&chars, 0, i);
            let value = string_of(&chars, i + 1, n);
            assert(key@ == line@.take(i as int));
            assert(value@ == line@.skip(i + 1));
            return (key, value);
        }
        i += 1;
    }
    assert(line@.skip(i as int).len() == 0);
    (line.clone(), String::new())
}

/// Adds a detail, or puts it in the place of one with the same key.
fn add_detail(details: &mut Vec<(String, String)>, detail: (String, String))
    ensures
        tree_render::details_of(final(details)@) == with_detail(
            tree_render::details_of(old(details)@),
            (detail.0@, detail.1@),
        ),
{
    let ghost all = tree_render::details_of(details@);
    let ghost new = (detail.0@, detail.1@);
    let mut n: usize = details.len();
    assert(all.take(n as int) == all);
    while n > 0
        invariant
            *details == *old(details),
            all == tree_render::details_of(details@),
            new == (detail.0@, detail.1@),
            n <= details@.len(),
            detail_position(all, new.0) == detail_position(all.take(n as int), new.0),
        decreases n,
    {
        let i: usize = n - 1;
        assert(all.take(n as int).drop_last() == all.take(i as int));
        assert(all.take(n as int).last() == all[i as int]);
        if same_text(&details[i].0, &detail.0) {
            details[i] = detail;
            assert(tree_render::details_of(details@) == all.update(i as int, new));
            return;
        }
        n = i;
    }
    assert(all.take(0).len() == 0);
    details.push(detail);
    assert(tree_render::details_of(details@) == all.push(new));
}

/// The details that are shown of an operator.
fn details_for(plan: &ExecutionPlan) -> (r: Vec<(String, String)>)
    requires
        plan.displayable(),
    ensures
        tree_render::details_of(r@) == operator_details(*plan),
{
    let label = plan.fmt_as(DisplayFormatType::TreeRender);
    let lines = split_lines(label.as_str());
    let ghost all = text::views(lines@);
    let mut n: usize = lines.len();
    if n > 0 && lines[n - 1].as_str().is_empty() {
        n = n - 1;
    }
    let ghost shown = all.take(n as int);
    assert(shown == shown_lines(label@));
    let mut details: Vec<(String, String)> = Vec::new();
    let mut i: usize = 0;
    assert(tree_render::details_of(details@) == line_details(shown.take(0)));
    while i < n
        invariant
            n <= lines@.len(),
            all == text::views(lines@),
            shown == all.take(n as int),
            i <= n,
            tree_render::details_of(details@) == line_details(shown.take(i as int)),
        decreases n - i,
    {
        assert(shown.take(i + 1).drop_last() == shown.take(i as int));
        assert(shown.take(i + 1).last() == lines@[i as int]@);
        let detail = split_detail(&lines[i]);
        add_detail(&mut details, detail);
        i += 1;
    }
    assert(shown.take(i as int) == shown);
    details
}

/// Where the children of an operator at a place stand.
fn positions_for(plan: &ExecutionPlan, x: usize, y: usize) -> (r: Vec<(usize, usize)>)
    requires
        x + tree_width(*plan) <= usize::MAX,
        y + tree_height(*plan) <= usize::MAX,
    ensures
        places(r@) == child_places(*plan, x as int, y as int),
{
    let children = plan.children();
    let mut r: Vec<(usize, usize)> = Vec::new();
    let mut at: usize = x;
    let mut i: usize = 0;
    while i < children.len()
        invariant
            x + tree_width(*plan) <= usize::MAX,
            y + tree_height(*plan) <= usize::MAX,
            children@.len() == plan.spec_children().len(),
            forall|j: int|
                0 <= j < children@.len() ==> *(#[trigger] children@[j]) == plan.spec_children()[j],
            i <= children.len(),
            at == x + width_from(*plan, 0) - width_from(*plan, i as nat),
            r.len() == i,
            forall|j: int|
                0 <= j < i ==> (#[trigger] r@[j]).0 == x + width_from(*plan, 0) - width_from(
                    *plan,
                    j as nat,
                ) && r@[j].1 == y + 1,
        decreases children.len() - i,
    {
        proof {
            plan_visitor::child_is_smaller(*plan, i as int);
            from_is_part(*plan, i as nat);
        }
        let child: &Arc<ExecutionPlan> = children[i];
        let (w, _) = tree_size(child);
        r.push((at, y + 1));
        at = at + w;
        i += 1;
    }
    assert(places(r@) == child_places(*plan, x as int, y as int));
    r
}

/// The box for the operator at a place, if there is one.
fn box_at(plan: &ExecutionPlan, x: usize, y: usize) -> (r: Option<RenderTreeNode>)
    requires
        tree_width(*plan) <= usize::MAX,
        tree_height(*plan) <= usize::MAX,
        plan_visitor::all_nodes(*plan, |op: ExecutionPlan| op.displayable()),
    ensures
        match r {
            Some(node) => operator_at(*plan, x as int, y as int) matches Some(op) && shows(
                node,
                op,
                x as int,
                y as int,
            ),
            None => operator_at(*plan, x as int, y as int) is None,
        },
{
    match find(plan, x, y) {
        Some(op) => {
            proof {
                operators_stay_inside(*plan, x as int, y as int);
                all_nodes_are_placed(
                    *plan,
                    |op: ExecutionPlan| op.displayable(),
                    x as int,
                    y as int,
                );
            }
            Some(
                RenderTreeNode {
                    name: owned(op.name()),
                    extra_text: details_for(op),
                    child_positions: positions_for(op, x, y),
                },
            )
        },
        None => None,
    }
}

impl RenderTree {
    /// The grid of a plan.
    pub fn create_tree(plan: &ExecutionPlan) -> (r: RenderTree)
        requires
            placeable(*plan),
            plan_visitor::all_nodes(*plan, |op: ExecutionPlan| op.displayable()),
        ensures
            draws(r, *plan),
    {
        let (width, height) = tree_size(plan);
        let mut nodes: Vec<Option<RenderTreeNode>> = Vec::new();
        let mut y: usize = 0;
        assert(0 == 0 * width);
        while y < height
            invariant
                placeable(*plan),
                plan_visitor::all_nodes(*plan, |op: ExecutionPlan| op.displayable()),
                width == tree_width(*plan),
                height == tree_height(*plan),
                y <= height,
                nodes@.len() == y * width,
                forall|px: int, py: int|
                    #![trigger operator_at(*plan, px, py)]
                    0 <= px < width && 0 <= py < y ==> placed(
                        nodes@[py * width + px],
                        *plan,
                        px,
                        py,
                    ),
            decreases height - y,
        {
            let mut x: usize = 0;
            while x < width
                invariant
                    placeable(*plan),
                    plan_visitor::all_nodes(*plan, |op: ExecutionPlan| op.displayable()),
                    width == tree_width(*plan),
                    height == tree_height(*plan),
                    y < height,
                    x <= width,
                    nodes@.len() == y * width + x,
                    forall|px: int, py: int|
                        #![trigger operator_at(*plan, px, py)]
                        0 <= px < width && 0 <= py < y ==> placed(
                            nodes@[py * width + px],
                            *plan,
                            px,
                            py,
                        ),
                    forall|px: int|
                        #![trigger operator_at(*plan, px, y as int)]
                        0 <= px < x ==> placed(nodes@[y * width + px], *plan, px, y as int),
                decreases width - x,
            {
                let ghost before = nodes@;
                nodes.push(box_at(plan, x, y));
                proof {
                    assert forall|px: int, py: int|
                        #![trigger operator_at(*plan, px, py)]
                        0 <= px < width && 0 <= py < y implies placed(
                        nodes@[py * width + px],
                        *plan,
                        px,
                        py,
                    ) by {
                        index_in_earlier_row(px, py, width as int, y as int);
                        assert(nodes@[py * width + px] == before[py * width + px]);
                    }
                    assert forall|px: int|
                        #![trigger operator_at(*plan, px, y as int)]
                        0 <= px < x + 1 implies placed(
                        nodes@[y * width + px],
                        *plan,
                        px,
                        y as int,
                    ) by {
                        assert(0 <= y * width) by (nonlinear_arith);
                        if px < x {
                            assert(nodes@[y * width + px] == before[y * width + px]);
                        }
                    }
                }
                x += 1;
            }
            assert((y + 1) * width == y * width + width) by (nonlinear_arith);
            y += 1;
        }
        assert(height * width == width * height) by (nonlinear_arith);
        let root = RenderTree { nodes, width, height };
        proof {
            assert forall|x: int, y: int|
                0 <= x < root.width && 0 <= y < root.height implies match #[trigger] root.node_at(
                x,
                y,
            ) {
                Some(node) => operator_at(*plan, x, y) matches Some(op) && shows(node, op, x, y),
                None => operator_at(*plan, x, y) is None,
            } by {
                assert(placed(nodes@[y * width + x], *plan, x, y)) by {
                    let here = operator_at(*plan, x, y);
                }
            }
        }
        root
    }
}

/// Whether a place of the grid shows what stands there.
pub open spec fn placed(
    node: Option<RenderTreeNode>,
    plan: ExecutionPlan,
    x: int,
    y: int,
) -> bool {
    match node {
        Some(shown) => operator_at(plan, x, y) matches Some(op) && shows(shown, op, x, y),
        None => operator_at(plan, x, y) is None,
    }
}

proof fn index_in_earlier_row(x: int, y: int, width: int, rows: int)
    requires
        0 <= x < width,
        0 <= y < rows,
    ensures
        0 <= y * width + x < rows * width,
{
    assert(0 <= y * width + x < rows * width) by (nonlinear_arith)
        requires
            0 <= x < width,
            0 <= y < rows,
    ;
}

/// Whether every operator of a plan can be drawn as a box.
pub open spec fn drawable(plan: ExecutionPlan) -> bool {
    plan_visitor::all_nodes(
        plan,
        |op: ExecutionPlan| tree_layers::box_renderable(op.spec_name(), operator_details(op)),
    )
}

/// The plan drawn as a tree of boxes, no wider than the given number of
/// characters (or as wide as it is, for zero).
pub fn render_plan(plan: &ExecutionPlan, maximum_render_width: usize) -> (r: String)
    requires
        placeable(*plan),
        plan_visitor::all_nodes(*plan, |op: ExecutionPlan| op.displayable()),
        drawable(*plan),
    ensures
        exists|root: RenderTree| #[trigger]
            draws(root, *plan) && r@ == tree_layers::tree_text(&root, maximum_render_width as int),
{
    let root = RenderTree::create_tree(plan);
    proof {
        assert forall|x: int, y: int|
            (#[trigger] root.node_at(x, y)) is Some implies tree_layers::node_renderable(
            root.node_at(x, y)->0,
        ) by {
            all_nodes_are_placed(
                *plan,
                |op: ExecutionPlan|
                    tree_layers::box_renderable(op.spec_name(), operator_details(op)),
                x,
                y,
            );
        }
    }
    let visitor = TreeRenderVisitor { maximum_render_width };
    visitor.visit(&root)
}

} // verus!
