//! Plans of ASCII text can always be drawn.
use vstd::prelude::*;
use crate::display::{DisplayAs, DisplayFormatType};
use crate::plan::ExecutionPlan;
use crate::tree_render::MAX_EXTRA_LINES;
use crate::wrap::TEXT_WIDTH;
use crate::{plan_visitor, render_plan, text, tree_layers, tree_render, wrap};

verus! {

/// Whether every text is ASCII.
pub open spec fn all_ascii(texts: Seq<Seq<char>>) -> bool {
    forall|i: int| 0 <= i < texts.len() ==> vstd::utf8::is_ascii_chars(#[trigger] texts[i])
}

/// Whether the keys and values of all details are ASCII.
pub open spec fn ascii_details(details: Seq<(Seq<char>, Seq<char>)>) -> bool {
    forall|i: int|
        0 <= i < details.len() ==> vstd::utf8::is_ascii_chars((#[trigger] details[i]).0)
            && vstd::utf8::is_ascii_chars(details[i].1)
}

proof fn lines_are_ascii(s: Seq<char>)
    requires
        vstd::utf8::is_ascii_chars(s),
    ensures
        all_ascii(tree_render::lines_of(s)),
        tree_render::lines_of(s).len() > 0,
    decreases s.len(),
{
    if s.len() > 0 {
        lines_are_ascii(s.drop_last());
        let before = tree_render::lines_of(s.drop_last());
        let lines = tree_render::lines_of(s);
        assert(vstd::utf8::is_ascii_chars(before[before.len() - 1]));
        assert forall|i: int| 0 <= i < lines.len() implies vstd::utf8::is_ascii_chars(
            #[trigger] lines[i],
        ) by {
            if i < before.len() - 1 || (i < before.len() && s.last() == '\n') {
                assert(lines[i] == before[i]);
            }
        }
    }
}

proof fn details_are_ascii(lines: Seq<Seq<char>>)
    requires
        all_ascii(lines),
    ensures
        ascii_details(render_plan::line_details(lines)),
    decreases lines.len(),
{
    if lines.len() > 0 {
        let earlier = lines.drop_last();
        assert forall|i: int| 0 <= i < earlier.len() implies vstd::utf8::is_ascii_chars(
            #[trigger] earlier[i],
        ) by {
            assert(earlier[i] == lines[i]);
        }
        details_are_ascii(earlier);
        let line = lines[lines.len() - 1];
        assert(vstd::utf8::is_ascii_chars(line));
        equals_in_range(line);
        let before = render_plan::line_details(earlier);
        let detail = render_plan::detail_of(line);
        position_in_range(before, detail.0);
        let after = render_plan::with_detail(before, detail);
        assert forall|i: int| 0 <= i < after.len() implies vstd::utf8::is_ascii_chars(
            (#[trigger] after[i]).0,
        ) && vstd::utf8::is_ascii_chars(after[i].1) by {
            if after[i] != detail {
                assert(after[i] == before[i]);
            }
        }
    }
}

proof fn equals_in_range(line: Seq<char>)
    ensures
        render_plan::equals_at(line) matches Some(i) ==> 0 <= i < line.len(),
    decreases line.len(),
{
    if line.len() > 0 {
        equals_in_range(line.drop_first());
    }
}

proof fn position_in_range(details: Seq<(Seq<char>, Seq<char>)>, key: Seq<char>)
    ensures
        render_plan::detail_position(details, key) matches Some(i) ==> 0 <= i < details.len(),
    decreases details.len(),
{
    if details.len() > 0 {
        position_in_range(details.drop_last(), key);
    }
}

proof fn trimmed_is_ascii(s: Seq<char>)
    requires
        vstd::utf8::is_ascii_chars(s),
    ensures
        vstd::utf8::is_ascii_chars(tree_render::trimmed_start(s)),
        vstd::utf8::is_ascii_chars(tree_render::trimmed_end(s)),
    decreases s.len(),
{
    if s.len() > 0 {
        trimmed_is_ascii(s.drop_first());
        trimmed_is_ascii(s.drop_last());
    }
}

/// The lines of an ASCII detail can be broken to the width of the box.
proof fn ascii_detail_wraps(key: Seq<char>, value: Seq<char>, max_lines: int)
    requires
        vstd::utf8::is_ascii_chars(key),
        vstd::utf8::is_ascii_chars(value),
        max_lines >= 0,
    ensures
        all_ascii(tree_render::detail_lines(key, value, max_lines)),
{
    trimmed_is_ascii(value);
    trimmed_is_ascii(tree_render::trimmed_start(value));
    reveal_strlit(": ");
    reveal_strlit(":\n");
    reveal_strlit("...");
    let all = tree_render::detail_text(key, value);
    assert(vstd::utf8::is_ascii_chars(all));
    lines_are_ascii(all);
    let lines = tree_render::lines_of(all);
    let shown = tree_render::detail_lines(key, value, max_lines);
    let half = max_lines / 2;
    assert forall|i: int| 0 <= i < shown.len() implies vstd::utf8::is_ascii_chars(
        #[trigger] shown[i],
    ) by {
        if lines.len() <= max_lines {
            assert(shown[i] == lines[i]);
        } else if i < half {
            assert(shown[i] == lines[i]);
        } else if i == half {
            assert(shown[i] == "..."@);
        } else {
            assert(shown[i] == lines[lines.len() - half + (i - half - 1)]);
        }
    }
}

/// Whether no text is wider than a box.
spec fn narrow(texts: Seq<Seq<char>>) -> bool {
    forall|i: int| 0 <= i < texts.len() ==> (#[trigger] texts[i]).len() <= TEXT_WIDTH
}

proof fn wrapped_is_narrow(lines: Seq<Seq<char>>)
    requires
        all_ascii(lines),
    ensures
        narrow(tree_render::all_wrapped(lines)),
        tree_render::all_wrappable(lines),
    decreases lines.len(),
{
    assert forall|i: int| 0 <= i < lines.len() implies wrap::cuts_at_boundaries(
        #[trigger] lines[i],
    ) by {
        wrap::ascii_text_wraps(lines[i]);
    }
    if lines.len() > 0 {
        let earlier = lines.drop_last();
        assert forall|i: int| 0 <= i < earlier.len() implies vstd::utf8::is_ascii_chars(
            #[trigger] earlier[i],
        ) by {
            assert(earlier[i] == lines[i]);
        }
        wrapped_is_narrow(earlier);
        let last = lines[lines.len() - 1];
        wrap::ascii_text_wraps(last);
        let before = tree_render::all_wrapped(earlier);
        let all = tree_render::all_wrapped(lines);
        assert forall|i: int| 0 <= i < all.len() implies (#[trigger] all[i]).len() <= TEXT_WIDTH by {
            if i < before.len() {
                assert(all[i] == before[i]);
            } else {
                assert(all[i] == wrap::wrapped_lines(last)[i - before.len()]);
            }
        }
    }
}

proof fn sorted_is_ascii(details: Seq<(Seq<char>, Seq<char>)>)
    requires
        ascii_details(details),
    ensures
        ascii_details(tree_render::sorted_details(details)),
    decreases details.len(),
{
    if details.len() > 0 {
        let earlier = details.drop_last();
        assert forall|i: int| 0 <= i < earlier.len() implies vstd::utf8::is_ascii_chars(
            (#[trigger] earlier[i]).0,
        ) && vstd::utf8::is_ascii_chars(earlier[i].1) by {
            assert(earlier[i] == details[i]);
        }
        sorted_is_ascii(earlier);
        let last = details[details.len() - 1];
        assert(vstd::utf8::is_ascii_chars(last.0) && vstd::utf8::is_ascii_chars(last.1));
        inserted_is_ascii(tree_render::sorted_details(earlier), last);
    }
}

proof fn inserted_is_ascii(
    sorted: Seq<(Seq<char>, Seq<char>)>,
    detail: (Seq<char>, Seq<char>),
)
    requires
        ascii_details(sorted),
        vstd::utf8::is_ascii_chars(detail.0),
        vstd::utf8::is_ascii_chars(detail.1),
    ensures
        ascii_details(tree_render::detail_inserted(sorted, detail)),
    decreases sorted.len(),
{
    if sorted.len() > 0 {
        let earlier = sorted.drop_last();
        assert forall|i: int| 0 <= i < earlier.len() implies vstd::utf8::is_ascii_chars(
            (#[trigger] earlier[i]).0,
        ) && vstd::utf8::is_ascii_chars(earlier[i].1) by {
            assert(earlier[i] == sorted[i]);
        }
        inserted_is_ascii(earlier, detail);
        assert(vstd::utf8::is_ascii_chars(sorted[sorted.len() - 1].0));
    }
}

proof fn shown_is_narrow(
    lines: Seq<Seq<char>>,
    details: Seq<(Seq<char>, Seq<char>)>,
    max_lines: int,
)
    requires
        narrow(lines),
        ascii_details(details),
        max_lines >= 0,
    ensures
        narrow(tree_render::shown_details(lines, details, max_lines)),
    decreases details.len(),
{
    if details.len() > 0 {
        let earlier = details.drop_last();
        assert forall|i: int| 0 <= i < earlier.len() implies vstd::utf8::is_ascii_chars(
            (#[trigger] earlier[i]).0,
        ) && vstd::utf8::is_ascii_chars(earlier[i].1) by {
            assert(earlier[i] == details[i]);
        }
        shown_is_narrow(lines, earlier, max_lines);
        let (key, value) = details[details.len() - 1];
        assert(vstd::utf8::is_ascii_chars(details[details.len() - 1].0));
        ascii_detail_wraps(key, value, max_lines);
        let fresh = tree_render::detail_lines(key, value, max_lines);
        wrapped_is_narrow(fresh);
        reveal_strlit("...");
        assert(narrow(tree_render::shown_details(lines, details, max_lines)));
    }
}

proof fn repeat_len(s: Seq<char>, n: nat)
    requires
        s.len() == 1,
    ensures
        text::repeat(s, n).len() == n,
    decreases n,
{
    if n > 0 {
        repeat_len(s, (n - 1) as nat);
    }
}

/// A box of an ASCII name and ASCII details can be rendered.
pub proof fn ascii_boxes_are_renderable(
    name: Seq<char>,
    details: Seq<(Seq<char>, Seq<char>)>,
)
    requires
        vstd::utf8::is_ascii_chars(name),
        ascii_details(details),
    ensures
        tree_layers::box_renderable(name, details),
{
    wrap::ascii_text_fits(name, TEXT_WIDTH as int);
    assert forall|i: int| 0 <= i < details.len() implies tree_render::all_wrappable(
        tree_render::detail_lines((#[trigger] details[i]).0, details[i].1, MAX_EXTRA_LINES as int),
    ) by {
        ascii_detail_wraps(details[i].0, details[i].1, MAX_EXTRA_LINES as int);
        wrapped_is_narrow(
            tree_render::detail_lines(details[i].0, details[i].1, MAX_EXTRA_LINES as int),
        );
    }
    if details.len() > 0 {
        let begun = Seq::<Seq<char>>::empty().push(tree_render::separator_text());
        reveal_strlit("-");
        repeat_len("-"@, 20);
        sorted_is_ascii(details);
        shown_is_narrow(begun, tree_render::sorted_details(details), MAX_EXTRA_LINES as int);
    }
}

/// Whether the name of an operator and what is drawn of it are ASCII.
pub open spec fn ascii_operator(op: ExecutionPlan) -> bool {
    vstd::utf8::is_ascii_chars(op.spec_name()) && vstd::utf8::is_ascii_chars(
        op.rendered(DisplayFormatType::TreeRender),
    )
}

proof fn ascii_operators_are_renderable(op: ExecutionPlan)
    requires
        ascii_operator(op),
    ensures
        tree_layers::box_renderable(op.spec_name(), render_plan::operator_details(op)),
{
    let all = op.rendered(DisplayFormatType::TreeRender);
    lines_are_ascii(all);
    let lines = render_plan::shown_lines(all);
    assert forall|i: int| 0 <= i < lines.len() implies vstd::utf8::is_ascii_chars(
        #[trigger] lines[i],
    ) by {
        assert(lines[i] == tree_render::lines_of(all)[i]);
    }
    details_are_ascii(lines);
    ascii_boxes_are_renderable(op.spec_name(), render_plan::operator_details(op));
}

/// A plan whose operators have ASCII names and texts can be drawn.
pub proof fn ascii_plans_are_drawable(plan: ExecutionPlan)
    requires
        plan_visitor::all_nodes(plan, |op: ExecutionPlan| ascii_operator(op)),
    ensures
        render_plan::drawable(plan),
    decreases plan, plan.spec_children().len() + 1,
{
    ascii_operators_are_renderable(plan);
    children_are_drawable(plan, 0);
}

proof fn children_are_drawable(plan: ExecutionPlan, i: nat)
    requires
        plan_visitor::all_nodes_from(plan, |op: ExecutionPlan| ascii_operator(op), i),
    ensures
        plan_visitor::all_nodes_from(
            plan,
            |op: ExecutionPlan|
                tree_layers::box_renderable(op.spec_name(), render_plan::operator_details(op)),
            i,
        ),
    decreases plan, plan.spec_children().len() - i,
{
    if i < plan.spec_children().len() {
        plan_visitor::child_is_smaller(plan, i as int);
        let child = *plan.spec_children()[i as int];
        ascii_plans_are_drawable(child);
        children_are_drawable(plan, i + 1);
    }
}

} // verus!
