//! Rendering a tree of operators as boxes.
use vstd::prelude::*;
use crate::text::{chars_of, is_text_less, owned, push_repeat, string_of};
use crate::wrap::{byte_length, split_string_buffer};
use crate::{text, wrap};

verus! {

/// How many lines of details a box shows.
pub const MAX_EXTRA_LINES: usize = 30;

/// A box of the tree: the name of an operator, its details as keys and values,
/// and where its children stand.
#[derive(Debug)]
pub struct RenderTreeNode {
    pub name: String,
    pub extra_text: Vec<(String, String)>,
    pub child_positions: Vec<(usize, usize)>,
}

/// Boxes on a grid, row by row.
#[derive(Debug)]
pub struct RenderTree {
    pub nodes: Vec<Option<RenderTreeNode>>,
    pub width: usize,
    pub height: usize,
}

/// Renders trees of boxes, no wider than `maximum_render_width` columns of text;
/// zero sets no limit.
#[derive(Clone, Copy, Debug, PartialEq, Eq, Structural)]
pub struct TreeRenderVisitor {
    pub maximum_render_width: usize,
}

/// Whether Unicode counts a character as white space.
pub open spec fn white(c: char) -> bool {
    ('\u{9}' <= c <= '\u{d}') || c == '\u{20}' || c == '\u{85}' || c == '\u{a0}' || c == '\u{1680}'
        || ('\u{2000}' <= c <= '\u{200a}') || c == '\u{2028}' || c == '\u{2029}' || c == '\u{202f}'
        || c == '\u{205f}' || c == '\u{3000}'
}

fn is_white(c: char) -> (r: bool)
    ensures
        r == white(c),
{
    ('\u{9}' <= c && c <= '\u{d}') || c == '\u{20}' || c == '\u{85}' || c == '\u{a0}' || c
        == '\u{1680}' || ('\u{2000}' <= c && c <= '\u{200a}') || c == '\u{2028}' || c == '\u{2029}'
        || c == '\u{202f}' || c == '\u{205f}' || c == '\u{3000}'
}

/// A text without leading white space.
pub open spec fn trimmed_start(s: Seq<char>) -> Seq<char>
    decreases s.len(),
{
    if s.len() > 0 && white(s[0]) {
        trimmed_start(s.drop_first())
    } else {
        s
    }
}

/// A text without trailing white space.
pub open spec fn trimmed_end(s: Seq<char>) -> Seq<char>
    decreases s.len(),
{
    if s.len() > 0 && white(s.last()) {
        trimmed_end(s.drop_last())
    } else {
        s
    }
}

/// A text without white space at its ends.
pub open spec fn trimmed(s: Seq<char>) -> Seq<char> {
    trimmed_end(trimmed_start(s))
}

/// A text without white space at its ends.
pub fn remove_padding(s: &str) -> (r: String)
    ensures
        r@ == trimmed(s@),
{
    let chars = chars_of(s);
    let mut from: usize = 0;
    assert(s@.skip(0) == s@);
    while from < chars.len() && is_white(chars[from])
        invariant
            chars@ == s@,
            from <= chars.len(),
            trimmed_start(s@) == trimmed_start(s@.skip(from as int)),
        decreases chars.len() - from,
    {
        assert(s@.skip(from as int).drop_first() == s@.skip(from + 1));
        from += 1;
    }
    assert(trimmed_start(s@) == s@.skip(from as int));
    let mut to: usize = chars.len();
    assert(s@.subrange(from as int, to as int) == s@.skip(from as int));
    while to > from && is_white(chars[to - 1])
        invariant
            chars@ == s@,
            from <= to <= chars.len(),
            trimmed(s@) == trimmed_end(s@.subrange(from as int, to as int)),
        decreases to - from,
    {
        assert(s@.subrange(from as int, to as int).drop_last() == s@.subrange(
            from as int,
            to - 1,
        ));
        to -= 1;
    }
    string_of(&chars, from, to)
}

/// The lines of a text.
pub open spec fn lines_of(s: Seq<char>) -> Seq<Seq<char>>
    decreases s.len(),
{
    if s.len() == 0 {
        seq![seq![]]
    } else {
        let before = lines_of(s.drop_last());
        if s.last() == '\n' {
            before.push(seq![])
        } else {
            before.drop_last().push(before.last().push(s.last()))
        }
    }
}

proof fn lines_of_nonempty(s: Seq<char>)
    ensures
        lines_of(s).len() > 0,
    decreases s.len(),
{
    if s.len() > 0 {
        lines_of_nonempty(s.drop_last());
    }
}

/// The lines of a text.
pub fn split_lines(s: &str) -> (r: Vec<String>)
    ensures
        text::views(r@) == lines_of(s@),
{
    let chars = chars_of(s);
    let mut done: Vec<String> = Vec::new();
    let mut current: String = String::new();
    let mut i: usize = 0;
    assert(text::views(done@).push(current@) == lines_of(s@.take(0)));
    while i < chars.len()
        invariant
            chars@ == s@,
            i <= chars.len(),
            text::views(done@).push(current@) == lines_of(s@.take(i as int)),
        decreases chars.len() - i,
    {
        let ghost before = lines_of(s@.take(i as int));
        let ghost earlier = done@;
        let ghost line = current@;
        assert(s@.take(i + 1).drop_last() == s@.take(i as int));
        assert(before.drop_last() == text::views(done@));
        assert(before.last() == current@);
        if chars[i] == '\n' {
            done.push(current);
            current = String::new();
            assert(text::views(done@) == text::views(earlier).push(line));
        } else {
            current.push(chars[i]);
        }
        i += 1;
        assert(text::views(done@).push(current@) == lines_of(s@.take(i as int)));
    }
    assert(s@.take(i as int) == s@);
    let ghost earlier = done@;
    let ghost line = current@;
    done.push(current);
    assert(text::views(done@) == text::views(earlier).push(line));
    done
}

/// Whether a text has more than one line.
pub open spec fn multiline(s: Seq<char>) -> bool {
    s.contains('\n')
}

fn is_multiline(s: &str) -> (r: bool)
    ensures
        r == multiline(s@),
{
    let chars = chars_of(s);
    let mut i: usize = 0;
    while i < chars.len()
        invariant
            chars@ == s@,
            i <= chars.len(),
            forall|j: int| 0 <= j < i ==> s@[j] != '\n',
        decreases chars.len() - i,
    {
        if chars[i] == '\n' {
            assert(s@[i as int] == '\n');
            return true;
        }
        i += 1;
    }
    false
}

/// Whether a detail is shown on one line, as key and value: both must fit, and
/// the value must have one line.
pub open spec fn inlined(key: Seq<char>, value: Seq<char>) -> bool {
    trimmed(value).len() > 0 && !multiline(trimmed(value)) && wrap::byte_len(key) + wrap::byte_len(
        trimmed(value),
    ) + 2 < 22
}

/// The text of a detail: the key alone, key and value on one line, or the value
/// below the key.
pub open spec fn detail_text(key: Seq<char>, value: Seq<char>) -> Seq<char> {
    if trimmed(value).len() == 0 {
        key
    } else if inlined(key, value) {
        key + ": "@ + trimmed(value)
    } else {
        key + ":\n"@ + trimmed(value)
    }
}

/// The lines of a detail; from more than `max_lines` the middle is left out.
pub open spec fn detail_lines(key: Seq<char>, value: Seq<char>, max_lines: int) -> Seq<Seq<char>> {
    let lines = lines_of(detail_text(key, value));
    let half = max_lines / 2;
    if lines.len() > max_lines {
        lines.take(half).push("..."@) + lines.skip(lines.len() - half)
    } else {
        lines
    }
}

/// Lines broken to the width of the box, one after the other.
pub open spec fn all_wrapped(lines: Seq<Seq<char>>) -> Seq<Seq<char>>
    decreases lines.len(),
{
    if lines.len() == 0 {
        seq![]
    } else {
        all_wrapped(lines.drop_last()) + wrap::wrapped_lines(lines.last())
    }
}

/// Whether every line can be broken to the width of the box.
pub open spec fn all_wrappable(lines: Seq<Seq<char>>) -> bool {
    forall|i: int| 0 <= i < lines.len() ==> wrap::cuts_at_boundaries(#[trigger] lines[i])
}

/// Lines cut off after `max_lines`, with dots in place of what follows.
pub open spec fn cut_off(lines: Seq<Seq<char>>, max_lines: int) -> Seq<Seq<char>> {
    if lines.len() > max_lines {
        lines.take(max_lines).push("..."@)
    } else {
        lines
    }
}

/// Details shown after `lines`, in order. An empty line stands between two
/// details unless both are shown on one line.
pub open spec fn shown_details(
    lines: Seq<Seq<char>>,
    details: Seq<(Seq<char>, Seq<char>)>,
    max_lines: int,
) -> Seq<Seq<char>>
    decreases details.len(),
{
    if details.len() == 0 {
        lines
    } else {
        let (key, value) = details.last();
        let before = shown_details(lines, details.drop_last(), max_lines);
        let padded = if details.len() > 1 && !(inlined(key, value) && inlined(
            details[details.len() - 2].0,
            details[details.len() - 2].1,
        )) {
            before.push(seq![])
        } else {
            before
        };
        cut_off(padded + all_wrapped(detail_lines(key, value, max_lines)), max_lines)
    }
}

/// The texts of a list of details.
pub open spec fn details_of(details: Seq<(String, String)>) -> Seq<(Seq<char>, Seq<char>)> {
    Seq::new(details.len(), |i: int| (details[i].0@, details[i].1@))
}

/// `sorted` with one more detail, before the first whose key is not less.
pub open spec fn detail_inserted(
    sorted: Seq<(Seq<char>, Seq<char>)>,
    detail: (Seq<char>, Seq<char>),
) -> Seq<(Seq<char>, Seq<char>)>
    decreases sorted.len(),
{
    if sorted.len() > 0 && text::text_less(detail.0, sorted.last().0) {
        detail_inserted(sorted.drop_last(), detail).push(sorted.last())
    } else {
        sorted.push(detail)
    }
}

/// Details in the order of their keys.
pub open spec fn sorted_details(details: Seq<(Seq<char>, Seq<char>)>) -> Seq<
    (Seq<char>, Seq<char>),
>
    decreases details.len(),
{
    if details.len() == 0 {
        seq![]
    } else {
        detail_inserted(sorted_details(details.drop_last()), details.last())
    }
}

/// The line between the name and the details.
pub open spec fn separator_text() -> Seq<char> {
    text::repeat("-"@, 20)
}

/// The lines that show some details: a separator, and then the details in the
/// order of their keys. No details, no lines.
pub open spec fn extra_lines(
    lines: Seq<Seq<char>>,
    details: Seq<(Seq<char>, Seq<char>)>,
    max_lines: int,
) -> Seq<Seq<char>> {
    if details.len() == 0 {
        lines
    } else {
        shown_details(lines.push(separator_text()), sorted_details(details), max_lines)
    }
}

/// Whether every detail can be broken to the width of the box.
pub open spec fn details_wrappable(
    details: Seq<(Seq<char>, Seq<char>)>,
    max_lines: int,
) -> bool {
    forall|i: int|
        0 <= i < details.len() ==> all_wrappable(
            detail_lines((#[trigger] details[i]).0, details[i].1, max_lines),
        )
}

fn push_wrapped(result: &mut Vec<String>, lines: &Vec<String>, from: usize, to: usize)
    requires
        from <= to <= lines@.len(),
        forall|i: int| from <= i < to ==> wrap::cuts_at_boundaries((#[trigger] lines@[i])@),
    ensures
        text::views(final(result)@) == text::views(old(result)@) + all_wrapped(
            text::views(lines@).subrange(from as int, to as int),
        ),
{
    let ghost all = text::views(lines@);
    let mut i: usize = from;
    assert(all.subrange(from as int, from as int) == Seq::<Seq<char>>::empty());
    while i < to
        invariant
            from <= i <= to <= lines@.len(),
            all == text::views(lines@),
            forall|i: int| from <= i < to ==> wrap::cuts_at_boundaries((#[trigger] lines@[i])@),
            text::views(result@) == text::views(old(result)@) + all_wrapped(
                all.subrange(from as int, i as int),
            ),
        decreases to - i,
    {
        let ghost done = all.subrange(from as int, i as int);
        let ghost more = all.subrange(from as int, i + 1);
        assert(more.drop_last() == done);
        assert(more.last() == lines@[i as int]@);
        split_string_buffer(lines[i].as_str(), result);
        i += 1;
        assert(text::views(result@) == text::views(old(result)@) + all_wrapped(more));
    }
}

proof fn all_wrapped_concat(a: Seq<Seq<char>>, b: Seq<Seq<char>>)
    ensures
        all_wrapped(a + b) == all_wrapped(a) + all_wrapped(b),
    decreases b.len(),
{
    if b.len() == 0 {
        assert(a + b == a);
    } else {
        assert((a + b).drop_last() == a + b.drop_last());
        all_wrapped_concat(a, b.drop_last());
    }
}

proof fn dots_wrap()
    ensures
        wrap::cuts_at_boundaries("..."@),
        wrap::wrapped_lines("..."@) == seq!["..."@],
{
    reveal_strlit("...");
    assert(vstd::utf8::is_ascii_chars("..."@));
    wrap::ascii_text_wraps("..."@);
    reveal_with_fuel(wrap::cuts_from, 5);
    assert(wrap::cuts("..."@) == Seq::<int>::empty());
    wrap::ascii_slices("..."@, 0, 3);
    assert("..."@.subrange(0, 3) == "..."@);
}

/// Appends the lines of a detail, broken to the width of the box.
fn push_detail(result: &mut Vec<String>, key: &String, value: &String, max_lines: usize) -> (r: bool)
    requires
        all_wrappable(detail_lines(key@, value@, max_lines as int)),
    ensures
        r == inlined(key@, value@),
        text::views(final(result)@) == text::views(old(result)@) + all_wrapped(
            detail_lines(key@, value@, max_lines as int),
        ),
{
    let trimmed_value: String = remove_padding(value.as_str());
    let is_inlined: bool = !trimmed_value.as_str().is_empty() && !is_multiline(
        trimmed_value.as_str(),
    ) && byte_length(key.as_str()) as u128 + byte_length(trimmed_value.as_str()) as u128 + 2 < 22;
    let mut shown: String = key.clone();
    if !trimmed_value.as_str().is_empty() {
        if is_inlined {
            shown.append(": ");
        } else {
            shown.append(":\n");
        }
        shown.append(trimmed_value.as_str());
    }
    assert(shown@ == detail_text(key@, value@));
    let splits: Vec<String> = split_lines(shown.as_str());
    let ghost lines = lines_of(shown@);
    let ghost kept = detail_lines(key@, value@, max_lines as int);
    assert(lines.len() == splits@.len());
    if splits.len() > max_lines {
        let half: usize = max_lines / 2;
        let tail: usize = splits.len() - half;
        let ghost before = text::views(result@);
        proof {
            assert(kept == lines.take(half as int).push("..."@) + lines.skip(tail as int));
            assert forall|i: int| 0 <= i < half implies wrap::cuts_at_boundaries(
                (#[trigger] splits@[i])@,
            ) by {
                assert(kept[i] == lines[i]);
            }
            assert forall|i: int| tail <= i < splits@.len() implies wrap::cuts_at_boundaries(
                (#[trigger] splits@[i])@,
            ) by {
                assert(kept[half + 1 + (i - tail)] == lines[i]);
            }
            dots_wrap();
        }
        push_wrapped(result, &splits, 0, half);
        split_string_buffer("...", result);
        push_wrapped(result, &splits, tail, splits.len());
        proof {
            assert(lines.subrange(0, half as int) == lines.take(half as int));
            assert(lines.subrange(tail as int, lines.len() as int) == lines.skip(tail as int));
            let head = lines.take(half as int).push("..."@);
            assert(head.drop_last() == lines.take(half as int));
            assert(all_wrapped(head) == all_wrapped(lines.take(half as int))
                + wrap::wrapped_lines("..."@));
            all_wrapped_concat(head, lines.skip(tail as int));
            assert(text::views(result@) == before + all_wrapped(kept));
        }
    } else {
        proof {
            assert forall|i: int| 0 <= i < splits@.len() implies wrap::cuts_at_boundaries(
                (#[trigger] splits@[i])@,
            ) by {
                assert(kept[i] == lines[i]);
            }
            assert(lines.subrange(0, lines.len() as int) == lines);
        }
        push_wrapped(result, &splits, 0, splits.len());
    }
    is_inlined
}

/// The positions of the details in the order of their keys.
fn sort_details(details: &Vec<(String, String)>) -> (r: Vec<usize>)
    ensures
        forall|i: int| 0 <= i < r@.len() ==> (#[trigger] r@[i]) < details@.len(),
        r@.len() == details@.len(),
        Seq::new(r@.len(), |i: int| details_of(details@)[r@[i] as int]) == sorted_details(
            details_of(details@),
        ),
{
    let ghost all = details_of(details@);
    let mut order: Vec<usize> = Vec::new();
    let mut i: usize = 0;
    assert(Seq::new(order@.len(), |j: int| all[order@[j] as int]) == sorted_details(all.take(0)));
    while i < details.len()
        invariant
            all == details_of(details@),
            i <= details.len(),
            order@.len() == i,
            forall|j: int| 0 <= j < order@.len() ==> (#[trigger] order@[j]) < i,
            Seq::new(order@.len(), |j: int| all[order@[j] as int]) == sorted_details(
                all.take(i as int),
            ),
        decreases details.len() - i,
    {
        assert(all.take(i + 1).drop_last() == all.take(i as int));
        assert(all.take(i + 1).last() == all[i as int]);
        insert_detail(details, &mut order, i);
        i += 1;
    }
    assert(all.take(i as int) == all);
    order
}

fn insert_detail(details: &Vec<(String, String)>, order: &mut Vec<usize>, new: usize)
    requires
        new < details@.len(),
        forall|j: int| 0 <= j < old(order)@.len() ==> (#[trigger] old(order)@[j]) < new,
    ensures
        final(order)@.len() == old(order)@.len() + 1,
        forall|j: int| 0 <= j < final(order)@.len() ==> (#[trigger] final(order)@[j]) <= new,
        Seq::new(final(order)@.len(), |j: int| details_of(details@)[final(order)@[j] as int])
            == detail_inserted(
            Seq::new(old(order)@.len(), |j: int| details_of(details@)[old(order)@[j] as int]),
            details_of(details@)[new as int],
        ),
{
    let ghost all = details_of(details@);
    let ghost sorted = Seq::new(order@.len(), |j: int| all[order@[j] as int]);
    let ghost here = all[new as int];
    let mut n: usize = order.len();
    assert(sorted.take(n as int) == sorted);
    assert(detail_inserted(sorted, here) == detail_inserted(sorted.take(n as int), here)
        + sorted.skip(n as int));
    while n > 0 && is_text_less(details[new].0.as_str(), details[order[n - 1]].0.as_str())
        invariant
            n <= order.len(),
            *order == *old(order),
            new < details@.len(),
            forall|j: int| 0 <= j < order@.len() ==> (#[trigger] order@[j]) < new,
            all == details_of(details@),
            sorted == Seq::new(order@.len(), |j: int| all[order@[j] as int]),
            here == all[new as int],
            detail_inserted(sorted, here) == detail_inserted(sorted.take(n as int), here)
                + sorted.skip(n as int),
        decreases n,
    {
        assert(sorted.take(n as int).last() == sorted[n - 1]);
        assert(sorted.take(n as int).drop_last() == sorted.take(n - 1));
        n -= 1;
        assert(detail_inserted(sorted, here) == detail_inserted(sorted.take(n as int), here)
            + sorted.skip(n as int));
    }
    assert(n > 0 ==> sorted.take(n as int).last() == sorted[n - 1]);
    assert(detail_inserted(sorted.take(n as int), here) == sorted.take(n as int).push(here));
    order.insert(n, new);
    assert(Seq::new(order@.len(), |j: int| all[order@[j] as int]) == sorted.take(n as int).push(here)
        + sorted.skip(n as int));
}

impl TreeRenderVisitor {
    /// Appends the lines that show some details.
    pub fn split_up_extra_info(
        extra_info: &Vec<(String, String)>,
        result: &mut Vec<String>,
        max_lines: usize,
    )
        requires
            details_wrappable(details_of(extra_info@), max_lines as int),
        ensures
            text::views(final(result)@) == extra_lines(
                text::views(old(result)@),
                details_of(extra_info@),
                max_lines as int,
            ),
    {
        if extra_info.is_empty() {
            return;
        }
        let ghost all = details_of(extra_info@);
        let ghost begun = text::views(result@).push(separator_text());
        let ghost unchanged = result@;
        let mut separator: String = String::new();
        push_repeat(&mut separator, "-", 20);
        result.push(separator);
        assert(text::views(result@) == begun);
        let order: Vec<usize> = sort_details(extra_info);
        let ghost sorted = sorted_details(all);
        let mut was_inlined: bool = false;
        let mut i: usize = 0;
        assert(sorted.take(0) == Seq::<(Seq<char>, Seq<char>)>::empty());
        while i < order.len()
            invariant
                details_wrappable(all, max_lines as int),
                all == details_of(extra_info@),
                forall|j: int| 0 <= j < order@.len() ==> (#[trigger] order@[j]) < extra_info@.len(),
                sorted == Seq::new(order@.len(), |j: int| all[order@[j] as int]),
                i <= order.len(),
                i > 0 ==> was_inlined == inlined(sorted[i - 1].0, sorted[i - 1].1),
                text::views(result@) == shown_details(
                    begun,
                    sorted.take(i as int),
                    max_lines as int,
                ),
            decreases order.len() - i,
        {
            let at: usize = order[i];
            let ghost detail = all[at as int];
            let ghost before = text::views(result@);
            assert(sorted[i as int] == detail);
            assert(sorted.take(i + 1).drop_last() == sorted.take(i as int));
            assert(sorted.take(i + 1).last() == detail);
            let entry = &extra_info[at];
            let mut lines: Vec<String> = Vec::new();
            assert(all_wrappable(detail_lines(detail.0, detail.1, max_lines as int)));
            let is_inlined: bool = push_detail(&mut lines, &entry.0, &entry.1, max_lines);
            let ghost fresh = all_wrapped(detail_lines(detail.0, detail.1, max_lines as int));
            assert(text::views(lines@) == fresh);
            if i > 0 && !(is_inlined && was_inlined) {
                let ghost earlier = result@;
                result.push(String::new());
                assert(text::views(result@) == text::views(earlier).push(Seq::<char>::empty()));
            }
            let ghost padded = text::views(result@);
            let ghost padded_lines = result@;
            let ghost fresh_lines = lines@;
            result.append(&mut lines);
            assert(result@ == padded_lines + fresh_lines);
            assert(text::views(result@) == padded + fresh);
            if result.len() > max_lines {
                let ghost long = result@;
                result.truncate(max_lines);
                assert(text::views(result@) == text::views(long).take(max_lines as int));
                let ghost short = result@;
                result.push(owned("..."));
                assert(text::views(result@) == text::views(short).push("..."@));
            }
            assert(text::views(result@) == cut_off(padded + fresh, max_lines as int));
            was_inlined = is_inlined;
            i += 1;
            assert(text::views(result@) == shown_details(
                begun,
                sorted.take(i as int),
                max_lines as int,
            ));
        }
        assert(sorted.take(i as int) == sorted);
    }
}

} // verus!
