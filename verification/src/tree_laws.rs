//! What a drawn tree shows: how texts are trimmed, broken and fitted into boxes,
//! how details are ordered, and where boxes and lines stand.
use vstd::prelude::*;
use crate::order_laws::{code_points, precedes};
use crate::plan::ExecutionPlan;
use crate::tree_render::RenderTree;
use crate::{order_laws, render_plan, text, text_laws, tree_layers, tree_render, wrap};

verus! {

/// Among the ASCII characters the white ones are the space and the control
/// characters from the tab to the carriage return.
pub proof fn white_characters_are_spaces_and_breaks(c: char)
    requires
        (c as int) < 128,
    ensures
        tree_render::white(c) <==> c as int == 32 || 9 <= c as int <= 13,
{
}

/// A trimmed text is what is left between white space: nothing but white space is
/// taken away, and no white space is left at an end.
pub proof fn trimming_takes_the_white_ends_away(s: Seq<char>) -> (ends: (int, int))
    ensures
        0 <= ends.0 <= ends.1 <= s.len(),
        tree_render::trimmed(s) == s.subrange(ends.0, ends.1),
        forall|i: int| 0 <= i < ends.0 ==> tree_render::white(#[trigger] s[i]),
        forall|i: int| ends.1 <= i < s.len() ==> tree_render::white(#[trigger] s[i]),
        ends.0 < ends.1 ==> !tree_render::white(s[ends.0]) && !tree_render::white(s[ends.1 - 1]),
{
    let from = start_of(s);
    let rest = s.skip(from);
    let to = end_of(rest);
    assert(s.subrange(from, from + to) =~= rest.take(to));
    assert forall|i: int| from + to <= i < s.len() implies tree_render::white(#[trigger] s[i]) by {
        assert(rest[i - from] == s[i]);
    }
    if 0 < to {
        assert(rest[0] == s[from]);
        assert(rest[to - 1] == s[from + to - 1]);
    }
    (from, from + to)
}

proof fn start_of(s: Seq<char>) -> (from: int)
    ensures
        0 <= from <= s.len(),
        tree_render::trimmed_start(s) == s.skip(from),
        forall|i: int| 0 <= i < from ==> tree_render::white(#[trigger] s[i]),
        from < s.len() ==> !tree_render::white(s[from]),
    decreases s.len(),
{
    if s.len() > 0 && tree_render::white(s[0]) {
        let rest = s.drop_first();
        let k = start_of(rest);
        assert(rest.skip(k) =~= s.skip(k + 1));
        assert forall|i: int| 0 <= i < k + 1 implies tree_render::white(#[trigger] s[i]) by {
            if i > 0 {
                assert(rest[i - 1] == s[i]);
            }
        }
        if k < rest.len() {
            assert(rest[k] == s[k + 1]);
        }
        k + 1
    } else {
        assert(s.skip(0) =~= s);
        0
    }
}

proof fn end_of(s: Seq<char>) -> (to: int)
    ensures
        0 <= to <= s.len(),
        tree_render::trimmed_end(s) == s.take(to),
        forall|i: int| to <= i < s.len() ==> tree_render::white(#[trigger] s[i]),
        0 < to ==> !tree_render::white(s[to - 1]),
    decreases s.len(),
{
    if s.len() > 0 && tree_render::white(s.last()) {
        let rest = s.drop_last();
        let k = end_of(rest);
        assert(rest.take(k) =~= s.take(k));
        assert forall|i: int| k <= i < s.len() implies tree_render::white(#[trigger] s[i]) by {
            if i < rest.len() {
                assert(rest[i] == s[i]);
            }
        }
        if 0 < k {
            assert(rest[k - 1] == s[k - 1]);
        }
        k
    } else {
        assert(s.take(s.len() as int) =~= s);
        s.len() as int
    }
}

/// The lines of a text are what stands between its line breaks: with a line break
/// between every two of them they are the text again, and no line has one.
pub proof fn lines_are_what_stands_between_line_breaks(s: Seq<char>)
    ensures
        tree_render::lines_of(s).len() > 0,
        text::join(tree_render::lines_of(s), seq!['\n']) == s,
        forall|i: int, j: int|
            0 <= i < tree_render::lines_of(s).len() && 0 <= j < tree_render::lines_of(s)[i].len()
                ==> #[trigger] tree_render::lines_of(s)[i][j] != '\n',
    decreases s.len(),
{
    let lines = tree_render::lines_of(s);
    let apart = seq!['\n'];
    if s.len() == 0 {
        assert(lines.len() == 1 && lines[0] =~= s);
    } else {
        let before = tree_render::lines_of(s.drop_last());
        lines_are_what_stands_between_line_breaks(s.drop_last());
        if s.last() == '\n' {
            let none = Seq::<char>::empty();
            assert(lines == before.push(none));
            assert(lines =~= before + seq![none]);
            text_laws::a_list_is_its_halves_with_the_separator_between(before, seq![none], apart);
            text_laws::a_list_is_its_halves_with_the_separator_between(seq![none], before, apart);
            assert(text::join(lines, apart) =~= s);
        } else {
            let first = before.drop_last();
            let line = before.last().push(s.last());
            assert(lines == first.push(line));
            text_laws::a_list_is_its_halves_with_the_separator_between(
                first,
                seq![before.last()],
                apart,
            );
            text_laws::a_list_is_its_halves_with_the_separator_between(first, seq![line], apart);
            text_laws::a_list_is_its_halves_with_the_separator_between(
                seq![before.last()],
                first,
                apart,
            );
            text_laws::a_list_is_its_halves_with_the_separator_between(seq![line], first, apart);
            assert(before =~= first + seq![before.last()]);
            assert(lines =~= first + seq![line]);
            if first.len() == 0 {
                assert(first + seq![before.last()] =~= seq![before.last()]);
                assert(first + seq![line] =~= seq![line]);
            }
            assert(seq![line][0] == line && seq![before.last()][0] == before.last());
            assert(text::join(seq![line], apart) == text::join(seq![before.last()], apart).push(
                s.last(),
            ));
            assert(text::join(lines, apart) =~= text::join(before, apart).push(s.last()));
            assert(text::join(lines, apart) =~= s);
        }
        assert forall|i: int, j: int|
            0 <= i < lines.len() && 0 <= j < lines[i].len() implies #[trigger] lines[i][j]
            != '\n' by {
            if i < before.len() && j < before[i].len() {
                assert(before[i][j] != '\n');
            }
        }
    }
}

/// Details are shown in the order of their keys, all of them, and those with one
/// key in the order in which they came.
pub proof fn details_are_ordered_by_key(details: Seq<(Seq<char>, Seq<char>)>)
    ensures
        tree_render::sorted_details(details).to_multiset() == details.to_multiset(),
        forall|i: int, j: int|
            0 <= i < j < tree_render::sorted_details(details).len() ==> !precedes(
                code_points(#[trigger] tree_render::sorted_details(details)[j].0),
                code_points(#[trigger] tree_render::sorted_details(details)[i].0),
            ),
        forall|key: Seq<char>| #[trigger]
            with_key(tree_render::sorted_details(details), key) == with_key(details, key),
    decreases details.len(),
{
    if details.len() > 0 {
        let before = tree_render::sorted_details(details.drop_last());
        let detail = details.last();
        details_are_ordered_by_key(details.drop_last());
        assert forall|i: int, j: int| 0 <= i < j < before.len() implies !text::text_less(
            (#[trigger] before[j]).0,
            (#[trigger] before[i]).0,
        ) by {
            order_laws::texts_are_ordered_as_in_a_dictionary(before[j].0, before[i].0);
        }
        let all = tree_render::detail_inserted(before, detail);
        let at = inserted_at(before, detail);
        assert(details.drop_last().push(detail) =~= details);
        vstd::seq_lib::to_multiset_build(details.drop_last(), detail);
        vstd::seq_lib::to_multiset_insert(before, at, detail);
        assert(all.to_multiset() =~= details.to_multiset());
        assert forall|i: int, j: int| 0 <= i < j < all.len() implies !precedes(
            code_points((#[trigger] all[j]).0),
            code_points((#[trigger] all[i]).0),
        ) by {
            order_laws::texts_are_ordered_as_in_a_dictionary(all[j].0, all[i].0);
            if j < at {
                assert(all[i] == before[i] && all[j] == before[j]);
            } else if j == at {
                assert(all[i] == before[i]);
            } else if i == at {
                assert(all[j] == before[j - 1]);
                not_both_less(detail.0, before[j - 1].0);
            } else {
                let a = if i < at {
                    i
                } else {
                    i - 1
                };
                assert(all[i] == before[a] && all[j] == before[j - 1]);
            }
        }
        assert forall|key: Seq<char>| #[trigger] with_key(all, key) == with_key(details, key) by {
            let p = |d: (Seq<char>, Seq<char>)| d.0 == key;
            assert(with_key(before, key) == with_key(details.drop_last(), key));
            reveal(Seq::filter);
            let later = before.skip(at);
            assert(all =~= before.take(at).push(detail) + later);
            assert(before =~= before.take(at) + later);
            Seq::filter_distributes_over_add(before.take(at).push(detail), later, p);
            Seq::filter_distributes_over_add(before.take(at), later, p);
            assert(before.take(at).push(detail).drop_last() =~= before.take(at));
            if detail.0 == key {
                assert forall|i: int| 0 <= i < later.len() implies !p(#[trigger] later[i]) by {
                    assert(later[i] == before[at + i]);
                    not_both_less(key, key);
                }
                nothing_kept(later, p);
                assert(with_key(all, key) =~= with_key(details, key));
            } else {
                assert(with_key(all, key) =~= with_key(details, key));
            }
        }
    } else {
        assert(tree_render::sorted_details(details) =~= details);
    }
}

/// The details with a key, in order.
pub open spec fn with_key(details: Seq<(Seq<char>, Seq<char>)>, key: Seq<char>) -> Seq<
    (Seq<char>, Seq<char>),
> {
    details.filter(|d: (Seq<char>, Seq<char>)| d.0 == key)
}

proof fn nothing_kept<T>(s: Seq<T>, p: spec_fn(T) -> bool)
    requires
        forall|i: int| 0 <= i < s.len() ==> !p(#[trigger] s[i]),
    ensures
        s.filter(p).len() == 0,
    decreases s.len(),
{
    reveal(Seq::filter);
    if s.len() > 0 {
        assert forall|i: int| 0 <= i < s.drop_last().len() implies !p(
            #[trigger] s.drop_last()[i],
        ) by {
            assert(s.drop_last()[i] == s[i]);
        }
        nothing_kept(s.drop_last(), p);
        assert(!p(s[s.len() - 1]));
    }
}

proof fn not_both_less(a: Seq<char>, b: Seq<char>)
    ensures
        !(text::text_less(a, b) && text::text_less(b, a)),
    decreases a.len(),
{
    if a.len() > 0 && b.len() > 0 && a[0] == b[0] {
        not_both_less(a.drop_first(), b.drop_first());
    }
}

proof fn inserted_at(sorted: Seq<(Seq<char>, Seq<char>)>, detail: (Seq<char>, Seq<char>)) -> (at:
    int)
    requires
        forall|i: int, j: int|
            0 <= i < j < sorted.len() ==> !text::text_less(
                (#[trigger] sorted[j]).0,
                (#[trigger] sorted[i]).0,
            ),
    ensures
        0 <= at <= sorted.len(),
        tree_render::detail_inserted(sorted, detail) == sorted.insert(at, detail),
        forall|i: int| 0 <= i < at ==> !text::text_less(detail.0, (#[trigger] sorted[i]).0),
        forall|i: int| at <= i < sorted.len() ==> text::text_less(detail.0, (#[trigger] sorted[i]).0),
    decreases sorted.len(),
{
    if sorted.len() > 0 && text::text_less(detail.0, sorted.last().0) {
        let rest = sorted.drop_last();
        let k = inserted_at(rest, detail);
        assert(rest.insert(k, detail).push(sorted.last()) =~= sorted.insert(k, detail));
        assert forall|i: int| 0 <= i < k implies !text::text_less(
            detail.0,
            (#[trigger] sorted[i]).0,
        ) by {
            assert(rest[i] == sorted[i]);
        }
        assert forall|i: int| k <= i < sorted.len() implies text::text_less(
            detail.0,
            (#[trigger] sorted[i]).0,
        ) by {
            if i < rest.len() {
                assert(rest[i] == sorted[i]);
            }
        }
        k
    } else {
        let n = sorted.len() as int;
        assert(sorted.insert(n, detail) =~= sorted.push(detail));
        if n > 0 {
            assert forall|i: int| 0 <= i < n implies !text::text_less(
                detail.0,
                (#[trigger] sorted[i]).0,
            ) by {
                if i < n - 1 && text::text_less(detail.0, sorted[i].0) {
                    assert(!text::text_less(sorted[n - 1].0, sorted[i].0));
                    less_goes_on(detail.0, sorted[i].0, sorted[n - 1].0);
                }
            }
        }
        n
    }
}

proof fn less_goes_on(a: Seq<char>, b: Seq<char>, c: Seq<char>)
    requires
        text::text_less(a, b),
        !text::text_less(c, b),
    ensures
        text::text_less(a, c),
    decreases a.len(),
{
    if a.len() > 0 && b.len() > 0 && c.len() > 0 && a[0] == b[0] && b[0] == c[0] {
        less_goes_on(a.drop_first(), b.drop_first(), c.drop_first());
    }
}

/// A line may be broken before every character but the ASCII letters, the digits
/// and the underscore.
pub proof fn words_are_not_broken(c: char)
    ensures
        wrap::breakable(c) <==> !(48 <= c as int <= 57 || 65 <= c as int <= 90 || c as int == 95
            || 97 <= c as int <= 122),
{
}

/// Whether a text is broken well from `start` on, where the line that starts there
/// has room up to `limit`. What fits is not broken. Elsewhere the line ends before
/// the last character within its room that it may be broken before, or at its
/// limit where that would leave fewer than eight characters; what it leaves of its
/// room, the next line lacks.
pub open spec fn well_broken(s: Seq<char>, start: int, limit: int, cuts: Seq<int>) -> bool
    decreases cuts.len(),
{
    if cuts.len() == 0 {
        s.len() <= limit
    } else {
        let cut = cuts[0];
        &&& limit < s.len()
        &&& start + 8 <= cut <= limit
        &&& cut < limit ==> wrap::breakable(s[cut])
        &&& forall|j: int|
            start + 8 <= j < limit && (cut < j || cut == limit) ==> !wrap::breakable(
                #[trigger] s[j],
            )
        &&& well_broken(s, cut, cut + wrap::TEXT_WIDTH - (limit - cut), cuts.drop_first())
    }
}

/// A text is broken into lines that are no wider than a box, and each is broken
/// where it best can be.
pub proof fn lines_are_broken_where_they_can_be(s: Seq<char>)
    ensures
        well_broken(s, 0, 27, wrap::cuts(s)),
        s.len() <= 27 ==> wrap::cuts(s).len() == 0,
{
    broken_from(s, 0, 0, 0, 0);
}

proof fn broken_from(s: Seq<char>, pos: int, start: int, width: int, candidate: int)
    requires
        0 <= start <= pos <= s.len(),
        start <= candidate <= pos,
        pos - start <= width <= wrap::TEXT_WIDTH,
        width - (pos - start) <= wrap::TEXT_WIDTH - 8,
        candidate == start || wrap::breakable(s[candidate]),
        candidate == pos ==> candidate == start,
        forall|j: int| candidate < j < pos ==> !wrap::breakable(#[trigger] s[j]),
    ensures
        well_broken(
            s,
            start,
            pos + wrap::TEXT_WIDTH - width,
            wrap::cuts_from(s, pos, start, width, candidate),
        ),
    decreases s.len() - start, s.len() - pos,
{
    if pos < s.len() {
        if width + 1 > wrap::TEXT_WIDTH {
            let at = if start + 8 > candidate {
                pos
            } else {
                candidate
            };
            broken_from(s, at + 1, at, pos - at + 1, at);
            let rest = wrap::cuts_from(s, at + 1, at, pos - at + 1, at);
            let all = wrap::cuts_from(s, pos, start, width, candidate);
            assert(all == seq![at] + rest);
            assert(all.drop_first() =~= rest);
        } else {
            broken_from(
                s,
                pos + 1,
                start,
                width + 1,
                if wrap::breakable(s[pos]) {
                    pos
                } else {
                    candidate
                },
            );
        }
    }
}

/// The lines of a broken ASCII text are what stands between the places where it
/// is broken.
pub proof fn lines_stand_between_the_cuts(s: Seq<char>)
    requires
        vstd::utf8::is_ascii_chars(s),
    ensures
        ({
            let lines = wrap::wrapped_lines(s);
            let cuts = wrap::cuts(s);
            &&& s.len() > 0 ==> lines.len() == cuts.len() + 1
            &&& s.len() == 0 ==> lines.len() == 0
            &&& forall|i: int|
                0 <= i < lines.len() ==> #[trigger] lines[i] == s.subrange(
                    if i == 0 {
                        0
                    } else {
                        cuts[i - 1]
                    },
                    if i == cuts.len() {
                        s.len() as int
                    } else {
                        cuts[i]
                    },
                )
        }),
{
    lines_are_broken_where_they_can_be(s);
    pieces_between(s, 0, 27, wrap::cuts(s));
}

proof fn pieces_between(s: Seq<char>, start: int, limit: int, cuts: Seq<int>)
    requires
        vstd::utf8::is_ascii_chars(s),
        0 <= start <= s.len(),
        start == 0 || start < s.len(),
        well_broken(s, start, limit, cuts),
    ensures
        ({
            let lines = wrap::pieces(s, start, cuts);
            &&& s.len() > start ==> lines.len() == cuts.len() + 1
            &&& s.len() == start ==> lines.len() == 0
            &&& forall|i: int|
                0 <= i < lines.len() ==> #[trigger] lines[i] == s.subrange(
                    if i == 0 {
                        start
                    } else {
                        cuts[i - 1]
                    },
                    if i == cuts.len() {
                        s.len() as int
                    } else {
                        cuts[i]
                    },
                )
        }),
    decreases cuts.len(),
{
    wrap::ascii_slices(s, start, s.len() as int);
    if cuts.len() > 0 {
        let cut = cuts[0];
        let rest = cuts.drop_first();
        wrap::ascii_slices(s, start, cut);
        pieces_between(s, cut, cut + wrap::TEXT_WIDTH - (limit - cut), rest);
        let lines = wrap::pieces(s, start, cuts);
        let later = wrap::pieces(s, cut, rest);
        assert(lines == seq![wrap::byte_slice(s, start, cut)] + later);
        assert forall|i: int| 0 <= i < lines.len() implies #[trigger] lines[i] == s.subrange(
            if i == 0 {
                start
            } else {
                cuts[i - 1]
            },
            if i == cuts.len() {
                s.len() as int
            } else {
                cuts[i]
            },
        ) by {
            if i > 0 {
                assert(lines[i] == later[i - 1]);
                assert(i - 1 > 0 ==> rest[i - 2] == cuts[i - 1]);
                assert(i < cuts.len() ==> rest[i - 1] == cuts[i]);
            }
        }
    }
}

/// Copies of one character.
pub open spec fn copies(c: char, n: nat) -> Seq<char> {
    Seq::new(n, |i: int| c)
}

proof fn repeated(c: char, n: nat)
    ensures
        text::repeat(seq![c], n) == copies(c, n),
    decreases n,
{
    if n > 0 {
        repeated(c, (n - 1) as nat);
        assert(copies(c, (n - 1) as nat) + seq![c] =~= copies(c, n));
    } else {
        assert(text::repeat(seq![c], n) =~= copies(c, n));
    }
}

/// A text that fits stands in the middle of its box, with an odd space before it;
/// of a longer ASCII text the beginning is shown, and three dots.
pub proof fn texts_stand_in_the_middle(s: Seq<char>, width: int)
    requires
        width >= 3,
    ensures
        s.len() <= width ==> exists|before: nat, after: nat|
            wrap::fitted(s, width) == #[trigger] copies(' ', before) + s + #[trigger] copies(
                ' ',
                after,
            ) && before + s.len() + after == width && after <= before <= after + 1,
        s.len() > width && vstd::utf8::is_ascii_chars(s) ==> wrap::fitted(s, width).len() == width
            && wrap::fitted(s, width).take(width - 3) == s.take(width - 3) && wrap::fitted(
            s,
            width,
        ).skip(width - 3) == copies('.', 3),
{
    reveal_strlit(" ");
    reveal_strlit("...");
    assert(" "@ =~= seq![' ']);
    if s.len() <= width {
        let spaces = width - s.len();
        let after = (spaces / 2) as nat;
        let before = (spaces - spaces / 2) as nat;
        repeated(' ', before);
        repeated(' ', after);
        assert(wrap::fitted(s, width) == copies(' ', before) + s + copies(' ', after));
    } else if vstd::utf8::is_ascii_chars(s) {
        wrap::ascii_slices(s, 0, width - 3);
        let shown = wrap::fitted(s, width);
        assert(shown.take(width - 3) =~= s.take(width - 3));
        assert(shown.skip(width - 3) =~= copies('.', 3));
    }
}

/// A detail is shown as its key, and behind it its trimmed value: on the same line
/// where both are short, and elsewhere on the lines below.
pub proof fn a_detail_shows_its_key_and_its_value(key: Seq<char>, value: Seq<char>)
    ensures
        ({
            let v = tree_render::trimmed(value);
            let room = vstd::utf8::encode_utf8(key).len() + vstd::utf8::encode_utf8(v).len();
            let shown = tree_render::detail_text(key, value);
            &&& v.len() == 0 ==> shown == key
            &&& v.len() > 0 && room < 20 && !v.contains('\n') ==> shown == key + seq![':', ' '] + v
            &&& v.len() > 0 && (room >= 20 || v.contains('\n')) ==> shown == key + seq![
                ':',
                '\n',
            ] + v
        }),
{
    reveal_strlit(": ");
    reveal_strlit(":\n");
    assert(": "@ =~= seq![':', ' ']);
    assert(":\n"@ =~= seq![':', '\n']);
}

/// Of too many lines of a detail, as many from the beginning as from the end are
/// shown, with dots between them; of too many lines of all details, the first.
pub proof fn the_middle_of_a_long_detail_is_left_out(
    key: Seq<char>,
    value: Seq<char>,
    lines: Seq<Seq<char>>,
    max_lines: int,
)
    requires
        max_lines >= 0,
    ensures
        ({
            let all = tree_render::lines_of(tree_render::detail_text(key, value));
            let shown = tree_render::detail_lines(key, value, max_lines);
            let half = max_lines / 2;
            &&& all.len() <= max_lines ==> shown == all
            &&& all.len() > max_lines ==> shown.len() == 2 * half + 1 && shown[half] == copies(
                '.',
                3,
            ) && shown.take(half) == all.take(half) && shown.skip(half + 1) == all.skip(
                all.len() - half,
            )
        }),
        lines.len() <= max_lines ==> tree_render::cut_off(lines, max_lines) == lines,
        lines.len() > max_lines ==> tree_render::cut_off(lines, max_lines) == lines.take(
            max_lines,
        ).push(copies('.', 3)),
{
    reveal_strlit("...");
    assert("..."@ =~= copies('.', 3));
    let all = tree_render::lines_of(tree_render::detail_text(key, value));
    let shown = tree_render::detail_lines(key, value, max_lines);
    let half = max_lines / 2;
    if all.len() > max_lines {
        assert(shown.take(half) =~= all.take(half));
        assert(shown.skip(half + 1) =~= all.skip(all.len() - half));
    }
}

/// Lines are broken one by one.
pub proof fn lines_are_broken_one_by_one(lines: Seq<Seq<char>>)
    ensures
        tree_render::all_wrapped(lines) == lines.map_values(
            |line: Seq<char>| wrap::wrapped_lines(line),
        ).flatten(),
    decreases lines.len(),
{
    let f = |line: Seq<char>| wrap::wrapped_lines(line);
    let parts = lines.map_values(f);
    if lines.len() > 0 {
        lines_are_broken_one_by_one(lines.drop_last());
        assert(lines.drop_last().map_values(f) =~= parts.drop_last());
        parts.drop_last().lemma_flatten_push(parts.last());
        assert(parts.drop_last().push(parts.last()) =~= parts);
    } else {
        assert(tree_render::all_wrapped(lines) =~= parts.flatten());
    }
}

/// A detail is shown behind those before it, after an empty line unless both are
/// on one line each; whatever exceeds the limit gives way to dots.
pub proof fn details_are_shown_one_after_the_other(
    lines: Seq<Seq<char>>,
    details: Seq<(Seq<char>, Seq<char>)>,
    detail: (Seq<char>, Seq<char>),
    max_lines: int,
)
    requires
        max_lines >= 0,
    ensures
        ({
            let before = tree_render::shown_details(lines, details, max_lines);
            let after = tree_render::shown_details(lines, details.push(detail), max_lines);
            let new = tree_render::all_wrapped(
                tree_render::detail_lines(detail.0, detail.1, max_lines),
            );
            let apart = details.len() > 0 && !(tree_render::inlined(detail.0, detail.1)
                && tree_render::inlined(details.last().0, details.last().1));
            let full = before + (if apart {
                seq![seq![]]
            } else {
                seq![]
            }) + new;
            &&& full.len() <= max_lines ==> after == full
            &&& full.len() > max_lines ==> after == full.take(max_lines).push(copies('.', 3))
        }),
        tree_render::shown_details(lines, seq![], max_lines) == lines,
{
    reveal_strlit("...");
    assert("..."@ =~= copies('.', 3));
    let all = details.push(detail);
    assert(all.drop_last() =~= details);
    if details.len() > 0 {
        assert(all[all.len() - 2] == details.last());
    }
    let before = tree_render::shown_details(lines, details, max_lines);
    let none = Seq::<char>::empty();
    assert(before.push(none) =~= before + seq![none]);
    assert(before =~= before + Seq::<Seq<char>>::empty());
}

/// Details stand below a line of twenty dashes; where there are none, there is no
/// such line.
pub proof fn details_stand_below_a_separator(
    lines: Seq<Seq<char>>,
    details: Seq<(Seq<char>, Seq<char>)>,
    max_lines: int,
)
    ensures
        details.len() == 0 ==> tree_render::extra_lines(lines, details, max_lines) == lines,
        details.len() > 0 ==> tree_render::extra_lines(lines, details, max_lines)
            == tree_render::shown_details(
            lines.push(copies('-', 20)),
            tree_render::sorted_details(details),
            max_lines,
        ),
{
    reveal_strlit("-");
    assert("-"@ =~= seq!['-']);
    repeated('-', 20);
}

/// The top and the bottom of a box: corners at its ends and a line between them,
/// with a joint in the middle where it hangs from a box above, or one below hangs
/// from it.
pub proof fn a_box_is_closed(root: &RenderTree, x: int, y: int)
    requires
        root.node_at(x, y) is Some,
    ensures
        tree_layers::top_cell(root, x, y) == Seq::new(
            29,
            |i: int|
                if i == 0 {
                    '┌'
                } else if i == 28 {
                    '┐'
                } else if i == 14 && y != 0 {
                    '┴'
                } else {
                    '─'
                },
        ),
        tree_layers::bottom_cell(root, x, y) == Seq::new(
            29,
            |i: int|
                if i == 0 {
                    '└'
                } else if i == 28 {
                    '┘'
                } else if i == 14 && root.node_at(x, y + 1) is Some {
                    '┬'
                } else {
                    '─'
                },
        ),
{
    reveal_strlit("┌");
    reveal_strlit("┐");
    reveal_strlit("└");
    reveal_strlit("┘");
    reveal_strlit("┴");
    reveal_strlit("┬");
    reveal_strlit("─");
    assert("─"@ =~= seq!['─']);
    repeated('─', 13);
}

/// A box shows on each line, between its sides, what stands there: its name on the
/// first, and then its details. The right side has a joint on the line where
/// further children are connected.
pub proof fn a_box_shows_its_lines(root: &RenderTree, x: int, y: int, line: int)
    requires
        root.node_at(x, y) is Some,
        0 <= line,
    ensures
        ({
            let node = root.node_at(x, y)->0;
            let details = tree_layers::extra_at(root, x, y);
            let shown = tree_layers::content_cell(root, x, y, line);
            let joint = line == tree_layers::halfway(root, y) && node.child_positions@.len() > 1;
            shown == seq!['│'] + wrap::fitted(
                if line == 0 {
                    node.name@
                } else if line <= details.len() {
                    details[line - 1]
                } else {
                    seq![]
                },
                27,
            ) + seq![
                if joint {
                    '├'
                } else {
                    '│'
                },
            ]
        }),
{
    reveal_strlit("│");
    reveal_strlit("├");
    assert("│"@ =~= seq!['│']);
    assert("├"@ =~= seq!['├']);
}

/// Where there is no box but one below, a line leads down to it, from the joint of
/// its parent on: it bends where it is the last one, and branches where there are
/// more. Where a line passes by, it goes straight on, and elsewhere is space.
pub proof fn lines_lead_to_the_children(root: &RenderTree, x: int, y: int, line: int)
    requires
        root.node_at(x, y) is None,
    ensures
        ({
            let below = root.node_at(x, y + 1) is Some;
            let on = tree_layers::leads_right(root, x, y, 0);
            let filled = root.adjacent(x, y) || on;
            let half = tree_layers::halfway(root, y);
            let shown = tree_layers::content_cell(root, x, y, line);
            let bottom = tree_layers::bottom_cell(root, x, y);
            &&& line < half ==> shown == copies(
                ' ',
                if root.adjacent(x, y) {
                    29
                } else {
                    0
                },
            )
            &&& line == half && below && on ==> shown == copies('─', 14) + seq!['┬'] + copies(
                '─',
                14,
            )
            &&& line == half && below && !on ==> shown == copies('─', 14) + seq!['┐'] + copies(
                ' ',
                if root.adjacent(x, y) {
                    14
                } else {
                    0
                },
            )
            &&& line == half && !below && on ==> shown == copies('─', 29)
            &&& line == half && !below && !on ==> shown == copies(
                ' ',
                if root.adjacent(x, y) {
                    29
                } else {
                    0
                },
            )
            &&& line > half ==> shown == bottom
            &&& below ==> bottom == copies(' ', 14) + seq!['│'] + copies(
                ' ',
                if filled {
                    14
                } else {
                    0
                },
            )
            &&& !below ==> bottom == copies(
                ' ',
                if filled {
                    29
                } else {
                    0
                },
            )
            &&& tree_layers::top_cell(root, x, y) == copies(
                ' ',
                if root.adjacent(x, y) {
                    29
                } else {
                    0
                },
            )
        }),
{
    reveal_strlit("│");
    reveal_strlit("┬");
    reveal_strlit("┐");
    reveal_strlit("─");
    reveal_strlit(" ");
    assert("─"@ =~= seq!['─']);
    assert(" "@ =~= seq![' ']);
    assert("│"@ =~= seq!['│']);
    repeated('─', 14);
    repeated('─', 29);
    repeated(' ', 14);
    repeated(' ', 29);
    let none = Seq::<char>::empty();
    assert(copies(' ', 0) =~= none);
    let down = copies(' ', 14) + seq!['│'];
    assert(down + copies(' ', 0) =~= down);
    let bend = copies('─', 14) + seq!['┐'];
    assert(bend + copies(' ', 0) =~= bend);
}

/// How many boxes stand below the places from `from` to `to` of a row.
pub open spec fn boxes_below(root: &RenderTree, from: int, to: int, y: int) -> nat {
    Seq::new((to - from + 1) as nat, |k: int| root.node_at(from + k, y + 1) is Some).filter(
        |b: bool| b,
    ).len()
}

/// Whether the box at `i` is the next one to the left of a place, or at it.
pub open spec fn next_to_the_left(root: &RenderTree, i: int, x: int, y: int) -> bool {
    &&& 0 <= i <= x
    &&& root.node_at(i, y) is Some
    &&& forall|k: int| i < k <= x ==> #[trigger] root.node_at(k, y) is None
}

/// A line leads on to the right past a place exactly where the next box to the
/// left has several children and not all of them stand between it and the place.
pub proof fn a_line_leads_on_to_the_children_left(root: &RenderTree, x: int, y: int)
    requires
        0 <= x,
    ensures
        tree_layers::leads_right(root, x, y, 0) <==> exists|i: int|
            #![trigger root.node_at(i, y)]
            next_to_the_left(root, i, x, y) && (root.node_at(i, y)->0).child_positions@.len() > 1
                && boxes_below(root, i, x, y) < (root.node_at(i, y)->0).child_positions@.len(),
{
    let none = Seq::new(0nat, |k: int| root.node_at(x + 1 + k, y + 1) is Some);
    reveal(Seq::filter);
    assert(none.len() == 0);
    assert(boxes_below(root, x + 1, x, y) == 0);
    leads_on(root, x, x, y);
}

proof fn leads_on(root: &RenderTree, at: int, x: int, y: int)
    requires
        -1 <= at <= x,
        forall|k: int| at < k <= x ==> #[trigger] root.node_at(k, y) is None,
    ensures
        tree_layers::leads_right(root, at, y, boxes_below(root, at + 1, x, y) as int) <==> exists|
            i: int,
        |
            #![trigger root.node_at(i, y)]
            next_to_the_left(root, i, x, y) && (root.node_at(i, y)->0).child_positions@.len() > 1
                && boxes_below(root, i, x, y) < (root.node_at(i, y)->0).child_positions@.len(),
    decreases at + 1,
{
    if at >= 0 {
        let below = Seq::new(
            (x - at + 1) as nat,
            |k: int| root.node_at(at + k, y + 1) is Some,
        );
        let later = Seq::new(
            (x - (at + 1) + 1) as nat,
            |k: int| root.node_at(at + 1 + k, y + 1) is Some,
        );
        let b = root.node_at(at, y + 1) is Some;
        assert(below =~= seq![b] + later);
        Seq::filter_distributes_over_add(seq![b], later, |b: bool| b);
        assert(seq![b].filter(|b: bool| b).len() == if b {
            1nat
        } else {
            0nat
        }) by {
            reveal(Seq::filter);
            assert(seq![b].drop_last() =~= Seq::<bool>::empty());
            reveal_with_fuel(Seq::filter, 2);
        }
        assert(boxes_below(root, at, x, y) == boxes_below(root, at + 1, x, y) + if b {
            1nat
        } else {
            0nat
        });
        assert(root.has(at, y + 1) == b);
        if root.node_at(at, y) is None {
            leads_on(root, at - 1, x, y);
        } else {
            assert(next_to_the_left(root, at, x, y));
            assert forall|i: int|
                next_to_the_left(root, i, x, y) && (#[trigger] root.node_at(i, y)) is Some implies i
                == at by {
                assert(root.node_at(at, y) is Some);
            }
        }
    }
}

/// A row of boxes is as high as the box with the most lines of details, and
/// children are connected at half that height, rounded up.
pub proof fn a_row_is_as_high_as_its_highest_box(root: &RenderTree, y: int)
    requires
        root.width > 0,
    ensures
        ({
            let height = tree_layers::extra_height(root, y, root.width as int);
            &&& forall|x: int|
                0 <= x < root.width ==> (#[trigger] tree_layers::extra_at(root, x, y)).len()
                    <= height
            &&& exists|x: int|
                0 <= x < root.width && (#[trigger] tree_layers::extra_at(root, x, y)).len()
                    == height
            &&& height <= 2 * tree_layers::halfway(root, y) <= height + 1
        }),
{
    highest(root, y, root.width as int);
}

proof fn highest(root: &RenderTree, y: int, n: int)
    requires
        0 <= n,
    ensures
        forall|x: int|
            0 <= x < n ==> (#[trigger] tree_layers::extra_at(root, x, y)).len()
                <= tree_layers::extra_height(root, y, n),
        n > 0 ==> exists|x: int|
            0 <= x < n && (#[trigger] tree_layers::extra_at(root, x, y)).len()
                == tree_layers::extra_height(root, y, n),
        n == 0 ==> tree_layers::extra_height(root, y, n) == 0,
        0 <= tree_layers::extra_height(root, y, n),
    decreases n,
{
    if n > 0 {
        highest(root, y, n - 1);
        let here = tree_layers::extra_at(root, n - 1, y);
        assert(here.len() >= 0);
    }
}

/// A tree is drawn row by row from the top: the tops of the boxes, then their lines
/// one below the other, and then their bottoms, each from left to right and with a
/// line break at its end.
pub proof fn a_tree_is_drawn_row_by_row(root: &RenderTree, y: int, maximum_render_width: int)
    ensures
        tree_layers::tree_text(root, maximum_render_width) == Seq::new(
            root.height as nat,
            |y: int| tree_layers::row_text(root, y, maximum_render_width),
        ).flatten(),
        ({
            let columns = tree_layers::columns_shown(root.width as int, maximum_render_width);
            let more = tree_layers::columns_shown(root.width + 1, maximum_render_width);
            let height = tree_layers::extra_height(root, y, root.width as int) + 1;
            tree_layers::row_text(root, y, maximum_render_width) == Seq::new(
                columns as nat,
                |x: int| tree_layers::top_cell(root, x, y),
            ).flatten() + seq!['\n'] + Seq::new(
                height as nat,
                |line: int|
                    Seq::new(
                        columns as nat,
                        |x: int| tree_layers::content_cell(root, x, y, line),
                    ).flatten() + seq!['\n'],
            ).flatten() + Seq::new(
                more as nat,
                |x: int| tree_layers::bottom_cell(root, x, y),
            ).flatten() + seq!['\n']
        }),
{
    reveal_strlit("\n");
    assert("\n"@ =~= seq!['\n']);
    let columns = tree_layers::columns_shown(root.width as int, maximum_render_width);
    let more = tree_layers::columns_shown(root.width + 1, maximum_render_width);
    let height = tree_layers::extra_height(root, y, root.width as int) + 1;
    text_laws::texts_follow_each_other(
        Seq::new(
            root.height as nat,
            |y: int| tree_layers::row_text(root, y, maximum_render_width),
        ),
    );
    text_laws::texts_follow_each_other(
        Seq::new(columns as nat, |x: int| tree_layers::top_cell(root, x, y)),
    );
    text_laws::texts_follow_each_other(
        Seq::new(more as nat, |x: int| tree_layers::bottom_cell(root, x, y)),
    );
    let lines = Seq::new(
        height as nat,
        |line: int| tree_layers::content_line(root, y, line, columns),
    );
    let shown = Seq::new(
        height as nat,
        |line: int|
            Seq::new(
                columns as nat,
                |x: int| tree_layers::content_cell(root, x, y, line),
            ).flatten() + seq!['\n'],
    );
    assert forall|line: int| 0 <= line < height implies #[trigger] lines[line] == shown[line] by {
        text_laws::texts_follow_each_other(
            Seq::new(columns as nat, |x: int| tree_layers::content_cell(root, x, y, line)),
        );
    }
    assert(lines =~= shown);
    text_laws::texts_follow_each_other(lines);
    assert(tree_layers::row_text(root, y, maximum_render_width) =~= Seq::new(
        columns as nat,
        |x: int| tree_layers::top_cell(root, x, y),
    ).flatten() + seq!['\n'] + shown.flatten() + Seq::new(
        more as nat,
        |x: int| tree_layers::bottom_cell(root, x, y),
    ).flatten() + seq!['\n']);
}

/// The columns that the first `n` children of an operator take together.
pub open spec fn columns_before(plan: ExecutionPlan, n: nat) -> nat
    decreases n,
{
    if n == 0 {
        0
    } else {
        columns_before(plan, (n - 1) as nat) + render_plan::tree_width(
            *plan.spec_children()[n - 1],
        )
    }
}

proof fn columns_split(plan: ExecutionPlan, n: nat)
    requires
        n <= plan.spec_children().len(),
    ensures
        render_plan::width_from(plan, 0) == columns_before(plan, n) + render_plan::width_from(
            plan,
            n,
        ),
    decreases n,
{
    if n > 0 {
        columns_split(plan, (n - 1) as nat);
    }
}

/// A plan is as wide as its children side by side, or one column where it has
/// none, and one row higher than the highest of them.
pub proof fn a_plan_has_room_for_its_children(plan: ExecutionPlan)
    ensures
        ({
            let children = plan.spec_children();
            &&& children.len() == 0 ==> render_plan::tree_width(plan) == 1
                && render_plan::tree_height(plan) == 1
            &&& children.len() > 0 ==> render_plan::tree_width(plan) == columns_before(
                plan,
                children.len(),
            )
            &&& forall|i: int|
                0 <= i < children.len() ==> render_plan::tree_height(*#[trigger] children[i])
                    < render_plan::tree_height(plan)
            &&& children.len() > 0 ==> exists|i: int|
                0 <= i < children.len() && render_plan::tree_height(*#[trigger] children[i]) + 1
                    == render_plan::tree_height(plan)
        }),
{
    columns_split(plan, plan.spec_children().len());
    highest_child(plan, 0);
}

proof fn highest_child(plan: ExecutionPlan, n: nat)
    requires
        n <= plan.spec_children().len(),
    ensures
        forall|i: int|
            n <= i < plan.spec_children().len() ==> render_plan::tree_height(
                *#[trigger] plan.spec_children()[i],
            ) <= render_plan::height_from(plan, n),
        n < plan.spec_children().len() ==> exists|i: int|
            n <= i < plan.spec_children().len() && render_plan::tree_height(
                *#[trigger] plan.spec_children()[i],
            ) == render_plan::height_from(plan, n),
    decreases plan.spec_children().len() - n,
{
    if n < plan.spec_children().len() {
        highest_child(plan, n + 1);
        let here = *plan.spec_children()[n as int];
        assert(render_plan::tree_height(here) == 1 + render_plan::height_from(here, 0));
        if n + 1 == plan.spec_children().len() {
            assert(render_plan::height_from(plan, n + 1) == 0);
        }
        if render_plan::height_from(plan, n) != render_plan::tree_height(here) {
            let i = choose|i: int|
                n + 1 <= i < plan.spec_children().len() && render_plan::tree_height(
                    *#[trigger] plan.spec_children()[i],
                ) == render_plan::height_from(plan, n + 1);
            assert(render_plan::tree_height(*plan.spec_children()[i]) == render_plan::height_from(
                plan,
                n,
            ));
        }
    }
}

/// A plan stands at its origin, alone in its row, and each child with all below it
/// stands one row lower, to the right of the columns of the children before it;
/// that is where the operator says that the child stands.
pub proof fn children_stand_side_by_side_below(plan: ExecutionPlan, i: int, x: int, y: int)
    requires
        0 <= i < plan.spec_children().len(),
        0 <= x,
        0 <= y,
    ensures
        render_plan::operator_at(plan, x, 0) == if x == 0 {
            Some(plan)
        } else {
            None
        },
        x < render_plan::tree_width(*plan.spec_children()[i]) ==> render_plan::operator_at(
            plan,
            columns_before(plan, i as nat) + x,
            y + 1,
        ) == render_plan::operator_at(*plan.spec_children()[i], x, y),
        render_plan::operator_at(
            plan,
            columns_before(plan, plan.spec_children().len()) + x,
            y + 1,
        ) is None,
        render_plan::child_places(plan, x, y)[i] == (x + columns_before(plan, i as nat), y + 1),
        render_plan::child_places(plan, x, y).len() == plan.spec_children().len(),
{
    below_from(plan, 0, i as nat, columns_before(plan, i as nat) + x, y);
    below_from(
        plan,
        0,
        plan.spec_children().len(),
        columns_before(plan, plan.spec_children().len()) + x,
        y,
    );
    columns_split(plan, i as nat);
}

proof fn columns_grow(plan: ExecutionPlan, m: nat, n: nat)
    requires
        m <= n,
    ensures
        columns_before(plan, m) <= columns_before(plan, n),
    decreases n - m,
{
    if m < n {
        columns_grow(plan, m, (n - 1) as nat);
    }
}

proof fn below_from(plan: ExecutionPlan, k: nat, i: nat, x: int, y: int)
    requires
        k <= i <= plan.spec_children().len(),
        columns_before(plan, i) <= x,
    ensures
        render_plan::below_at(plan, k, x - columns_before(plan, k), y) == render_plan::below_at(
            plan,
            i,
            x - columns_before(plan, i),
            y,
        ),
    decreases i - k,
{
    if k < i {
        columns_grow(plan, k + 1, i);
        below_from(plan, k + 1, i, x, y);
    }
}

/// A line gives as a detail what stands before its first equals sign and what
/// stands behind it.
pub proof fn a_line_is_parted_at_its_first_equals_sign(key: Seq<char>, value: Seq<char>)
    requires
        forall|i: int| 0 <= i < key.len() ==> #[trigger] key[i] != '=',
    ensures
        render_plan::detail_of(key + seq!['='] + value) == (key, value),
        render_plan::detail_of(key) == (key, Seq::<char>::empty()),
    decreases key.len(),
{
    let line = key + seq!['='] + value;
    first_equals_sign(key, value);
    assert(line.take(key.len() as int) =~= key);
    assert(line.skip(key.len() as int + 1) =~= value);
}

proof fn first_equals_sign(key: Seq<char>, value: Seq<char>)
    requires
        forall|i: int| 0 <= i < key.len() ==> #[trigger] key[i] != '=',
    ensures
        render_plan::equals_at(key + seq!['='] + value) == Some(key.len() as int),
        render_plan::equals_at(key) is None,
    decreases key.len(),
{
    let line = key + seq!['='] + value;
    if key.len() > 0 {
        let rest = key.drop_first();
        assert forall|i: int| 0 <= i < rest.len() implies #[trigger] rest[i] != '=' by {
            assert(rest[i] == key[i + 1]);
        }
        first_equals_sign(rest, value);
        assert(line.drop_first() =~= rest + seq!['='] + value);
        assert(line[0] == key[0]);
    } else {
        assert(line[0] == '=');
    }
}

/// The last value that lines give for a key.
pub open spec fn last_value(lines: Seq<Seq<char>>, key: Seq<char>) -> Option<Seq<char>>
    decreases lines.len(),
{
    if lines.len() == 0 {
        None
    } else if render_plan::detail_of(lines.last()).0 == key {
        Some(render_plan::detail_of(lines.last()).1)
    } else {
        last_value(lines.drop_last(), key)
    }
}

/// Lines give one detail for each key, with the value that came last.
pub proof fn each_key_is_shown_once_with_its_last_value(lines: Seq<Seq<char>>)
    ensures
        ({
            let details = render_plan::line_details(lines);
            &&& forall|i: int, j: int|
                0 <= i < j < details.len() ==> (#[trigger] details[i]).0 != (
                #[trigger] details[j]).0
            &&& forall|i: int|
                0 <= i < details.len() ==> last_value(lines, (#[trigger] details[i]).0) == Some(
                    details[i].1,
                )
            &&& forall|key: Seq<char>|
                (#[trigger] last_value(lines, key)) is Some ==> exists|i: int|
                    0 <= i < details.len() && (#[trigger] details[i]).0 == key
        }),
    decreases lines.len(),
{
    if lines.len() > 0 {
        let before = render_plan::line_details(lines.drop_last());
        let detail = render_plan::detail_of(lines.last());
        let details = render_plan::line_details(lines);
        each_key_is_shown_once_with_its_last_value(lines.drop_last());
        position_of_key(before, detail.0);
        let at = render_plan::detail_position(before, detail.0);
        assert forall|key: Seq<char>|
            (#[trigger] last_value(lines, key)) is Some implies exists|i: int|
            0 <= i < details.len() && (#[trigger] details[i]).0 == key by {
            if key == detail.0 {
                match at {
                    Some(i) => {
                        assert(details[i].0 == key);
                    },
                    None => {
                        assert(details[before.len() as int].0 == key);
                    },
                }
            } else {
                assert(last_value(lines.drop_last(), key) is Some);
                let i = choose|i: int| 0 <= i < before.len() && (#[trigger] before[i]).0 == key;
                assert(details[i].0 == key);
            }
        }
        assert forall|i: int| 0 <= i < details.len() implies last_value(
            lines,
            (#[trigger] details[i]).0,
        ) == Some(details[i].1) by {
            if details[i].0 != detail.0 {
                assert(details[i] == before[i]);
            } else {
                match at {
                    Some(k) => {
                        assert(i == k);
                    },
                    None => {
                        assert(i == before.len());
                    },
                }
            }
        }
    }
}

proof fn position_of_key(details: Seq<(Seq<char>, Seq<char>)>, key: Seq<char>)
    ensures
        match render_plan::detail_position(details, key) {
            Some(i) => 0 <= i < details.len() && details[i].0 == key,
            None => forall|i: int| 0 <= i < details.len() ==> (#[trigger] details[i]).0 != key,
        },
    decreases details.len(),
{
    if details.len() > 0 && details.last().0 != key {
        position_of_key(details.drop_last(), key);
        if render_plan::detail_position(details.drop_last(), key) is None {
            assert forall|i: int| 0 <= i < details.len() implies (#[trigger] details[i]).0
                != key by {
                if i < details.len() - 1 {
                    assert(details.drop_last()[i] == details[i]);
                }
            }
        }
    }
}

/// The lines shown of a text are all its lines, but for an empty last one.
pub proof fn nothing_behind_the_last_line_break_is_no_line(s: Seq<char>)
    ensures
        ({
            let lines = tree_render::lines_of(s);
            &&& s.len() > 0 && s.last() != '\n' ==> render_plan::shown_lines(s) == lines
            &&& s.len() == 0 || s.last() == '\n' ==> render_plan::shown_lines(s)
                == lines.drop_last()
        }),
{
    lines_are_what_stands_between_line_breaks(s);
    if s.len() > 0 {
        lines_are_what_stands_between_line_breaks(s.drop_last());
    }
}

} // verus!
