//! Fitting text into the boxes of a rendered tree.
//!
//! Positions in a text are counted in characters and used as byte offsets: the
//! two agree on ASCII text, and elsewhere every cut must fall between two
//! characters.
use vstd::prelude::*;
use crate::text::{chars_of, push_repeat};
use crate::text;

verus! {

/// The width of a box.
pub const NODE_RENDER_WIDTH: usize = 29;

/// The width of the text inside a box.
pub const TEXT_WIDTH: usize = 27;

/// Whether a line may be broken before this character: anything but an ASCII
/// letter, an ASCII digit and the underscore.
pub open spec fn breakable(c: char) -> bool {
    !('0' <= c <= '9') && !('A' <= c <= 'Z') && !('a' <= c <= 'z') && c != '_'
}

/// Whether a line may be broken before this character.
pub fn can_split_on_this_char(c: char) -> (r: bool)
    ensures
        r == breakable(c),
{
    !('0' <= c && c <= '9') && !('A' <= c && c <= 'Z') && !('a' <= c && c <= 'z') && c != '_'
}

/// The text between two byte offsets.
pub open spec fn byte_slice(s: Seq<char>, from: int, to: int) -> Seq<char> {
    vstd::utf8::decode_utf8(vstd::utf8::encode_utf8(s).subrange(from, to))
}

/// The number of bytes of a text.
pub open spec fn byte_len(s: Seq<char>) -> int {
    vstd::utf8::encode_utf8(s).len() as int
}

/// Whether a byte offset falls between two characters.
pub open spec fn at_boundary(s: Seq<char>, offset: int) -> bool {
    vstd::utf8::is_char_boundary(vstd::utf8::encode_utf8(s), offset)
}

/// Where a text is broken into lines. The scan has reached `pos`; the current
/// line started at `start`, counts `width` characters so far, and may be broken
/// at `candidate`. A line that would exceed the box is broken at the candidate,
/// or here when that would leave fewer than eight characters.
pub open spec fn cuts_from(
    chars: Seq<char>,
    pos: int,
    start: int,
    width: int,
    candidate: int,
) -> Seq<int>
    decreases chars.len() - start, chars.len() - pos,
    when 0 <= start <= pos && start <= candidate <= pos && pos - start <= width <= TEXT_WIDTH
        && width - (pos - start) <= TEXT_WIDTH - 8
{
    if pos >= chars.len() {
        seq![]
    } else if width + 1 > TEXT_WIDTH {
        let at = if start + 8 > candidate {
            pos
        } else {
            candidate
        };
        seq![at] + cuts_from(
            chars,
            at + 1,
            at,
            pos - at + 1,
            at,
        )
    } else {
        cuts_from(
            chars,
            pos + 1,
            start,
            width + 1,
            if breakable(chars[pos]) {
                pos
            } else {
                candidate
            },
        )
    }
}

/// Where a text is broken into lines.
pub open spec fn cuts(chars: Seq<char>) -> Seq<int> {
    cuts_from(chars, 0, 0, 0, 0)
}

/// The lines of a text that is cut at the given offsets, from `start` on. What
/// follows the last cut is a line of its own unless it is empty.
pub open spec fn pieces(s: Seq<char>, start: int, at: Seq<int>) -> Seq<Seq<char>>
    decreases at.len(),
{
    if at.len() == 0 {
        if byte_len(s) > start {
            seq![byte_slice(s, start, byte_len(s))]
        } else {
            seq![]
        }
    } else {
        seq![byte_slice(s, start, at[0])] + pieces(s, at[0], at.drop_first())
    }
}

/// The lines into which a text is broken.
pub open spec fn wrapped_lines(s: Seq<char>) -> Seq<Seq<char>> {
    pieces(s, 0, cuts(s))
}

/// Whether every cut of a text falls between two characters.
pub open spec fn cuts_at_boundaries(s: Seq<char>) -> bool {
    forall|i: int| 0 <= i < cuts(s).len() ==> at_boundary(s, #[trigger] cuts(s)[i])
}

proof fn boundary_in_prefix(bytes: Seq<u8>, from: int, to: int)
    requires
        vstd::utf8::valid_utf8(bytes),
        vstd::utf8::is_char_boundary(bytes, from),
        vstd::utf8::is_char_boundary(bytes, to),
        0 <= from <= to <= bytes.len(),
    ensures
        vstd::utf8::is_char_boundary(bytes.subrange(0, to), from),
{
    let prefix = bytes.subrange(0, to);
    vstd::utf8::valid_utf8_split(bytes, to);
    vstd::utf8::is_char_boundary_start_end_of_seq(prefix);
    if 0 < from < to {
        vstd::utf8::is_char_boundary_iff_not_is_continuation_byte(bytes, from);
        vstd::utf8::is_char_boundary_iff_not_is_continuation_byte(prefix, from);
    }
}

proof fn boundary_in_range(bytes: Seq<u8>, offset: int)
    requires
        vstd::utf8::valid_utf8(bytes),
        vstd::utf8::is_char_boundary(bytes, offset),
    ensures
        0 <= offset <= bytes.len(),
{
}

/// The text between two byte offsets.
fn slice_bytes(source: &str, from: usize, to: usize) -> (r: String)
    requires
        from <= to,
        at_boundary(source@, from as int),
        at_boundary(source@, to as int),
    ensures
        r@ == byte_slice(source@, from as int, to as int),
{
    proof {
        vstd::utf8::encode_utf8_valid_utf8(source@);
        boundary_in_range(vstd::utf8::encode_utf8(source@), to as int);
        boundary_in_prefix(vstd::utf8::encode_utf8(source@), from as int, to as int);
    }
    let (head, _) = source.split_at(to);
    let (_, middle) = head.split_at(from);
    proof {
        vstd::utf8::encode_utf8_decode_utf8(middle@);
        assert(vstd::utf8::encode_utf8(middle@) == vstd::utf8::encode_utf8(source@).subrange(from as int, to as int));
    }
    middle.to_owned()
}

/// The number of bytes of a text.
pub fn byte_length(s: &str) -> (r: usize)
    ensures
        r == byte_len(s@),
{
    s.as_bytes().len()
}

/// Appends the lines into which a text is broken.
pub fn split_string_buffer(source: &str, result: &mut Vec<String>)
    requires
        cuts_at_boundaries(source@),
    ensures
        text::views(final(result)@) == text::views(old(result)@) + wrapped_lines(source@),
{
    let chars = chars_of(source);
    let ghost s = source@;
    let ghost before = text::views(result@);
    let mut pos: usize = 0;
    let mut start: usize = 0;
    let mut width: usize = 0;
    let mut candidate: usize = 0;
    let ghost mut done: int = 0;
    proof {
        vstd::utf8::encode_utf8_valid_utf8(s);
        vstd::utf8::is_char_boundary_start_end_of_seq(vstd::utf8::encode_utf8(s));
        assert(cuts(s).skip(0) == cuts(s));
    }
    while pos < chars.len()
        invariant
            chars@ == s,
            s == source@,
            cuts_at_boundaries(s),
            start <= candidate <= pos <= chars.len(),
            pos - start <= width <= TEXT_WIDTH,
            width - (pos - start) <= TEXT_WIDTH - 8,
            at_boundary(s, start as int),
            0 <= done <= cuts(s).len(),
            cuts(s).skip(done) == cuts_from(
                s,
                pos as int,
                start as int,
                width as int,
                candidate as int,
            ),
            before + wrapped_lines(s) == text::views(result@) + pieces(
                s,
                start as int,
                cuts(s).skip(done),
            ),
        decreases chars.len() - start, chars.len() - pos,
    {
        if width + 1 > TEXT_WIDTH {
            if start + 8 > candidate {
                candidate = pos;
            }
            let ghost rest = cuts(s).skip(done);
            let ghost earlier = result@;
            proof {
                assert(rest[0] == candidate);
                assert(cuts(s)[done] == candidate);
                assert(at_boundary(s, cuts(s)[done]));
                assert(rest.drop_first() == cuts(s).skip(done + 1));
                assert(rest.drop_first() == cuts_from(
                    s,
                    candidate + 1,
                    candidate as int,
                    pos - candidate + 1,
                    candidate as int,
                ));
            }
            result.push(slice_bytes(source, start, candidate));
            proof {
                assert(text::views(result@) == text::views(earlier).push(
                    byte_slice(s, start as int, candidate as int),
                ));
                assert(text::views(earlier) + pieces(s, start as int, rest) == text::views(result@)
                    + pieces(s, candidate as int, rest.drop_first()));
                done = done + 1;
            }
            width = pos - candidate + 1;
            start = candidate;
            pos = candidate + 1;
        } else {
            if can_split_on_this_char(chars[pos]) {
                candidate = pos;
            }
            pos = pos + 1;
            width = width + 1;
        }
    }
    assert(cuts(s).skip(done) == Seq::<int>::empty());
    if byte_length(source) > start {
        let ghost earlier = result@;
        proof {
            vstd::utf8::encode_utf8_valid_utf8(s);
            vstd::utf8::is_char_boundary_start_end_of_seq(vstd::utf8::encode_utf8(s));
        }
        result.push(slice_bytes(source, start, byte_length(source)));
        assert(text::views(result@) == text::views(earlier).push(
            byte_slice(s, start as int, byte_len(s)),
        ));
    }
}

/// A text fitted into `width` columns: centred, with the odd space on the left,
/// or cut short with three dots.
pub open spec fn fitted(s: Seq<char>, width: int) -> Seq<char> {
    if s.len() > width {
        byte_slice(s, 0, width - 3) + "..."@
    } else {
        let spaces = width - s.len();
        text::repeat(" "@, (spaces - spaces / 2) as nat) + s + text::repeat(
            " "@,
            (spaces / 2) as nat,
        )
    }
}

/// Whether a text can be fitted: where it is cut short, the cut must fall
/// between two characters.
pub open spec fn fits(s: Seq<char>, width: int) -> bool {
    s.len() > width ==> width >= 3 && at_boundary(s, width - 3)
}

/// A text fitted into `max_render_width` columns.
pub fn adjust_text_for_rendering(source: &str, max_render_width: usize) -> (r: String)
    requires
        fits(source@, max_render_width as int),
    ensures
        r@ == fitted(source@, max_render_width as int),
{
    let render_width: usize = source.unicode_len();
    if render_width > max_render_width {
        proof {
            vstd::utf8::encode_utf8_valid_utf8(source@);
            vstd::utf8::is_char_boundary_start_end_of_seq(vstd::utf8::encode_utf8(source@));
        }
        let mut out: String = slice_bytes(source, 0, max_render_width - 3);
        out.append("...");
        out
    } else {
        let total_spaces: usize = max_render_width - render_width;
        let half_spaces: usize = total_spaces / 2;
        let mut out: String = String::new();
        push_repeat(&mut out, " ", total_spaces - half_spaces);
        out.append(source);
        push_repeat(&mut out, " ", half_spaces);
        assert(out@ == fitted(source@, max_render_width as int));
        out
    }
}

proof fn ascii_bytes(s: Seq<char>)
    requires
        vstd::utf8::is_ascii_chars(s),
    ensures
        vstd::utf8::encode_utf8(s) == Seq::new(s.len(), |i: int| s[i] as u8),
        byte_len(s) == s.len(),
{
    vstd::utf8::is_ascii_chars_encode_utf8(s);
}

/// In an ASCII text, byte offsets are character positions.
pub proof fn ascii_slices(s: Seq<char>, from: int, to: int)
    requires
        vstd::utf8::is_ascii_chars(s),
        0 <= from <= to <= s.len(),
    ensures
        at_boundary(s, from),
        byte_len(s) == s.len(),
        byte_slice(s, from, to) == s.subrange(from, to),
{
    let bytes = vstd::utf8::encode_utf8(s);
    ascii_bytes(s);
    vstd::utf8::encode_utf8_valid_utf8(s);
    vstd::utf8::is_char_boundary_start_end_of_seq(bytes);
    if 0 < from < s.len() {
        vstd::utf8::is_char_boundary_iff_not_is_continuation_byte(bytes, from);
        let b = bytes[from];
        assert(b == s[from] as u8);
        assert('\0' <= s[from] <= '\u{7f}');
        assert(b <= 127);
        assert(b <= 127u8 ==> (b & 0xc0u8) != 0x80u8) by (bit_vector);
    }
    let middle = s.subrange(from, to);
    assert(vstd::utf8::is_ascii_chars(middle)) by {
        assert forall|i: int| 0 <= i < middle.len() implies '\0' <= #[trigger] middle[i]
            <= '\u{7f}' by {
            assert('\0' <= s[from + i] <= '\u{7f}');
        }
    }
    ascii_bytes(middle);
    assert(vstd::utf8::encode_utf8(middle) == bytes.subrange(from, to));
    vstd::utf8::encode_utf8_decode_utf8(middle);
}

/// Whether the cuts leave no line empty or wider than the box: each is behind
/// the one before it by at most the width of the text, and so is the end.
pub open spec fn cuts_fit(start: int, at: Seq<int>, end: int) -> bool
    decreases at.len(),
{
    if at.len() == 0 {
        0 <= end - start <= TEXT_WIDTH
    } else {
        start < at[0] <= end && at[0] - start <= TEXT_WIDTH && cuts_fit(at[0], at.drop_first(), end)
    }
}

proof fn cuts_from_fit(chars: Seq<char>, pos: int, start: int, width: int, candidate: int)
    requires
        0 <= start <= pos <= chars.len(),
        start <= candidate <= pos,
        pos - start <= width <= TEXT_WIDTH,
        width - (pos - start) <= TEXT_WIDTH - 8,
    ensures
        cuts_fit(start, cuts_from(chars, pos, start, width, candidate), chars.len() as int),
    decreases chars.len() - start, chars.len() - pos,
{
    if pos < chars.len() {
        if width + 1 > TEXT_WIDTH {
            let at = if start + 8 > candidate {
                pos
            } else {
                candidate
            };
            cuts_from_fit(chars, at + 1, at, pos - at + 1, at);
            let rest = cuts_from(chars, at + 1, at, pos - at + 1, at);
            let all = cuts_from(chars, pos, start, width, candidate);
            assert(all == seq![at] + rest);
            assert(all.drop_first() == rest);
        } else {
            cuts_from_fit(
                chars,
                pos + 1,
                start,
                width + 1,
                if breakable(chars[pos]) {
                    pos
                } else {
                    candidate
                },
            );
        }
    }
}

proof fn pieces_fit(s: Seq<char>, start: int, at: Seq<int>)
    requires
        vstd::utf8::is_ascii_chars(s),
        0 <= start <= s.len(),
        cuts_fit(start, at, s.len() as int),
    ensures
        text::concat(pieces(s, start, at)) == s.skip(start),
        forall|i: int|
            0 <= i < pieces(s, start, at).len() ==> 0 < (#[trigger] pieces(s, start, at)[i]).len()
                <= TEXT_WIDTH,
        forall|i: int| 0 <= i < at.len() ==> at_boundary(s, #[trigger] at[i]),
    decreases at.len(),
{
    let all = pieces(s, start, at);
    ascii_slices(s, start, s.len() as int);
    if at.len() == 0 {
        if s.len() > start {
            assert(all == seq![s.subrange(start, s.len() as int)]);
            text::concat_first(all);
            assert(all.drop_first() == Seq::<Seq<char>>::empty());
            assert(text::concat(all.drop_first()) == Seq::<char>::empty());
            assert(text::concat(all) == s.skip(start));
        } else {
            assert(text::concat(all) == s.skip(start));
        }
    } else {
        let rest = pieces(s, at[0], at.drop_first());
        pieces_fit(s, at[0], at.drop_first());
        ascii_slices(s, start, at[0]);
        ascii_slices(s, at[0], at[0]);
        assert(all == seq![s.subrange(start, at[0])] + rest);
        text::concat_first(all);
        assert(all.drop_first() == rest);
        assert(text::concat(all) == s.skip(start));
        assert forall|i: int| 0 <= i < all.len() implies 0 < (#[trigger] all[i]).len()
            <= TEXT_WIDTH by {
            if i > 0 {
                assert(all[i] == rest[i - 1]);
            }
        }
        assert forall|i: int| 0 <= i < at.len() implies at_boundary(s, #[trigger] at[i]) by {
            if i > 0 {
                assert(at[i] == at.drop_first()[i - 1]);
            }
        }
    }
}

/// An ASCII text can always be broken into lines. Nothing of it is lost, and no
/// line is empty or wider than the box.
pub proof fn ascii_text_wraps(s: Seq<char>)
    requires
        vstd::utf8::is_ascii_chars(s),
    ensures
        cuts_at_boundaries(s),
        text::concat(wrapped_lines(s)) == s,
        forall|i: int|
            0 <= i < wrapped_lines(s).len() ==> 0 < (#[trigger] wrapped_lines(s)[i]).len()
                <= TEXT_WIDTH,
{
    cuts_from_fit(s, 0, 0, 0, 0);
    pieces_fit(s, 0, cuts(s));
    assert(s.skip(0) == s);
}

/// An ASCII text can always be fitted into a box, and what comes out is exactly
/// as wide as the box.
pub proof fn ascii_text_fits(s: Seq<char>, width: int)
    requires
        vstd::utf8::is_ascii_chars(s),
        width >= 3,
    ensures
        fits(s, width),
        fitted(s, width).len() == width,
{
    if s.len() > width {
        ascii_slices(s, width - 3, width - 3);
        ascii_slices(s, 0, width - 3);
        reveal_strlit("...");
    } else {
        let spaces = width - s.len();
        repeat_len((spaces - spaces / 2) as nat);
        repeat_len((spaces / 2) as nat);
    }
}

proof fn repeat_len(n: nat)
    ensures
        text::repeat(" "@, n).len() == n,
    decreases n,
{
    reveal_strlit(" ");
    if n > 0 {
        repeat_len((n - 1) as nat);
    }
}

} // verus!
