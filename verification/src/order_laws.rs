//! How cells are compared and sorted, in terms of the values that they hold.
use vstd::prelude::*;
use crate::boolean_expression;
use crate::boolean_expression::BooleanExpression;
use crate::error::Fault;
use crate::scalar::Scalar;
use crate::schema::DataType;
use crate::sorting;
use crate::sorting::{SortKey, SortKeys, SortOptions};
use crate::text;

verus! {

/// Whether `a` and `b` are the same before position `k`, where `a` has the lower
/// number or ends.
pub open spec fn lower_at(a: Seq<int>, b: Seq<int>, k: int) -> bool {
    &&& 0 <= k <= a.len()
    &&& k < b.len()
    &&& forall|i: int| 0 <= i < k ==> #[trigger] a[i] == b[i]
    &&& k == a.len() || a[k] < b[k]
}

/// The order of dictionaries: the first difference decides, whatever the lengths,
/// and a beginning of a sequence comes before the sequence.
pub open spec fn precedes(a: Seq<int>, b: Seq<int>) -> bool {
    exists|k: int| lower_at(a, b, k)
}

/// The code points of a text.
pub open spec fn code_points(s: Seq<char>) -> Seq<int> {
    Seq::new(s.len(), |i: int| s[i] as int)
}

/// The numbers of some bytes.
pub open spec fn byte_numbers(s: Seq<u8>) -> Seq<int> {
    Seq::new(s.len(), |i: int| s[i] as int)
}

proof fn text_difference(a: Seq<char>, b: Seq<char>) -> (k: int)
    requires
        text::text_less(a, b),
    ensures
        lower_at(code_points(a), code_points(b), k),
    decreases a.len(),
{
    if a.len() == 0 || a[0] != b[0] {
        0
    } else {
        let k = text_difference(a.drop_first(), b.drop_first());
        let x = code_points(a);
        let y = code_points(b);
        let p = code_points(a.drop_first());
        let q = code_points(b.drop_first());
        assert forall|i: int| 0 <= i < k + 1 implies #[trigger] x[i] == y[i] by {
            if i > 0 {
                assert(p[i - 1] == q[i - 1]);
            }
        }
        if k < p.len() {
            assert(p[k] < q[k]);
            assert(x[k + 1] < y[k + 1]);
        }
        k + 1
    }
}

proof fn text_lower(a: Seq<char>, b: Seq<char>, k: int)
    requires
        lower_at(code_points(a), code_points(b), k),
    ensures
        text::text_less(a, b),
    decreases a.len(),
{
    if k > 0 {
        let x = code_points(a);
        let y = code_points(b);
        assert(x[0] == y[0]);
        assert(a[0] == b[0]);
        let p = code_points(a.drop_first());
        let q = code_points(b.drop_first());
        assert forall|i: int| 0 <= i < k - 1 implies #[trigger] p[i] == q[i] by {
            assert(x[i + 1] == y[i + 1]);
        }
        if k < a.len() {
            assert(x[k] < y[k]);
            assert(p[k - 1] < q[k - 1]);
        }
        text_lower(a.drop_first(), b.drop_first(), k - 1);
    }
}

/// Texts are ordered as in a dictionary, by code points.
pub proof fn texts_are_ordered_as_in_a_dictionary(a: Seq<char>, b: Seq<char>)
    ensures
        text::text_less(a, b) <==> precedes(code_points(a), code_points(b)),
{
    if text::text_less(a, b) {
        let k = text_difference(a, b);
    }
    if precedes(code_points(a), code_points(b)) {
        let k = choose|k: int| lower_at(code_points(a), code_points(b), k);
        text_lower(a, b, k);
    }
}

proof fn bytes_difference(a: Seq<u8>, b: Seq<u8>) -> (k: int)
    requires
        sorting::bytes_less(a, b),
    ensures
        lower_at(byte_numbers(a), byte_numbers(b), k),
    decreases a.len(),
{
    if a.len() == 0 || a[0] != b[0] {
        0
    } else {
        let k = bytes_difference(a.drop_first(), b.drop_first());
        let x = byte_numbers(a);
        let y = byte_numbers(b);
        let p = byte_numbers(a.drop_first());
        let q = byte_numbers(b.drop_first());
        assert forall|i: int| 0 <= i < k + 1 implies #[trigger] x[i] == y[i] by {
            if i > 0 {
                assert(p[i - 1] == q[i - 1]);
            }
        }
        if k < p.len() {
            assert(p[k] < q[k]);
            assert(x[k + 1] < y[k + 1]);
        }
        k + 1
    }
}

proof fn bytes_lower(a: Seq<u8>, b: Seq<u8>, k: int)
    requires
        lower_at(byte_numbers(a), byte_numbers(b), k),
    ensures
        sorting::bytes_less(a, b),
    decreases a.len(),
{
    if k > 0 {
        let x = byte_numbers(a);
        let y = byte_numbers(b);
        assert(x[0] == y[0]);
        assert(a[0] == b[0]);
        let p = byte_numbers(a.drop_first());
        let q = byte_numbers(b.drop_first());
        assert forall|i: int| 0 <= i < k - 1 implies #[trigger] p[i] == q[i] by {
            assert(x[i + 1] == y[i + 1]);
        }
        if k < a.len() {
            assert(x[k] < y[k]);
            assert(p[k - 1] < q[k - 1]);
        }
        bytes_lower(a.drop_first(), b.drop_first(), k - 1);
    }
}

/// Byte strings are ordered as in a dictionary, by the numbers of their bytes.
pub proof fn bytes_are_ordered_as_in_a_dictionary(a: Seq<u8>, b: Seq<u8>)
    ensures
        sorting::bytes_less(a, b) <==> precedes(byte_numbers(a), byte_numbers(b)),
{
    if sorting::bytes_less(a, b) {
        let k = bytes_difference(a, b);
    }
    if precedes(byte_numbers(a), byte_numbers(b)) {
        let k = choose|k: int| lower_at(byte_numbers(a), byte_numbers(b), k);
        bytes_lower(a, b, k);
    }
}

/// Whether two numbers stand in the relation that a comparison asks for.
pub open spec fn stands(op: BooleanExpression, x: int, y: int) -> bool {
    match op {
        BooleanExpression::Eq => x == y,
        BooleanExpression::Neq => x != y,
        BooleanExpression::Lt => x < y,
        BooleanExpression::LtEq => x <= y,
        BooleanExpression::Gt => x > y,
        BooleanExpression::GtEq => x >= y,
        _ => false,
    }
}

/// Whether an operator is a comparison.
pub open spec fn compares(op: BooleanExpression) -> bool {
    op != BooleanExpression::And && op != BooleanExpression::Or
}

/// Two whole numbers or dates of one type are compared by value.
pub proof fn whole_numbers_compare_by_value(
    op: BooleanExpression,
    a: i8,
    b: i8,
    c: i16,
    d: i16,
    e: i32,
    f: i32,
    g: i64,
    h: i64,
)
    requires
        compares(op),
    ensures
        boolean_expression::cell_result(op, Scalar::Int8(a), Scalar::Int8(b), DataType::Int8) == Ok::<
            Option<bool>,
            Fault,
        >(Some(stands(op, a as int, b as int))),
        boolean_expression::cell_result(op, Scalar::Int16(c), Scalar::Int16(d), DataType::Int16)
            == Ok::<Option<bool>, Fault>(Some(stands(op, c as int, d as int))),
        boolean_expression::cell_result(op, Scalar::Int32(e), Scalar::Int32(f), DataType::Int32)
            == Ok::<Option<bool>, Fault>(Some(stands(op, e as int, f as int))),
        boolean_expression::cell_result(op, Scalar::Int64(g), Scalar::Int64(h), DataType::Int64)
            == Ok::<Option<bool>, Fault>(Some(stands(op, g as int, h as int))),
        boolean_expression::cell_result(op, Scalar::Date32(e), Scalar::Date32(f), DataType::Date32)
            == Ok::<Option<bool>, Fault>(Some(stands(op, e as int, f as int))),
{
}

/// Two texts are compared as in a dictionary, by code points; bytes that are a
/// text are compared as that text.
pub proof fn texts_compare_as_in_a_dictionary(
    op: BooleanExpression,
    l: Scalar,
    r: Scalar,
    a: Seq<char>,
    b: Seq<char>,
)
    requires
        compares(op),
        l == Scalar::Utf8(a) || (l matches Scalar::Binary(x) && vstd::utf8::valid_utf8(x)
            && vstd::utf8::decode_utf8(x) == a),
        r == Scalar::Utf8(b) || (r matches Scalar::Binary(y) && vstd::utf8::valid_utf8(y)
            && vstd::utf8::decode_utf8(y) == b),
    ensures
        boolean_expression::cell_result(op, l, r, DataType::Utf8) == Ok::<Option<bool>, Fault>(
            Some(
                match op {
                    BooleanExpression::Eq => a == b,
                    BooleanExpression::Neq => a != b,
                    BooleanExpression::Lt => precedes(code_points(a), code_points(b)),
                    BooleanExpression::LtEq => a == b || precedes(code_points(a), code_points(b)),
                    BooleanExpression::Gt => precedes(code_points(b), code_points(a)),
                    _ => a == b || precedes(code_points(b), code_points(a)),
                },
            ),
        ),
{
    texts_are_ordered_as_in_a_dictionary(a, b);
    texts_are_ordered_as_in_a_dictionary(b, a);
    text::text_less_total(a, b);
}

/// Where two texts are the same before a position and differ there, the code
/// points at that position decide, whatever the lengths; a beginning of a text is
/// less than the text.
pub proof fn the_first_difference_of_texts_decides(a: Seq<char>, b: Seq<char>, i: int)
    requires
        0 <= i <= a.len(),
        i <= b.len(),
        a.take(i) == b.take(i),
        i < a.len() && i < b.len() ==> a[i] != b[i],
    ensures
        i < a.len() && i < b.len() ==> boolean_expression::cell_result(
            BooleanExpression::Lt,
            Scalar::Utf8(a),
            Scalar::Utf8(b),
            DataType::Utf8,
        ) == Ok::<Option<bool>, Fault>(Some((a[i] as int) < (b[i] as int))),
        i == a.len() || i == b.len() ==> boolean_expression::cell_result(
            BooleanExpression::Lt,
            Scalar::Utf8(a),
            Scalar::Utf8(b),
            DataType::Utf8,
        ) == Ok::<Option<bool>, Fault>(Some(a.len() < b.len())),
{
    texts_compare_as_in_a_dictionary(
        BooleanExpression::Lt,
        Scalar::Utf8(a),
        Scalar::Utf8(b),
        a,
        b,
    );
    let x = code_points(a);
    let y = code_points(b);
    assert forall|j: int| 0 <= j < i implies #[trigger] x[j] == y[j] by {
        assert(a.take(i)[j] == a[j] && b.take(i)[j] == b[j]);
    }
    if i < b.len() && (i == a.len() || (a[i] as int) < (b[i] as int)) {
        assert(lower_at(x, y, i));
    } else if precedes(x, y) {
        let k = choose|k: int| lower_at(x, y, k);
        if k < i {
            assert(x[k] == y[k]);
        } else if k > i {
            assert(x[i] == y[i]);
        }
    }
}

/// The magnitude of a double-precision number, by its bits.
pub open spec fn magnitude64(bits: u64) -> int {
    bits as int % 0x8000_0000_0000_0000
}

/// The magnitude of a single-precision number, by its bits.
pub open spec fn magnitude32(bits: u32) -> int {
    bits as int % 0x8000_0000
}

/// Whether the first of two numbers, given by sign and magnitude, is the lower
/// one; a zero with a sign is the same number as one without.
pub open spec fn signed_lower(a_negative: bool, a: int, b_negative: bool, b: int) -> bool {
    if a_negative && b_negative {
        b < a
    } else if a_negative {
        a > 0 || b > 0
    } else if b_negative {
        false
    } else {
        a < b
    }
}

/// Two floating-point numbers are compared by sign and magnitude, and a
/// comparison with not-a-number fails, but for the one for inequality.
pub proof fn floating_point_numbers_compare_by_value(
    op: BooleanExpression,
    a: u64,
    b: u64,
    c: u32,
    d: u32,
)
    requires
        compares(op),
    ensures
        boolean_expression::cell_result(
            op,
            Scalar::Float64(a),
            Scalar::Float64(b),
            DataType::Float64,
        ) == Ok::<Option<bool>, Fault>(
            Some(
                if magnitude64(a) > 0x7ff0_0000_0000_0000 || magnitude64(b)
                    > 0x7ff0_0000_0000_0000 {
                    op == BooleanExpression::Neq
                } else {
                    let less = signed_lower(
                        a >= 0x8000_0000_0000_0000,
                        magnitude64(a),
                        b >= 0x8000_0000_0000_0000,
                        magnitude64(b),
                    );
                    let more = signed_lower(
                        b >= 0x8000_0000_0000_0000,
                        magnitude64(b),
                        a >= 0x8000_0000_0000_0000,
                        magnitude64(a),
                    );
                    match op {
                        BooleanExpression::Eq => !less && !more,
                        BooleanExpression::Neq => less || more,
                        BooleanExpression::Lt => less,
                        BooleanExpression::LtEq => !more,
                        BooleanExpression::Gt => more,
                        _ => !less,
                    }
                },
            ),
        ),
        boolean_expression::cell_result(
            op,
            Scalar::Float32(c),
            Scalar::Float32(d),
            DataType::Float32,
        ) == Ok::<Option<bool>, Fault>(
            Some(
                if magnitude32(c) > 0x7f80_0000 || magnitude32(d) > 0x7f80_0000 {
                    op == BooleanExpression::Neq
                } else {
                    let less = signed_lower(
                        c >= 0x8000_0000,
                        magnitude32(c),
                        d >= 0x8000_0000,
                        magnitude32(d),
                    );
                    let more = signed_lower(
                        d >= 0x8000_0000,
                        magnitude32(d),
                        c >= 0x8000_0000,
                        magnitude32(c),
                    );
                    match op {
                        BooleanExpression::Eq => !less && !more,
                        BooleanExpression::Neq => less || more,
                        BooleanExpression::Lt => less,
                        BooleanExpression::LtEq => !more,
                        BooleanExpression::Gt => more,
                        _ => !less,
                    }
                },
            ),
        ),
{
}

/// The types whose cells can be compared.
pub open spec fn ordered_type(t: DataType) -> bool {
    t == DataType::Int8 || t == DataType::Int16 || t == DataType::Int32 || t == DataType::Int64
        || t == DataType::Float32 || t == DataType::Float64 || t == DataType::Utf8 || t
        == DataType::Date32
}

/// A comparison with null, or with bytes that are no text, is unknown; a cell of
/// another type than the one compared is refused, and so is a type that cannot be
/// compared.
pub proof fn comparisons_know_their_types(
    op: BooleanExpression,
    l: Scalar,
    r: Scalar,
    t: DataType,
)
    requires
        compares(op),
    ensures
        !ordered_type(t) ==> boolean_expression::cell_result(op, l, r, t) is Err,
        ordered_type(t) && !(l is Null) && l.data_type() != t && !(t == DataType::Utf8
            && l is Binary) ==> boolean_expression::cell_result(op, l, r, t) is Err,
        ordered_type(t) && !(r is Null) && r.data_type() != t && !(t == DataType::Utf8
            && r is Binary) ==> boolean_expression::cell_result(op, l, r, t) is Err,
        ordered_type(t) && l is Null && (r is Null || r.data_type() == t)
            ==> boolean_expression::cell_result(op, l, r, t) == Ok::<Option<bool>, Fault>(None),
        ordered_type(t) && r is Null && (l is Null || l.data_type() == t)
            ==> boolean_expression::cell_result(op, l, r, t) == Ok::<Option<bool>, Fault>(None),
        (l matches Scalar::Binary(x) && !vstd::utf8::valid_utf8(x)) && (r is Null || r is Utf8)
            ==> boolean_expression::cell_result(op, l, r, DataType::Utf8) == Ok::<
            Option<bool>,
            Fault,
        >(None),
        (r matches Scalar::Binary(y) && !vstd::utf8::valid_utf8(y)) && (l is Null || l is Utf8)
            ==> boolean_expression::cell_result(op, l, r, DataType::Utf8) == Ok::<
            Option<bool>,
            Fault,
        >(None),
{
}

/// A truth value that a cell stands for, where it stands for one: null is not
/// known, and a whole number is true exactly where it is one.
pub open spec fn stands_for(v: Scalar, b: Option<bool>) -> bool {
    match v {
        Scalar::Null => b is None,
        Scalar::Boolean(x) => b == Some(x),
        Scalar::Int8(n) => b == Some(n == 1),
        Scalar::Int16(n) => b == Some(n == 1),
        Scalar::Int32(n) => b == Some(n == 1),
        Scalar::Int64(n) => b == Some(n == 1),
        Scalar::UInt8(n) => b == Some(n == 1),
        Scalar::UInt16(n) => b == Some(n == 1),
        Scalar::UInt32(n) => b == Some(n == 1),
        Scalar::UInt64(n) => b == Some(n == 1),
        _ => false,
    }
}

/// Whether a truth value that may be unknown might be `x`.
pub open spec fn might_be(b: Option<bool>, x: bool) -> bool {
    b == Some(x) || b is None
}

/// AND and OR give what they give for every truth value that an unknown operand
/// might have, and are unknown where those differ.
pub proof fn unknown_operands_might_be_either(
    l: Scalar,
    r: Scalar,
    a: Option<bool>,
    b: Option<bool>,
    t: DataType,
    v: bool,
)
    requires
        stands_for(l, a),
        stands_for(r, b),
    ensures
        boolean_expression::cell_result(BooleanExpression::And, l, r, t) is Ok,
        boolean_expression::cell_result(BooleanExpression::Or, l, r, t) is Ok,
        boolean_expression::cell_result(BooleanExpression::And, l, r, t) == Ok::<
            Option<bool>,
            Fault,
        >(Some(v)) <==> forall|x: bool, y: bool| #[trigger]
            might_be(a, x) && #[trigger] might_be(b, y) ==> (x && y) == v,
        boolean_expression::cell_result(BooleanExpression::Or, l, r, t) == Ok::<
            Option<bool>,
            Fault,
        >(Some(v)) <==> forall|x: bool, y: bool| #[trigger]
            might_be(a, x) && #[trigger] might_be(b, y) ==> (x || y) == v,
{
    assert(boolean_expression::truth(boolean_expression::read_bool(l)) == a);
    assert(boolean_expression::truth(boolean_expression::read_bool(r)) == b);
    let x = a != Some(false);
    let y = b != Some(false);
    let p = a == Some(true);
    let q = b == Some(true);
    assert(might_be(a, x) && might_be(a, p));
    assert(might_be(b, y) && might_be(b, q));
}

/// Cells that stand for no truth value are refused by AND and OR.
pub proof fn other_operands_are_refused(l: Scalar, r: Scalar, t: DataType)
    requires
        l is Float32 || l is Float64 || l is Utf8 || l is Binary || l is Date32 || l is Other || (
        r is Float32 || r is Float64 || r is Utf8 || r is Binary || r is Date32 || r is Other),
    ensures
        boolean_expression::cell_result(BooleanExpression::And, l, r, t) is Err,
        boolean_expression::cell_result(BooleanExpression::Or, l, r, t) is Err,
{
}

/// A known result is a boolean cell, and an unknown one is null.
pub proof fn results_are_boolean_cells(b: bool)
    ensures
        boolean_expression::result_cell(Some(b)) == Scalar::Boolean(b),
        boolean_expression::result_cell(None) == Scalar::Null,
{
}

/// Whether the first of two cells of one type is the lower one: numbers and dates
/// by value, false before true, texts and bytes as in a dictionary by their bytes,
/// and floating-point numbers by sign and magnitude, a set sign always first.
pub open spec fn lower_cell(a: Scalar, b: Scalar) -> bool {
    match (a, b) {
        (Scalar::Boolean(x), Scalar::Boolean(y)) => !x && y,
        (Scalar::Int8(x), Scalar::Int8(y)) => x < y,
        (Scalar::Int16(x), Scalar::Int16(y)) => x < y,
        (Scalar::Int32(x), Scalar::Int32(y)) => x < y,
        (Scalar::Int64(x), Scalar::Int64(y)) => x < y,
        (Scalar::UInt8(x), Scalar::UInt8(y)) => x < y,
        (Scalar::UInt16(x), Scalar::UInt16(y)) => x < y,
        (Scalar::UInt32(x), Scalar::UInt32(y)) => x < y,
        (Scalar::UInt64(x), Scalar::UInt64(y)) => x < y,
        (Scalar::Float32(x), Scalar::Float32(y)) => if x < 0x8000_0000 && y < 0x8000_0000 {
            x < y
        } else if x >= 0x8000_0000 && y >= 0x8000_0000 {
            x > y
        } else {
            x >= 0x8000_0000
        },
        (Scalar::Float64(x), Scalar::Float64(y)) => if x < 0x8000_0000_0000_0000 && y
            < 0x8000_0000_0000_0000 {
            x < y
        } else if x >= 0x8000_0000_0000_0000 && y >= 0x8000_0000_0000_0000 {
            x > y
        } else {
            x >= 0x8000_0000_0000_0000
        },
        (Scalar::Utf8(x), Scalar::Utf8(y)) => precedes(
            byte_numbers(vstd::utf8::encode_utf8(x)),
            byte_numbers(vstd::utf8::encode_utf8(y)),
        ),
        (Scalar::Binary(x), Scalar::Binary(y)) => precedes(byte_numbers(x), byte_numbers(y)),
        (Scalar::Date32(x), Scalar::Date32(y)) => x < y,
        (Scalar::Other { id: x, .. }, Scalar::Other { id: y, .. }) => x < y,
        _ => false,
    }
}

/// Whether two cells are of one type, null aside.
pub open spec fn of_one_type(a: Scalar, b: Scalar) -> bool {
    match a {
        Scalar::Null => false,
        Scalar::Boolean(_) => b is Boolean,
        Scalar::Int8(_) => b is Int8,
        Scalar::Int16(_) => b is Int16,
        Scalar::Int32(_) => b is Int32,
        Scalar::Int64(_) => b is Int64,
        Scalar::UInt8(_) => b is UInt8,
        Scalar::UInt16(_) => b is UInt16,
        Scalar::UInt32(_) => b is UInt32,
        Scalar::UInt64(_) => b is UInt64,
        Scalar::Float32(_) => b is Float32,
        Scalar::Float64(_) => b is Float64,
        Scalar::Utf8(_) => b is Utf8,
        Scalar::Binary(_) => b is Binary,
        Scalar::Date32(_) => b is Date32,
        Scalar::Other { .. } => b is Other,
    }
}

/// Whether a cell goes before another under the given direction and placement of
/// nulls.
pub open spec fn goes_before(a: Scalar, b: Scalar, descending: bool, nulls_first: bool) -> bool {
    if a is Null && b is Null {
        false
    } else if a is Null {
        nulls_first
    } else if b is Null {
        !nulls_first
    } else if descending {
        lower_cell(b, a)
    } else {
        lower_cell(a, b)
    }
}

/// Cells of one type are sorted by what they hold, in the direction asked for,
/// and nulls go where they are asked to.
pub proof fn cells_are_sorted_by_value(a: Scalar, b: Scalar, o: SortOptions)
    requires
        a is Null || b is Null || of_one_type(a, b),
    ensures
        sorting::cell_before(sorting::sort_cell(a), sorting::sort_cell(b), o) <==> goes_before(
            a,
            b,
            o.descending,
            o.nulls_first,
        ),
{
    match (a, b) {
        (Scalar::Utf8(x), Scalar::Utf8(y)) => {
            bytes_are_ordered_as_in_a_dictionary(
                vstd::utf8::encode_utf8(x),
                vstd::utf8::encode_utf8(y),
            );
            bytes_are_ordered_as_in_a_dictionary(
                vstd::utf8::encode_utf8(y),
                vstd::utf8::encode_utf8(x),
            );
        },
        (Scalar::Binary(x), Scalar::Binary(y)) => {
            bytes_are_ordered_as_in_a_dictionary(x, y);
            bytes_are_ordered_as_in_a_dictionary(y, x);
        },
        _ => {},
    }
}

/// The first sort column in which one of two rows comes before the other
/// decides.
pub proof fn the_first_column_that_differs_decides(
    columns: Seq<SortKeys>,
    i: int,
    j: int,
    c: int,
)
    requires
        0 <= c < columns.len(),
        forall|d: int|
            0 <= d < c ==> !sorting::cell_before(
                (#[trigger] columns[d]).cells[i],
                columns[d].cells[j],
                columns[d].options,
            ) && !sorting::cell_before(
                columns[d].cells[j],
                columns[d].cells[i],
                columns[d].options,
            ),
        sorting::cell_before(columns[c].cells[i], columns[c].cells[j], columns[c].options),
    ensures
        sorting::row_before(columns, i, j),
    decreases c,
{
    if c > 0 {
        let rest = columns.drop_first();
        assert(!sorting::cell_before(
            columns[0].cells[i],
            columns[0].cells[j],
            columns[0].options,
        ));
        assert forall|d: int| 0 <= d < c - 1 implies !sorting::cell_before(
            (#[trigger] rest[d]).cells[i],
            rest[d].cells[j],
            rest[d].options,
        ) && !sorting::cell_before(rest[d].cells[j], rest[d].cells[i], rest[d].options) by {
            assert(rest[d] == columns[d + 1]);
        }
        assert(rest[c - 1] == columns[c]);
        the_first_column_that_differs_decides(rest, i, j, c - 1);
    }
}

/// Whether the cells of every key are of one type, null aside, and there are `n`
/// of them.
pub open spec fn typed_keys(keys: Seq<SortKey>, n: int) -> bool {
    &&& forall|c: int| 0 <= c < keys.len() ==> (#[trigger] keys[c]).values@.len() == n
    &&& forall|c: int, i: int, j: int|
        0 <= c < keys.len() && 0 <= i < n && 0 <= j < n ==> {
            let a = (#[trigger] keys[c].values@[i])@;
            let b = (#[trigger] keys[c].values@[j])@;
            a is Null || b is Null || of_one_type(a, b)
        }
}

/// Whether row `i` goes before row `j` by the key at `c`: they are the same in
/// every earlier key, and the cell of row `i` goes before that of row `j`.
pub open spec fn key_decides(keys: Seq<SortKey>, i: int, j: int, c: int) -> bool {
    &&& 0 <= c < keys.len()
    &&& forall|d: int|
        0 <= d < c ==> (#[trigger] keys[d]).values@[i]@ == keys[d].values@[j]@
    &&& goes_before(
        keys[c].values@[i]@,
        keys[c].values@[j]@,
        keys[c].options.descending,
        keys[c].options.nulls_first,
    )
}

proof fn decided_rows_are_before(keys: Seq<SortKey>, n: int, i: int, j: int, c: int)
    requires
        typed_keys(keys, n),
        0 <= i < n,
        0 <= j < n,
        key_decides(keys, i, j, c),
    ensures
        sorting::row_before(sorting::sort_keys(keys), i, j),
{
    let columns = sorting::sort_keys(keys);
    assert forall|d: int| 0 <= d < c implies !sorting::cell_before(
        (#[trigger] columns[d]).cells[i],
        columns[d].cells[j],
        columns[d].options,
    ) && !sorting::cell_before(columns[d].cells[j], columns[d].cells[i], columns[d].options) by {
        let a = keys[d].values@[i]@;
        let b = keys[d].values@[j]@;
        assert(a == b);
        assert(keys[d].values@.len() == n);
        cells_are_sorted_by_value(a, b, keys[d].options);
        assert(!lower_cell(a, a)) by {
            nothing_is_lower_than_itself(a);
        }
    }
    let a = keys[c].values@[i]@;
    let b = keys[c].values@[j]@;
    assert(keys[c].values@.len() == n);
    cells_are_sorted_by_value(a, b, keys[c].options);
    the_first_column_that_differs_decides(columns, i, j, c);
}

proof fn nothing_is_lower_than_itself(a: Scalar)
    ensures
        !lower_cell(a, a),
{
}

/// Sorted rows are in the order of their keys: no row of the output goes before
/// an earlier one by its keys, no row that was left out goes before one that was
/// taken, every row is taken at most once, and as many as were asked for are
/// taken, where there are so many.
pub proof fn sorted_rows_are_in_the_order_of_their_keys(
    positions: Seq<int>,
    keys: Seq<SortKey>,
    n: int,
    limit: Option<usize>,
)
    requires
        typed_keys(keys, n),
        n >= 0,
        sorting::first_in_order(positions, sorting::sort_keys(keys), n, limit),
    ensures
        limit is None ==> positions.len() == n,
        limit matches Some(l) ==> positions.len() == if l < n {
            l as int
        } else {
            n
        },
        forall|i: int| 0 <= i < positions.len() ==> 0 <= #[trigger] positions[i] < n,
        forall|i: int, j: int|
            0 <= i < j < positions.len() ==> #[trigger] positions[i] != #[trigger] positions[j],
        forall|i: int, j: int, c: int|
            0 <= i < j < positions.len() ==> !#[trigger] key_decides(
                keys,
                positions[j],
                positions[i],
                c,
            ),
        forall|k: int, i: int, c: int|
            0 <= k < n && !positions.contains(k) && 0 <= i < positions.len()
                ==> !#[trigger] key_decides(keys, k, positions[i], c),
{
    assert forall|i: int, j: int, c: int|
        0 <= i < j < positions.len() implies !#[trigger] key_decides(
        keys,
        positions[j],
        positions[i],
        c,
    ) by {
        if key_decides(keys, positions[j], positions[i], c) {
            decided_rows_are_before(keys, n, positions[j], positions[i], c);
        }
    }
    assert forall|k: int, i: int, c: int|
        0 <= k < n && !positions.contains(k) && 0 <= i < positions.len()
            implies !#[trigger] key_decides(keys, k, positions[i], c) by {
        if key_decides(keys, k, positions[i], c) {
            decided_rows_are_before(keys, n, k, positions[i], c);
        }
    }
}

} // verus!
