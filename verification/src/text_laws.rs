//! What texts say: numbers that can be read back, and lists put together.
use vstd::prelude::*;
use crate::aggregates::{AggregateExprModel, AggregateFunction, AggregateMode, PhysicalGroupBy};
use crate::aggregates;
use crate::boolean_expression::BooleanExpression;
use crate::expr;
use crate::expr::{Expr, Operator};
use crate::join_table::JoinType;
use crate::metrics::readable;
use crate::scalar::Scalar;
use crate::schema;
use crate::schema::{DataType, FieldModel};
use crate::sorting;
use crate::sorting::SortOptions;
use crate::task_context;
use crate::text;

verus! {

/// The number that decimal digits stand for, the first digit counting most.
pub open spec fn place_value(digits: Seq<char>) -> int {
    digits.fold_left(0, |v: int, c: char| 10 * v + (c as int - '0' as int))
}

proof fn place_value_grows(digits: Seq<char>, c: char)
    ensures
        place_value(digits.push(c)) == 10 * place_value(digits) + (c as int - '0' as int),
{
    assert(digits.push(c).drop_last() =~= digits);
    reveal_with_fuel(Seq::fold_left, 2);
}

/// A number written in decimal consists of digits that stand for it, without a
/// leading zero unless the number is zero.
pub proof fn a_decimal_number_is_read_back(n: nat)
    ensures
        text::decimal(n).len() > 0,
        forall|i: int| 0 <= i < text::decimal(n).len() ==> '0' <= #[trigger] text::decimal(n)[i] <= '9',
        place_value(text::decimal(n)) == n,
        n > 0 ==> text::decimal(n)[0] != '0',
        n == 0 ==> text::decimal(n) == seq!['0'],
    decreases n,
{
    let last = text::digit((n % 10) as int);
    if n < 10 {
        let none = Seq::<char>::empty();
        place_value_grows(none, last);
        assert(none.push(last) =~= text::decimal(n));
        reveal_with_fuel(Seq::fold_left, 1);
        assert(place_value(none) == 0);
    } else {
        a_decimal_number_is_read_back(n / 10);
        place_value_grows(text::decimal(n / 10), last);
    }
}

/// A whole number is written as its digits, after a minus sign where it is
/// negative.
pub proof fn a_negative_number_has_a_sign(n: int)
    ensures
        n >= 0 ==> text::decimal_int(n) == text::decimal(n as nat),
        n < 0 ==> text::decimal_int(n).len() > 0 && text::decimal_int(n)[0] == '-'
            && text::decimal_int(n).drop_first() == text::decimal((-n) as nat),
{
    if n < 0 {
        assert(text::decimal_int(n).drop_first() =~= text::decimal((-n) as nat));
    }
}

proof fn digits_stand_for_their_number(digits: Seq<char>)
    requires
        forall|i: int| 0 <= i < digits.len() ==> '0' <= #[trigger] digits[i] <= '9',
    ensures
        task_context::digits_value(digits) == place_value(digits),
    decreases digits.len(),
{
    if digits.len() == 0 {
        reveal_with_fuel(Seq::fold_left, 1);
    } else {
        let fewer = digits.drop_last();
        assert forall|i: int| 0 <= i < fewer.len() implies '0' <= #[trigger] fewer[i] <= '9' by {
            assert(fewer[i] == digits[i]);
        }
        digits_stand_for_their_number(fewer);
        place_value_grows(fewer, digits.last());
        assert(fewer.push(digits.last()) =~= digits);
        assert('0' <= digits[digits.len() - 1] <= '9');
    }
}

/// A number in a setting is read as what its digits stand for, with or without a
/// plus sign before them; what holds no digits, or anything else, or is out of
/// range, is no number.
pub proof fn a_setting_is_read_as_the_number_it_writes(digits: Seq<char>)
    ensures
        ({
            let proper = digits.len() > 0 && forall|i: int|
                0 <= i < digits.len() ==> '0' <= #[trigger] digits[i] <= '9';
            let read = if proper && place_value(digits) <= usize::MAX {
                Some(place_value(digits) as nat)
            } else {
                None
            };
            &&& proper ==> task_context::parsed(digits) == read
            &&& proper ==> task_context::parsed(seq!['+'] + digits) == read
            &&& !proper && (digits.len() < 2 || digits[0] != '+') ==> task_context::parsed(digits)
                is None
            &&& !proper && digits.len() > 0 ==> task_context::parsed(seq!['+'] + digits) is None
        }),
{
    let signed = seq!['+'] + digits;
    assert(signed.drop_first() =~= digits);
    if digits.len() > 0 && forall|i: int|
        0 <= i < digits.len() ==> '0' <= #[trigger] digits[i] <= '9' {
        digits_stand_for_their_number(digits);
        assert('0' <= digits[0]);
    }
}

/// A number that was written in decimal is read back from a setting.
pub proof fn a_written_number_is_read_back(n: usize)
    ensures
        task_context::parsed(text::decimal(n as nat)) == Some(n as nat),
{
    a_decimal_number_is_read_back(n as nat);
    a_setting_is_read_as_the_number_it_writes(text::decimal(n as nat));
}

/// Where no key occurs twice, looking a key up gives the value beside it, and
/// nothing where it does not occur.
pub proof fn a_setting_is_found_by_its_key(
    settings: Seq<(Seq<char>, Seq<char>)>,
    key: Seq<char>,
    value: Seq<char>,
)
    requires
        forall|i: int, j: int|
            0 <= i < j < settings.len() ==> (#[trigger] settings[i]).0 != (
            #[trigger] settings[j]).0,
    ensures
        task_context::lookup(settings, key) == Some(value) <==> settings.contains((key, value)),
        task_context::lookup(settings, key) is None <==> forall|i: int|
            0 <= i < settings.len() ==> (#[trigger] settings[i]).0 != key,
    decreases settings.len(),
{
    if settings.len() > 0 {
        let fewer = settings.drop_last();
        let last = settings.len() - 1;
        assert forall|i: int, j: int| 0 <= i < j < fewer.len() implies (#[trigger] fewer[i]).0 != (
        #[trigger] fewer[j]).0 by {
            assert(settings[i].0 != settings[j].0);
        }
        a_setting_is_found_by_its_key(fewer, key, value);
        if fewer.contains((key, value)) {
            let i = choose|i: int| 0 <= i < fewer.len() && fewer[i] == (key, value);
            assert(settings[i] == (key, value));
            assert(settings[i].0 != settings[last].0);
        }
        if settings.contains((key, value)) {
            let i = choose|i: int| 0 <= i < settings.len() && settings[i] == (key, value);
            if i < last {
                assert(fewer[i] == (key, value));
            }
        }
        if settings[last].0 == key {
            assert(settings[last] == settings.last());
            if settings.contains((key, value)) {
                let i = choose|i: int| 0 <= i < settings.len() && settings[i] == (key, value);
                if i < last {
                    assert(settings[i].0 != settings[last].0);
                }
            } else if task_context::lookup(settings, key) == Some(value) {
                assert(settings[last] == (key, value));
            }
        } else {
            assert forall|i: int|
                0 <= i < settings.len() && (forall|i: int|
                    0 <= i < fewer.len() ==> (#[trigger] fewer[i]).0 != key) implies (
            #[trigger] settings[i]).0 != key by {
                if i < last {
                    assert(fewer[i] == settings[i]);
                }
            }
            assert forall|i: int|
                0 <= i < fewer.len() && (forall|i: int|
                    0 <= i < settings.len() ==> (#[trigger] settings[i]).0 != key) implies (
            #[trigger] fewer[i]).0 != key by {
                assert(fewer[i] == settings[i]);
            }
        }
    }
}

/// A list is put together from its parts, with the separator between every two
/// neighbours: a list of one is that one, and a longer list is its two halves
/// with the separator between them.
pub proof fn a_list_is_its_halves_with_the_separator_between(
    a: Seq<Seq<char>>,
    b: Seq<Seq<char>>,
    separator: Seq<char>,
)
    ensures
        a.len() == 0 ==> text::join(a, separator).len() == 0,
        a.len() == 1 ==> text::join(a, separator) == a[0],
        a.len() > 0 && b.len() > 0 ==> text::join(a + b, separator) == text::join(a, separator)
            + separator + text::join(b, separator),
    decreases b.len(),
{
    if a.len() > 0 && b.len() > 0 {
        let all = a + b;
        assert(all.last() == b.last());
        assert(all.drop_last() =~= a + b.drop_last());
        if b.len() == 1 {
            assert(a + b.drop_last() =~= a);
        } else {
            a_list_is_its_halves_with_the_separator_between(a, b.drop_last(), separator);
            assert(text::join(all, separator) =~= text::join(a, separator) + separator
                + text::join(b, separator));
        }
    }
}

/// Copies of a text one after the other: every character is that of the text at
/// the same place of its copy.
pub proof fn copies_follow_each_other(unit: Seq<char>, m: nat, n: nat)
    ensures
        text::repeat(unit, 0).len() == 0,
        text::repeat(unit, 1) == unit,
        text::repeat(unit, m + n) == text::repeat(unit, m) + text::repeat(unit, n),
    decreases n,
{
    reveal_with_fuel(text::repeat, 2);
    assert(text::repeat(unit, 1) =~= unit);
    if n == 0 {
        assert(text::repeat(unit, m) + text::repeat(unit, 0) =~= text::repeat(unit, m));
    } else {
        copies_follow_each_other(unit, m, (n - 1) as nat);
        assert(text::repeat(unit, m + n) =~= text::repeat(unit, m) + text::repeat(unit, n));
    }
}

/// Replacing a character goes through a text character by character: the
/// character becomes the other text, and every other one stays.
pub proof fn characters_are_replaced_one_by_one(
    a: Seq<char>,
    b: Seq<char>,
    c: char,
    from: char,
    to: Seq<char>,
)
    ensures
        text::replace_char(a + b, from, to) == text::replace_char(a, from, to)
            + text::replace_char(b, from, to),
        text::replace_char(seq![c], from, to) == if c == from {
            to
        } else {
            seq![c]
        },
        text::replace_char(seq![], from, to).len() == 0,
    decreases b.len(),
{
    reveal_with_fuel(text::replace_char, 2);
    assert(seq![c].drop_last() =~= Seq::<char>::empty());
    assert(seq![c].last() == c);
    assert(text::replace_char(seq![c], from, to) =~= if c == from {
        to
    } else {
        seq![c]
    });
    if b.len() == 0 {
        assert(a + b =~= a);
        assert(text::replace_char(a, from, to) + text::replace_char(b, from, to)
            =~= text::replace_char(a, from, to));
    } else {
        characters_are_replaced_one_by_one(a, b.drop_last(), c, from, to);
        assert((a + b).drop_last() =~= a + b.drop_last());
        assert((a + b).last() == b.last());
        assert(text::replace_char(a + b, from, to) =~= text::replace_char(a, from, to)
            + text::replace_char(b, from, to));
    }
}

/// Texts one after the other are the texts flattened.
pub proof fn texts_follow_each_other(parts: Seq<Seq<char>>)
    ensures
        text::concat(parts) == parts.flatten(),
    decreases parts.len(),
{
    if parts.len() > 0 {
        texts_follow_each_other(parts.drop_last());
        parts.drop_last().lemma_flatten_push(parts.last());
        assert(parts.drop_last().push(parts.last()) =~= parts);
    } else {
        assert(text::concat(parts) =~= parts.flatten());
    }
}

/// A column is shown as its name, and after an at sign its position.
pub proof fn a_column_shows_its_name_and_position(name: Seq<char>, index: usize)
    ensures
        ({
            let shown = expr::expr_text(Expr::Column { name, index });
            &&& shown.len() > name.len() + 1
            &&& shown.take(name.len() as int) == name
            &&& shown[name.len() as int] == '@'
            &&& place_value(shown.skip(name.len() as int + 1)) == index
        }),
{
    reveal_strlit("@");
    a_decimal_number_is_read_back(index as nat);
    let shown = expr::expr_text(Expr::Column { name, index });
    assert(shown.take(name.len() as int) =~= name);
    assert(shown.skip(name.len() as int + 1) =~= text::decimal(index as nat));
}

/// An operator is shown between its operands, and a cast names its type; of the
/// symbols of operators no two are the same.
pub proof fn an_operator_is_shown_between_its_operands(
    left: Expr,
    op: Operator,
    other: Operator,
    right: Expr,
    t: DataType,
)
    ensures
        expr::expr_text(Expr::Binary { left: Box::new(left), op, right: Box::new(right) })
            == expr::expr_text(left) + seq![' '] + op.spec_symbol() + seq![' '] + expr::expr_text(
            right,
        ),
        expr::expr_text(Expr::Cast { expr: Box::new(left), data_type: t }) == "CAST("@
            + expr::expr_text(left) + " AS "@ + t.spec_name() + ")"@,
        op.spec_symbol() == other.spec_symbol() ==> op == other,
        Operator::Eq.spec_symbol() == "="@,
        Operator::NotEq.spec_symbol() == "!="@,
        Operator::Lt.spec_symbol() == "<"@,
        Operator::LtEq.spec_symbol() == "<="@,
        Operator::Gt.spec_symbol() == ">"@,
        Operator::GtEq.spec_symbol() == ">="@,
        Operator::And.spec_symbol() == "AND"@,
        Operator::Or.spec_symbol() == "OR"@,
        Operator::Plus.spec_symbol() == "+"@,
        Operator::Minus.spec_symbol() == "-"@,
        Operator::Multiply.spec_symbol() == "*"@,
        Operator::Divide.spec_symbol() == "/"@,
        Operator::Modulo.spec_symbol() == "%"@,
{
    reveal_strlit(" ");
    reveal_strlit("=");
    reveal_strlit("!=");
    reveal_strlit("<");
    reveal_strlit("<=");
    reveal_strlit(">");
    reveal_strlit(">=");
    reveal_strlit("AND");
    reveal_strlit("OR");
    reveal_strlit("+");
    reveal_strlit("-");
    reveal_strlit("*");
    reveal_strlit("/");
    reveal_strlit("%");
    assert(" "@ =~= seq![' ']);
    let a = op.spec_symbol();
    let b = other.spec_symbol();
    assert(a.len() > 0 && b.len() > 0);
    if a == b && op != other {
        assert(a[0] == b[0] && a.len() == b.len());
    }
}

/// A constant is shown as it is: whole numbers in decimal, truth values by their
/// names, and texts unchanged.
pub proof fn a_constant_shows_its_value(n: i64, m: u64, b: bool, s: Seq<char>)
    ensures
        n >= 0 ==> place_value(expr::scalar_text(Scalar::Int64(n))) == n,
        n < 0 ==> expr::scalar_text(Scalar::Int64(n)).len() > 0 && expr::scalar_text(
            Scalar::Int64(n),
        )[0] == '-' && place_value(expr::scalar_text(Scalar::Int64(n)).drop_first()) == -n,
        place_value(expr::scalar_text(Scalar::UInt64(m))) == m,
        expr::scalar_text(Scalar::Boolean(true)) == "true"@,
        expr::scalar_text(Scalar::Boolean(false)) == "false"@,
        expr::scalar_text(Scalar::Null) == "NULL"@,
        expr::scalar_text(Scalar::Utf8(s)) == s,
        i8::MIN <= n <= i8::MAX ==> expr::scalar_text(Scalar::Int8(n as i8)) == expr::scalar_text(
            Scalar::Int64(n),
        ),
        i16::MIN <= n <= i16::MAX ==> expr::scalar_text(Scalar::Int16(n as i16))
            == expr::scalar_text(Scalar::Int64(n)),
        i32::MIN <= n <= i32::MAX ==> expr::scalar_text(Scalar::Int32(n as i32))
            == expr::scalar_text(Scalar::Int64(n)),
        m <= u8::MAX ==> expr::scalar_text(Scalar::UInt8(m as u8)) == expr::scalar_text(
            Scalar::UInt64(m),
        ),
        m <= u16::MAX ==> expr::scalar_text(Scalar::UInt16(m as u16)) == expr::scalar_text(
            Scalar::UInt64(m),
        ),
        m <= u32::MAX ==> expr::scalar_text(Scalar::UInt32(m as u32)) == expr::scalar_text(
            Scalar::UInt64(m),
        ),
{
    a_negative_number_has_a_sign(n as int);
    if n >= 0 {
        a_decimal_number_is_read_back(n as nat);
    } else {
        a_decimal_number_is_read_back((-n) as nat);
    }
    a_decimal_number_is_read_back(m as nat);
}

/// An aggregate is shown as its function around its input.
pub proof fn an_aggregate_is_shown_around_its_input(a: AggregateExprModel)
    ensures
        aggregates::aggregate_text(a) == a.function.spec_name() + seq!['('] + expr::expr_text(
            a.input,
        ) + seq![')'],
        AggregateFunction::Sum.spec_name() == "SUM"@,
        AggregateFunction::Min.spec_name() == "MIN"@,
        AggregateFunction::Max.spec_name() == "MAX"@,
        AggregateFunction::Avg.spec_name() == "AVG"@,
        AggregateFunction::Count.spec_name() == "COUNT"@,
{
    reveal_strlit("(");
    reveal_strlit(")");
    assert("("@ =~= seq!['(']);
    assert(")"@ =~= seq![')']);
}

/// Of the stages of an aggregation, the last ones merge the states that earlier
/// stages hand on; a stage that hands on states takes values in, and one that
/// does the whole work neither merges nor hands on states.
pub proof fn stages_of_an_aggregation_fit_together(mode: AggregateMode)
    ensures
        AggregateMode::Partial.spec_emits_state() && !AggregateMode::Partial.spec_merges(),
        AggregateMode::PartialReduce.spec_emits_state()
            && !AggregateMode::PartialReduce.spec_merges(),
        AggregateMode::Final.spec_merges() && !AggregateMode::Final.spec_emits_state(),
        AggregateMode::FinalPartitioned.spec_merges()
            && !AggregateMode::FinalPartitioned.spec_emits_state(),
        mode == AggregateMode::Single || mode == AggregateMode::SinglePartitioned
            ==> !mode.spec_merges() && !mode.spec_emits_state(),
{
}

/// A direction is shown as ascending or descending, and says that nulls come last
/// exactly where they do.
pub proof fn a_direction_says_where_nulls_go(o: SortOptions)
    ensures
        sorting::options_text(o) == (if o.descending {
            "DESC"@
        } else {
            "ASC"@
        }) + (if o.nulls_first {
            seq![]
        } else {
            " NULLS LAST"@
        }),
{
    reveal_strlit("DESC");
    reveal_strlit("ASC");
    reveal_strlit(" NULLS LAST");
    reveal_strlit("DESC NULLS LAST");
    reveal_strlit("ASC NULLS LAST");
    assert("DESC NULLS LAST"@ =~= "DESC"@ + " NULLS LAST"@);
    assert("ASC NULLS LAST"@ =~= "ASC"@ + " NULLS LAST"@);
    assert("DESC"@ + seq![] =~= "DESC"@);
    assert("ASC"@ + seq![] =~= "ASC"@);
}

/// A rounded quotient is the nearest whole number, and the even one of two that
/// are equally near.
pub proof fn a_rounded_quotient_is_the_nearest(n: int, d: int)
    requires
        0 <= n,
        0 < d,
    ensures
        2 * (readable::rounded(n, d) * d - n) <= d,
        2 * (n - readable::rounded(n, d) * d) <= d,
        2 * (readable::rounded(n, d) * d - n) == d || 2 * (n - readable::rounded(n, d) * d) == d
            ==> readable::rounded(n, d) % 2 == 0,
{
    let q = n / d;
    vstd::arithmetic::div_mod::lemma_fundamental_div_mod(n, d);
    vstd::arithmetic::div_mod::lemma_mod_bound(n, d);
    assert((q + 1) * d == q * d + d) by (nonlinear_arith);
    assert(d * q == q * d) by (nonlinear_arith);
}

/// A number of which a double holds every digit is its own nearest double.
pub proof fn small_numbers_are_doubles(n: int)
    requires
        0 <= n < readable::SIGNIFICAND,
    ensures
        readable::as_double(n) == n,
{
    assert(readable::spacing(n, 1) == 1);
    assert(n % 1 == 0);
    assert(n / 1 == n);
}

/// Small counts and times are shown in full, and larger ones under the unit of
/// which there is at least one.
pub proof fn figures_are_shown_under_their_unit(n: int)
    requires
        0 <= n,
    ensures
        n < 1_000 ==> place_value(readable::count_text(n)) == n,
        1_000 <= n < 1_000_000 ==> readable::count_text(n) == readable::quotient_text(n, 1_000)
            + " K"@,
        1_000_000 <= n < 1_000_000_000 ==> readable::count_text(n) == readable::quotient_text(
            n,
            1_000_000,
        ) + " M"@,
        1_000_000_000 <= n < 1_000_000_000_000 ==> readable::count_text(n)
            == readable::quotient_text(n, 1_000_000_000) + " B"@,
        1_000_000_000_000 <= n ==> readable::count_text(n) == readable::quotient_text(
            n,
            1_000_000_000_000,
        ) + " T"@,
        n < 1_000 ==> readable::duration_text(n) == text::decimal(n as nat) + " ns"@,
        1_000 <= n < 1_000_000 ==> readable::duration_text(n) == readable::quotient_two_decimals(
            n,
            1_000,
        ) + " µs"@,
        1_000_000 <= n < 1_000_000_000 ==> readable::duration_text(n)
            == readable::quotient_two_decimals(n, 1_000_000) + " ms"@,
        1_000_000_000 <= n ==> readable::duration_text(n) == readable::quotient_two_decimals(
            n,
            1_000_000_000,
        ) + " s"@,
        n < 2_048 ==> readable::size_text(n) == readable::one_decimal(10 * n) + " B"@,
        2_048 <= n < 2_097_152 ==> readable::size_text(n) == readable::quotient_one_decimal(
            n,
            1_024,
        ) + " KB"@,
        2_097_152 <= n < 2_147_483_648 ==> readable::size_text(n)
            == readable::quotient_one_decimal(n, 1_048_576) + " MB"@,
        2_147_483_648 <= n < 2_199_023_255_552 ==> readable::size_text(n)
            == readable::quotient_one_decimal(n, 1_073_741_824) + " GB"@,
        2_199_023_255_552 <= n ==> readable::size_text(n) == readable::quotient_one_decimal(
            n,
            1_099_511_627_776,
        ) + " TB"@,
{
    a_decimal_number_is_read_back(n as nat);
}

/// A number with decimals shows its whole part before the point and then its
/// tenths, or its tenths and hundredths.
pub proof fn decimals_stand_behind_the_point(n: int)
    requires
        0 <= n,
    ensures
        readable::one_decimal(n) == text::decimal((n / 10) as nat) + seq!['.'] + text::decimal(
            (n % 10) as nat,
        ),
        readable::two_decimals(n) == text::decimal((n / 100) as nat) + seq!['.'] + text::decimal(
            (n / 10 % 10) as nat,
        ) + text::decimal((n % 10) as nat),
{
    reveal_strlit(".");
    assert("."@ =~= seq!['.']);
}

/// Bytes are shown one by one in decimal, with a comma between them.
pub proof fn bytes_are_shown_in_decimal(bytes: Seq<u8>, b: u8)
    ensures
        expr::scalar_text(Scalar::Binary(seq![])).len() == 0,
        place_value(expr::scalar_text(Scalar::Binary(seq![b]))) == b,
        bytes.len() > 0 ==> expr::scalar_text(Scalar::Binary(bytes.push(b))) == expr::scalar_text(
            Scalar::Binary(bytes),
        ) + seq![','] + expr::scalar_text(Scalar::Binary(seq![b])),
{
    reveal_strlit(",");
    assert(","@ =~= seq![',']);
    a_decimal_number_is_read_back(b as nat);
    let all = bytes.push(b);
    let texts = Seq::new(all.len(), |i: int| text::decimal(all[i] as nat));
    let before = Seq::new(bytes.len(), |i: int| text::decimal(bytes[i] as nat));
    assert(texts.drop_last() =~= before);
    assert(texts.last() == text::decimal(b as nat));
}

/// A day is shown as the calendar has it, counted from the first day of the first
/// year, and by its number where the calendar does not reach that far.
pub proof fn a_day_is_shown_as_the_calendar_has_it(days: i32)
    ensures
        days + 719_163 <= i32::MAX ==> match expr::calendar_day_text((days + 719_163) as i32) {
            Some(day) => expr::scalar_text(Scalar::Date32(days)) == day,
            None => expr::scalar_text(Scalar::Date32(days)) == expr::scalar_text(
                Scalar::Int32(days),
            ),
        },
        days + 719_163 > i32::MAX ==> expr::scalar_text(Scalar::Date32(days)) == expr::scalar_text(
            Scalar::Int32(days),
        ),
{
}

/// A grouping expression is shown with its output name, unless that is its text; a
/// grouping set shows in parentheses what stands for each expression: the null
/// expression where the set leaves the expression out, and itself elsewhere.
pub proof fn grouping_sets_show_what_they_leave_out(by: PhysicalGroupBy, g: int, i: int)
    requires
        by.has_grouping_set,
        0 <= g < by.groups@.len(),
        0 <= i < by.groups@[g]@.len(),
    ensures
        ({
            let left_out = by.groups@[g]@[i];
            let shown = aggregates::group_terms(by.expr@, by.null_expr@, by.groups@[g]@);
            let e = if left_out {
                by.null_expr@[i]
            } else {
                by.expr@[i]
            };
            &&& by.terms().len() == by.groups@.len()
            &&& by.terms()[g] == seq!['('] + text::join(shown, seq![',', ' ']) + seq![')']
            &&& shown.len() == by.groups@[g]@.len()
            &&& expr::expr_text(e.0@) == e.1@ ==> shown[i] == e.1@
            &&& expr::expr_text(e.0@) != e.1@ ==> shown[i] == expr::expr_text(e.0@) + " as "@
                + e.1@
        }),
{
    reveal_strlit("(");
    reveal_strlit(")");
    reveal_strlit(", ");
    assert("("@ =~= seq!['(']);
    assert(")"@ =~= seq![')']);
    assert(", "@ =~= seq![',', ' ']);
}

/// Without grouping sets every grouping expression is shown once, in order, with
/// its output name unless that is its text.
pub proof fn groupings_show_their_expressions(by: PhysicalGroupBy, i: int)
    requires
        !by.has_grouping_set,
        0 <= i < by.expr@.len(),
    ensures
        by.terms().len() == by.expr@.len(),
        expr::expr_text(by.expr@[i].0@) == by.expr@[i].1@ ==> by.terms()[i] == by.expr@[i].1@,
        expr::expr_text(by.expr@[i].0@) != by.expr@[i].1@ ==> by.terms()[i] == expr::expr_text(
            by.expr@[i].0@,
        ) + " as "@ + by.expr@[i].1@,
{
}

/// The number types are named after what they hold and how many bits they have.
pub proof fn number_types_are_named_after_their_width(n: nat)
    ensures
        n == 8 ==> DataType::Int8.spec_name() == "Int"@ + text::decimal(n)
            && DataType::UInt8.spec_name() == "UInt"@ + text::decimal(n),
        n == 16 ==> DataType::Int16.spec_name() == "Int"@ + text::decimal(n)
            && DataType::UInt16.spec_name() == "UInt"@ + text::decimal(n),
        n == 32 ==> DataType::Int32.spec_name() == "Int"@ + text::decimal(n)
            && DataType::UInt32.spec_name() == "UInt"@ + text::decimal(n)
            && DataType::Float32.spec_name() == "Float"@ + text::decimal(n)
            && DataType::Date32.spec_name() == "Date"@ + text::decimal(n),
        n == 64 ==> DataType::Int64.spec_name() == "Int"@ + text::decimal(n)
            && DataType::UInt64.spec_name() == "UInt"@ + text::decimal(n)
            && DataType::Float64.spec_name() == "Float"@ + text::decimal(n),
{
    reveal_strlit("Int8");
    reveal_strlit("Int16");
    reveal_strlit("Int32");
    reveal_strlit("Int64");
    reveal_strlit("UInt8");
    reveal_strlit("UInt16");
    reveal_strlit("UInt32");
    reveal_strlit("UInt64");
    reveal_strlit("Float32");
    reveal_strlit("Float64");
    reveal_strlit("Date32");
    reveal_strlit("Int");
    reveal_strlit("UInt");
    reveal_strlit("Float");
    reveal_strlit("Date");
    reveal_with_fuel(text::decimal, 3);
    assert(DataType::Int8.spec_name() =~= "Int"@ + text::decimal(8));
    assert(DataType::Int16.spec_name() =~= "Int"@ + text::decimal(16));
    assert(DataType::Int32.spec_name() =~= "Int"@ + text::decimal(32));
    assert(DataType::Int64.spec_name() =~= "Int"@ + text::decimal(64));
    assert(DataType::UInt8.spec_name() =~= "UInt"@ + text::decimal(8));
    assert(DataType::UInt16.spec_name() =~= "UInt"@ + text::decimal(16));
    assert(DataType::UInt32.spec_name() =~= "UInt"@ + text::decimal(32));
    assert(DataType::UInt64.spec_name() =~= "UInt"@ + text::decimal(64));
    assert(DataType::Float32.spec_name() =~= "Float"@ + text::decimal(32));
    assert(DataType::Float64.spec_name() =~= "Float"@ + text::decimal(64));
    assert(DataType::Date32.spec_name() =~= "Date"@ + text::decimal(32));
}

/// The other types go by their names.
pub proof fn other_types_go_by_their_names()
    ensures
        DataType::Null.spec_name() == "Null"@,
        DataType::Boolean.spec_name() == "Boolean"@,
        DataType::Utf8.spec_name() == "Utf8"@,
        DataType::Binary.spec_name() == "Binary"@,
{
}

/// No two kinds of join have one name, and the semi, anti and mark joins are named
/// after their side.
pub proof fn joins_are_named_after_their_side(a: JoinType, b: JoinType)
    ensures
        a.spec_name() == b.spec_name() ==> a == b,
        JoinType::LeftSemi.spec_name() == JoinType::Left.spec_name() + "Semi"@,
        JoinType::RightSemi.spec_name() == JoinType::Right.spec_name() + "Semi"@,
        JoinType::LeftAnti.spec_name() == JoinType::Left.spec_name() + "Anti"@,
        JoinType::RightAnti.spec_name() == JoinType::Right.spec_name() + "Anti"@,
        JoinType::LeftMark.spec_name() == JoinType::Left.spec_name() + "Mark"@,
        JoinType::RightMark.spec_name() == JoinType::Right.spec_name() + "Mark"@,
        JoinType::Left.spec_name() == "Left"@,
        JoinType::Right.spec_name() == "Right"@,
        JoinType::Inner.spec_name() == "Inner"@,
        JoinType::Full.spec_name() == "Full"@,
{
    reveal_strlit("Inner");
    reveal_strlit("Left");
    reveal_strlit("Right");
    reveal_strlit("Full");
    reveal_strlit("LeftSemi");
    reveal_strlit("RightSemi");
    reveal_strlit("LeftAnti");
    reveal_strlit("RightAnti");
    reveal_strlit("LeftMark");
    reveal_strlit("RightMark");
    reveal_strlit("Semi");
    reveal_strlit("Anti");
    reveal_strlit("Mark");
    assert(JoinType::LeftSemi.spec_name() =~= "Left"@ + "Semi"@);
    assert(JoinType::RightSemi.spec_name() =~= "Right"@ + "Semi"@);
    assert(JoinType::LeftAnti.spec_name() =~= "Left"@ + "Anti"@);
    assert(JoinType::RightAnti.spec_name() =~= "Right"@ + "Anti"@);
    assert(JoinType::LeftMark.spec_name() =~= "Left"@ + "Mark"@);
    assert(JoinType::RightMark.spec_name() =~= "Right"@ + "Mark"@);
    let x = a.spec_name();
    let y = b.spec_name();
    if x == y {
        assert(x.len() == y.len() && x[0] == y[0]);
        assert(x.len() > 5 ==> x[4] == y[4] && x[5] == y[5]);
    }
}

/// No two modes of an aggregation have one name, and those that work on
/// partitions are named after those that do not.
pub proof fn modes_are_named_after_their_work(a: AggregateMode, b: AggregateMode)
    ensures
        a.spec_name() == b.spec_name() ==> a == b,
        AggregateMode::FinalPartitioned.spec_name() == AggregateMode::Final.spec_name()
            + "Partitioned"@,
        AggregateMode::SinglePartitioned.spec_name() == AggregateMode::Single.spec_name()
            + "Partitioned"@,
        AggregateMode::PartialReduce.spec_name() == AggregateMode::Partial.spec_name()
            + "Reduce"@,
        AggregateMode::Final.spec_name() == "Final"@,
        AggregateMode::Single.spec_name() == "Single"@,
        AggregateMode::Partial.spec_name() == "Partial"@,
{
    reveal_strlit("Partial");
    reveal_strlit("Final");
    reveal_strlit("FinalPartitioned");
    reveal_strlit("Single");
    reveal_strlit("SinglePartitioned");
    reveal_strlit("PartialReduce");
    reveal_strlit("Partitioned");
    reveal_strlit("Reduce");
    assert(AggregateMode::FinalPartitioned.spec_name() =~= "Final"@ + "Partitioned"@);
    assert(AggregateMode::SinglePartitioned.spec_name() =~= "Single"@ + "Partitioned"@);
    assert(AggregateMode::PartialReduce.spec_name() =~= "Partial"@ + "Reduce"@);
    let x = a.spec_name();
    let y = b.spec_name();
    if x == y {
        assert(x.len() == y.len());
    }
}

/// No two operators on truth values and comparisons have one name, and the
/// comparisons that hold for equal operands too are named after those that do not.
pub proof fn comparisons_are_named_after_each_other(a: BooleanExpression, b: BooleanExpression)
    ensures
        a.spec_op_name() == b.spec_op_name() ==> a == b,
        BooleanExpression::LtEq.spec_op_name() == BooleanExpression::Lt.spec_op_name()
            + BooleanExpression::Eq.spec_op_name(),
        BooleanExpression::GtEq.spec_op_name() == BooleanExpression::Gt.spec_op_name()
            + BooleanExpression::Eq.spec_op_name(),
        BooleanExpression::Neq.spec_op_name() == seq!['n'] + BooleanExpression::Eq.spec_op_name(),
        BooleanExpression::Eq.spec_op_name() == "eq"@,
        BooleanExpression::Lt.spec_op_name() == "lt"@,
        BooleanExpression::Gt.spec_op_name() == "gt"@,
        BooleanExpression::And.spec_op_name() == "and"@,
        BooleanExpression::Or.spec_op_name() == "or"@,
{
    reveal_strlit("and");
    reveal_strlit("or");
    reveal_strlit("eq");
    reveal_strlit("neq");
    reveal_strlit("lt");
    reveal_strlit("lteq");
    reveal_strlit("gt");
    reveal_strlit("gteq");
    assert(BooleanExpression::LtEq.spec_op_name() =~= "lt"@ + "eq"@);
    assert(BooleanExpression::GtEq.spec_op_name() =~= "gt"@ + "eq"@);
    assert(BooleanExpression::Neq.spec_op_name() =~= seq!['n'] + "eq"@);
    let x = a.spec_op_name();
    let y = b.spec_op_name();
    if x == y {
        assert(x.len() == y.len() && x[0] == y[0]);
    }
}

/// A field shows its type, its name unless it is the item of a list, and that it
/// may be null where it may.
pub proof fn a_field_shows_its_type(field: FieldModel)
    ensures
        field.name != "item"@ && field.nullable ==> schema::field_debug(field) == "Field { "@
            + "name: "@ + text::quoted_text(field.name) + ", "@ + "data_type: "@
            + field.data_type.spec_name() + ", nullable: true"@ + " }"@,
        field.name != "item"@ && !field.nullable ==> schema::field_debug(field) == "Field { "@
            + "name: "@ + text::quoted_text(field.name) + ", "@ + "data_type: "@
            + field.data_type.spec_name() + " }"@,
        field.name == "item"@ && !field.nullable ==> schema::field_debug(field) == "Field { "@
            + "data_type: "@ + field.data_type.spec_name() + " }"@,
{
    if field.name != "item"@ && field.nullable {
        assert(schema::field_debug(field) =~= "Field { "@ + "name: "@ + text::quoted_text(
            field.name,
        ) + ", "@ + "data_type: "@ + field.data_type.spec_name() + ", nullable: true"@ + " }"@);
    }
    if field.name != "item"@ && !field.nullable {
        assert(schema::field_debug(field) =~= "Field { "@ + "name: "@ + text::quoted_text(
            field.name,
        ) + ", "@ + "data_type: "@ + field.data_type.spec_name() + " }"@);
    }
    if field.name == "item"@ && !field.nullable {
        assert(schema::field_debug(field) =~= "Field { "@ + "data_type: "@
            + field.data_type.spec_name() + " }"@);
    }
}

/// Whether `q` is nearest to the quotient of `n` by `d`.
pub open spec fn nearest(q: int, n: int, d: int) -> bool {
    2 * (q * d - n) <= d && 2 * (n - q * d) <= d
}

/// A quotient is shown to the nearest tenth or hundredth of the double that is
/// nearest to it: of its binary digits as many are kept as a double has room for.
pub proof fn a_quotient_is_shown_to_the_nearest(n: int, d: int) -> (q: (int, int, int, int))
    requires
        0 <= n < readable::SIGNIFICAND,
        0 < d,
    ensures
        ({
            let (numerator, denominator, tenths, hundredths) = q;
            &&& 0 < denominator
            &&& nearest(numerator, n * denominator, d)
            &&& n * denominator < d * readable::SIGNIFICAND
            &&& denominator == readable::HALF_SIGNIFICAND || d * readable::SIGNIFICAND <= n * (2
                * denominator + 1)
            &&& nearest(tenths, 10 * numerator, denominator)
            &&& nearest(hundredths, 100 * numerator, denominator)
            &&& readable::quotient_one_decimal(n, d) == readable::one_decimal(tenths)
            &&& readable::quotient_two_decimals(n, d) == readable::two_decimals(hundredths)
            &&& readable::quotient_text(n, d) == if numerator >= 100 * denominator {
                readable::one_decimal(tenths)
            } else {
                readable::two_decimals(hundredths)
            }
        }),
{
    small_numbers_are_doubles(n);
    let full = readable::HALF_SIGNIFICAND as int;
    assert(n < d * readable::SIGNIFICAND) by (nonlinear_arith)
        requires
            n < readable::SIGNIFICAND,
            0 < d,
    ;
    scaled(n, d, full);
    let (numerator, denominator) = readable::double_quotient(n, d);
    assert(0 <= n * denominator) by (nonlinear_arith)
        requires
            0 <= n,
            0 < denominator,
    ;
    a_rounded_quotient_is_the_nearest(n * denominator, d);
    assert(0 <= n * denominator / d) by (nonlinear_arith)
        requires
            0 <= n * denominator,
            0 < d,
    ;
    assert(0 <= numerator);
    let tenths = readable::rounded(numerator * 10, denominator);
    let hundredths = readable::rounded(numerator * 100, denominator);
    a_rounded_quotient_is_the_nearest(numerator * 10, denominator);
    a_rounded_quotient_is_the_nearest(numerator * 100, denominator);
    (numerator, denominator, tenths, hundredths)
}

proof fn scaled(n: int, d: int, scale: int)
    requires
        0 <= n < d * readable::SIGNIFICAND,
        0 < d,
        0 < scale,
    ensures
        ({
            let s = readable::quotient_scale(n, d, scale);
            &&& 0 < s
            &&& n * s < d * readable::SIGNIFICAND
            &&& s == scale || d * readable::SIGNIFICAND <= n * (2 * s + 1)
        }),
    decreases scale,
{
    if n * scale >= d * readable::SIGNIFICAND {
        assert(scale >= 2) by (nonlinear_arith)
            requires
                n * scale >= d * readable::SIGNIFICAND,
                0 <= n < d * readable::SIGNIFICAND,
                0 < scale,
        ;
        let half = scale / 2;
        scaled(n, d, half);
        let s = readable::quotient_scale(n, d, half);
        if s == half {
            assert(n * scale <= n * (2 * half + 1)) by (nonlinear_arith)
                requires
                    scale <= 2 * half + 1,
                    0 <= n,
            ;
        }
    }
}

/// A large number is shown as the nearest one that a double has room for: a
/// multiple of the power of two that leaves it its significant digits.
pub proof fn a_large_number_is_its_nearest_double(n: int)
    requires
        0 <= n,
    ensures
        ({
            let unit = readable::spacing(n, 1);
            &&& 0 < unit
            &&& n < unit * readable::SIGNIFICAND
            &&& unit == 1 || (unit / 2) * readable::SIGNIFICAND <= n
            &&& readable::as_double(n) % unit == 0
            &&& 2 * (readable::as_double(n) - n) <= unit
            &&& 2 * (n - readable::as_double(n)) <= unit
        }),
{
    spaced(n, 1);
    let unit = readable::spacing(n, 1);
    a_rounded_quotient_is_the_nearest(n, unit);
    vstd::arithmetic::div_mod::lemma_mod_multiples_basic(readable::rounded(n, unit), unit);
}

proof fn spaced(n: int, unit: int)
    requires
        0 <= n,
        0 < unit,
    ensures
        0 < readable::spacing(n, unit),
        n < readable::spacing(n, unit) * readable::SIGNIFICAND,
        readable::spacing(n, unit) == unit || (readable::spacing(n, unit) / 2)
            * readable::SIGNIFICAND <= n,
    decreases n - unit,
{
    if n >= unit * readable::SIGNIFICAND {
        spaced(n, 2 * unit);
    }
}

} // verus!
