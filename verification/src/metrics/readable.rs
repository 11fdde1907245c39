//! Sizes, counts and durations for people to read.
//!
//! The figures shown are those of double-precision arithmetic: the number is
//! rounded to 53 significant bits, divided by the unit, rounded to 53 bits
//! again, and printed with one or two decimals. All of that is done here with
//! integers, every rounding being to the nearest and to even on a tie.
use vstd::prelude::*;
use crate::text::push_decimal;
use crate::text;

verus! {

/// One tebibyte.
pub const TB: u64 = 1_099_511_627_776;

/// One gibibyte.
pub const GB: u64 = 1_073_741_824;

/// One mebibyte.
pub const MB: u64 = 1_048_576;

/// One kibibyte.
pub const KB: u64 = 1_024;

/// Two to the power of 53: what a double has room for.
pub const SIGNIFICAND: u128 = 9_007_199_254_740_992;

/// Two to the power of 52.
pub const HALF_SIGNIFICAND: u128 = 4_503_599_627_370_496;

/// `n / d` to the nearest integer, to even on a tie.
pub open spec fn rounded(n: int, d: int) -> int {
    let q = n / d;
    let r = n % d;
    if 2 * r < d || (2 * r == d && q % 2 == 0) {
        q
    } else {
        q + 1
    }
}

/// The distance between neighbouring doubles near `n`, found by doubling `unit`.
pub open spec fn spacing(n: int, unit: int) -> int
    decreases n - unit,
{
    if unit <= 0 || n < unit * SIGNIFICAND {
        unit
    } else {
        spacing(n, 2 * unit)
    }
}

/// The double nearest to `n`.
pub open spec fn as_double(n: int) -> int {
    rounded(n, spacing(n, 1)) * spacing(n, 1)
}

/// The power of two by which a quotient is scaled to 53 significant bits, found
/// by halving `scale`.
pub open spec fn quotient_scale(n: int, d: int, scale: int) -> int
    decreases scale,
{
    if scale <= 0 || n * scale < d * SIGNIFICAND {
        scale
    } else {
        quotient_scale(n, d, scale / 2)
    }
}

/// The double nearest to `as_double(n) / d`, as a numerator and a denominator
/// that is a power of two.
pub open spec fn double_quotient(n: int, d: int) -> (int, int) {
    let c = as_double(n);
    let scale = quotient_scale(c, d, HALF_SIGNIFICAND as int);
    (rounded(c * scale, d), scale)
}

/// `tenths` tenths with one decimal.
pub open spec fn one_decimal(tenths: int) -> Seq<char> {
    text::decimal((tenths / 10) as nat) + "."@ + text::decimal((tenths % 10) as nat)
}

/// `hundredths` hundredths with two decimals.
pub open spec fn two_decimals(hundredths: int) -> Seq<char> {
    text::decimal((hundredths / 100) as nat) + "."@ + text::decimal(
        (hundredths / 10 % 10) as nat,
    ) + text::decimal((hundredths % 10) as nat)
}

/// A quotient with one decimal.
pub open spec fn quotient_one_decimal(n: int, d: int) -> Seq<char> {
    let (numerator, denominator) = double_quotient(n, d);
    one_decimal(rounded(numerator * 10, denominator))
}

/// A quotient with two decimals.
pub open spec fn quotient_two_decimals(n: int, d: int) -> Seq<char> {
    let (numerator, denominator) = double_quotient(n, d);
    two_decimals(rounded(numerator * 100, denominator))
}

/// A quotient with one decimal from one hundred on, and with two below.
pub open spec fn quotient_text(n: int, d: int) -> Seq<char> {
    let (numerator, denominator) = double_quotient(n, d);
    if numerator >= 100 * denominator {
        quotient_one_decimal(n, d)
    } else {
        quotient_two_decimals(n, d)
    }
}

/// A number of bytes in the largest unit of which there are at least two, with
/// one decimal.
pub open spec fn size_text(size: int) -> Seq<char> {
    if size >= 2 * TB {
        quotient_one_decimal(size, TB as int) + " TB"@
    } else if size >= 2 * GB {
        quotient_one_decimal(size, GB as int) + " GB"@
    } else if size >= 2 * MB {
        quotient_one_decimal(size, MB as int) + " MB"@
    } else if size >= 2 * KB {
        quotient_one_decimal(size, KB as int) + " KB"@
    } else {
        one_decimal(size * 10) + " B"@
    }
}

/// A count in thousands, millions, billions or trillions; below a thousand, as
/// it is.
pub open spec fn count_text(count: int) -> Seq<char> {
    if count >= 1_000_000_000_000 {
        quotient_text(count, 1_000_000_000_000) + " T"@
    } else if count >= 1_000_000_000 {
        quotient_text(count, 1_000_000_000) + " B"@
    } else if count >= 1_000_000 {
        quotient_text(count, 1_000_000) + " M"@
    } else if count >= 1_000 {
        quotient_text(count, 1_000) + " K"@
    } else {
        text::decimal(count as nat)
    }
}

/// A number of nanoseconds in seconds, milliseconds or microseconds with two
/// decimals; below a microsecond, as it is.
pub open spec fn duration_text(nanos: int) -> Seq<char> {
    if nanos >= 1_000_000_000 {
        quotient_two_decimals(nanos, 1_000_000_000) + " s"@
    } else if nanos >= 1_000_000 {
        quotient_two_decimals(nanos, 1_000_000) + " ms"@
    } else if nanos >= 1_000 {
        quotient_two_decimals(nanos, 1_000) + " µs"@
    } else {
        text::decimal(nanos as nat) + " ns"@
    }
}

fn round_div(n: u128, d: u128) -> (r: u128)
    requires
        0 < d <= 0x1_0000_0000_0000_0000_0000_0000,
        n < 0x1_0000_0000_0000_0000_0000_0000_0000_0000int / 4,
    ensures
        r == rounded(n as int, d as int),
        r <= n / d + 1,
{
    let q: u128 = n / d;
    let r: u128 = n % d;
    assert(q <= n) by (nonlinear_arith)
        requires
            q == n / d,
            d > 0,
    ;
    if 2 * r < d || (2 * r == d && q % 2 == 0) {
        q
    } else {
        q + 1
    }
}

/// The double nearest to `n`.
fn nearest_double(n: u64) -> (r: u128)
    ensures
        r == as_double(n as int),
        r <= n + 4096,
{
    let n: u128 = n as u128;
    let mut unit: u128 = 1;
    while n >= unit * SIGNIFICAND
        invariant
            1 <= unit <= 4096,
            n < 0x1_0000_0000_0000_0000,
            spacing(n as int, 1) == spacing(n as int, unit as int),
        decreases n - unit,
    {
        unit = unit * 2;
    }
    let m: u128 = round_div(n, unit);
    assert(m * unit <= n + unit) by (nonlinear_arith)
        requires
            m <= n / unit + 1,
            1 <= unit,
    ;
    m * unit
}

/// The double nearest to `as_double(n) / d`, as a numerator and a denominator.
fn quotient(n: u64, d: u64) -> (r: (u128, u128))
    requires
        0 < d <= 1_099_511_627_776,
        n <= d * 1_099_511_627_776,
    ensures
        r.0 == double_quotient(n as int, d as int).0,
        r.1 == double_quotient(n as int, d as int).1,
        0 < r.1 <= HALF_SIGNIFICAND,
        r.0 <= SIGNIFICAND,
{
    let c: u128 = nearest_double(n);
    let d: u128 = d as u128;
    let mut scale: u128 = HALF_SIGNIFICAND;
    assert(c * scale <= 0x1_0000_0000_0000_1000 * HALF_SIGNIFICAND) by (nonlinear_arith)
        requires
            c <= 0x1_0000_0000_0000_1000,
            scale == HALF_SIGNIFICAND,
    ;
    while c * scale >= d * SIGNIFICAND
        invariant
            0 < d <= 1_099_511_627_776,
            c <= d * 1_099_511_627_776 + 4096,
            1 <= scale <= HALF_SIGNIFICAND,
            c * scale <= 0x1_0000_0000_0000_1000 * HALF_SIGNIFICAND,
            quotient_scale(c as int, d as int, HALF_SIGNIFICAND as int) == quotient_scale(
                c as int,
                d as int,
                scale as int,
            ),
        decreases scale,
    {
        assert(scale > 1) by (nonlinear_arith)
            requires
                c * scale >= d * SIGNIFICAND,
                c <= d * 1_099_511_627_776 + 4096,
                0 < d,
                1 <= scale,
        ;
        assert(c * (scale / 2) <= c * scale) by (nonlinear_arith)
            requires
                scale > 1,
                0 <= c,
        ;
        scale = scale / 2;
    }
    let numerator: u128 = round_div(c * scale, d);
    assert(c * scale / (d as int) < SIGNIFICAND) by (nonlinear_arith)
        requires
            c * scale < d * SIGNIFICAND,
            0 < d,
            0 <= c * scale,
    ;
    (numerator, scale)
}

fn push_one_decimal(out: &mut String, tenths: u128)
    ensures
        final(out)@ == old(out)@ + one_decimal(tenths as int),
{
    push_decimal(out, tenths / 10);
    out.append(".");
    push_decimal(out, tenths % 10);
    assert(out@ == old(out)@ + one_decimal(tenths as int));
}

fn push_two_decimals(out: &mut String, hundredths: u128)
    ensures
        final(out)@ == old(out)@ + two_decimals(hundredths as int),
{
    push_decimal(out, hundredths / 100);
    out.append(".");
    push_decimal(out, hundredths / 10 % 10);
    push_decimal(out, hundredths % 10);
    assert(out@ == old(out)@ + two_decimals(hundredths as int));
}

fn quotient_one_decimal_string(n: u64, d: u64, unit: &str) -> (r: String)
    requires
        0 < d <= 1_099_511_627_776,
        n <= d * 1_099_511_627_776,
    ensures
        r@ == quotient_one_decimal(n as int, d as int) + unit@,
{
    let (numerator, denominator) = quotient(n, d);
    let mut out: String = String::new();
    push_one_decimal(&mut out, round_div(numerator * 10, denominator));
    out.append(unit);
    assert(out@ == quotient_one_decimal(n as int, d as int) + unit@);
    out
}

fn quotient_two_decimals_string(n: u64, d: u64, unit: &str) -> (r: String)
    requires
        0 < d <= 1_099_511_627_776,
        n <= d * 1_099_511_627_776,
    ensures
        r@ == quotient_two_decimals(n as int, d as int) + unit@,
{
    let (numerator, denominator) = quotient(n, d);
    let mut out: String = String::new();
    push_two_decimals(&mut out, round_div(numerator * 100, denominator));
    out.append(unit);
    assert(out@ == quotient_two_decimals(n as int, d as int) + unit@);
    out
}

fn quotient_string(n: u64, d: u64, unit: &str) -> (r: String)
    requires
        0 < d <= 1_099_511_627_776,
        n <= d * 1_099_511_627_776,
    ensures
        r@ == quotient_text(n as int, d as int) + unit@,
{
    let (numerator, denominator) = quotient(n, d);
    if numerator >= 100 * denominator {
        quotient_one_decimal_string(n, d, unit)
    } else {
        quotient_two_decimals_string(n, d, unit)
    }
}

/// A number of bytes for people to read.
pub fn human_readable_size(size: usize) -> (r: String)
    ensures
        r@ == size_text(size as int),
{
    let size: u64 = size as u64;
    if size >= 2 * TB {
        quotient_one_decimal_string(size, TB, " TB")
    } else if size >= 2 * GB {
        quotient_one_decimal_string(size, GB, " GB")
    } else if size >= 2 * MB {
        quotient_one_decimal_string(size, MB, " MB")
    } else if size >= 2 * KB {
        quotient_one_decimal_string(size, KB, " KB")
    } else {
        let mut out: String = String::new();
        push_one_decimal(&mut out, size as u128 * 10);
        out.append(" B");
        assert(out@ == size_text(size as int));
        out
    }
}

/// A count for people to read.
pub fn human_readable_count(count: usize) -> (r: String)
    ensures
        r@ == count_text(count as int),
{
    let count: u64 = count as u64;
    if count >= 1_000_000_000_000 {
        quotient_string(count, 1_000_000_000_000, " T")
    } else if count >= 1_000_000_000 {
        quotient_string(count, 1_000_000_000, " B")
    } else if count >= 1_000_000 {
        quotient_string(count, 1_000_000, " M")
    } else if count >= 1_000 {
        quotient_string(count, 1_000, " K")
    } else {
        text::decimal_string(count as u128)
    }
}

/// A number of nanoseconds for people to read.
pub fn human_readable_duration(nanos: u64) -> (r: String)
    ensures
        r@ == duration_text(nanos as int),
{
    if nanos >= 1_000_000_000 {
        quotient_two_decimals_string(nanos, 1_000_000_000, " s")
    } else if nanos >= 1_000_000 {
        quotient_two_decimals_string(nanos, 1_000_000, " ms")
    } else if nanos >= 1_000 {
        quotient_two_decimals_string(nanos, 1_000, " µs")
    } else {
        let mut out: String = text::decimal_string(nanos as u128);
        out.append(" ns");
        out
    }
}

} // verus!
