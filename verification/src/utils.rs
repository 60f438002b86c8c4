//! Shared utilities across multiple components.

use vstd::prelude::*;
use vstd::arithmetic::div_mod::{lemma_fundamental_div_mod, lemma_fundamental_div_mod_converse};

verus! {

/// The maximum number of general-purpose argument registers supported.
pub const MAX_GP_ARG_REGS: usize = 6;

/// The maximum number of floating-point argument registers supported.
pub const MAX_FP_ARG_REGS: usize = 8;

/// The byte size of the hidden `__va_area__` for variadic functions.
///
/// - 24 bytes for the `__va_elem` bookkeeping struct;
/// - 8 bytes per general-purpose arg register;
/// - 8 bytes per floating-point arg register.
pub const VA_AREA_SIZE: usize = 136;

/// The least multiple of `align` that is not below `n`.
pub open spec fn align_up(n: int, align: int) -> int {
    (n + align - 1) / align * align
}

/// The greatest multiple of `align` that is not above `n`.
pub open spec fn align_down(n: int, align: int) -> int {
    n / align * align
}

/// Rounding up gives a multiple of `align`, not below `n`, and no multiple of
/// `align` lies between the two.
pub proof fn align_up_is_least_multiple(n: int, align: int)
    requires
        0 <= n,
        0 < align,
    ensures
        align_up(n, align) % align == 0,
        n <= align_up(n, align) < n + align,
        forall|m: int| n <= m && #[trigger] (m % align) == 0 ==> align_up(n, align) <= m,
{
    let q = (n + align - 1) / align;
    lemma_fundamental_div_mod(n + align - 1, align);
    assert(align_up(n, align) == align * q) by (nonlinear_arith)
        requires
            align_up(n, align) == q * align,
    ;
    lemma_fundamental_div_mod_converse(align_up(n, align), align, q, 0);
    assert forall|m: int| n <= m && #[trigger] (m % align) == 0 implies align_up(n, align) <= m by {
        lemma_fundamental_div_mod(m, align);
        let k = m / align;
        assert(q <= k) by (nonlinear_arith)
            requires
                align * q <= n + align - 1,
                n <= m,
                m == align * k,
                0 < align,
        ;
        assert(align * q <= align * k) by (nonlinear_arith)
            requires
                q <= k,
                0 < align,
        ;
    }
}

/// Rounding down gives a multiple of `align`, not above `n`, and no multiple of
/// `align` lies between the two.
pub proof fn align_down_is_greatest_multiple(n: int, align: int)
    requires
        0 <= n,
        0 < align,
    ensures
        align_down(n, align) % align == 0,
        n - align < align_down(n, align) <= n,
        forall|m: int| m <= n && #[trigger] (m % align) == 0 ==> m <= align_down(n, align),
{
    let q = n / align;
    lemma_fundamental_div_mod(n, align);
    assert(align_down(n, align) == align * q) by (nonlinear_arith)
        requires
            align_down(n, align) == q * align,
    ;
    lemma_fundamental_div_mod_converse(align_down(n, align), align, q, 0);
    assert forall|m: int| m <= n && #[trigger] (m % align) == 0 implies m <= align_down(n, align) by {
        lemma_fundamental_div_mod(m, align);
        let k = m / align;
        assert(k <= q) by (nonlinear_arith)
            requires
                n < align * q + align,
                m <= n,
                m == align * k,
                0 < align,
        ;
        assert(align * k <= align * q) by (nonlinear_arith)
            requires
                k <= q,
                0 < align,
        ;
    }
}

/// Rounding up what is already a multiple changes nothing.
pub proof fn align_up_is_idempotent(n: int, align: int)
    requires
        0 <= n,
        0 < align,
    ensures
        align_up(align_up(n, align), align) == align_up(n, align),
{
    align_up_is_least_multiple(n, align);
    align_up_is_least_multiple(align_up(n, align), align);
}

/// Round `n` up to the nearest multiple of `align`, if that fits.
pub fn checked_align_up_to(n: u64, align: u64) -> (r: Option<u64>)
    requires
        align > 0,
    ensures
        r == (if align_up(n as int, align as int) <= u64::MAX {
            Some(align_up(n as int, align as int) as u64)
        } else {
            None
        }),
{
    proof {
        align_up_is_least_multiple(n as int, align as int);
        lemma_fundamental_div_mod(n as int, align as int);
    }
    let rem: u64 = n % align;
    if rem == 0 {
        return Some(n);
    }
    let base: u64 = n - rem;
    proof {
        let a = align as int;
        let q = n as int / a;
        assert(base + a == a * (q + 1)) by (nonlinear_arith)
            requires
                base == a * q,
        ;
        lemma_fundamental_div_mod_converse(base + a, a, q + 1, 0);
        let u = align_up(n as int, a);
        lemma_fundamental_div_mod(u, a);
        let k = u / a;
        assert(k > q) by (nonlinear_arith)
            requires
                u == a * k,
                u >= n,
                n > base,
                base == a * q,
                a > 0,
        ;
        assert(a * k >= a * (q + 1)) by (nonlinear_arith)
            requires
                k >= q + 1,
                a > 0,
        ;
    }
    base.checked_add(align)
}

/// Round `n` up to the nearest multiple of `align`.
pub fn align_up_to(n: u64, align: u64) -> (r: u64)
    requires
        align > 0,
        align_up(n as int, align as int) <= u64::MAX,
    ensures
        r == align_up(n as int, align as int),
{
    match checked_align_up_to(n, align) {
        Some(r) => r,
        None => 0,
    }
}

/// Round `n` down to the nearest multiple of `align`.
pub fn align_down_to(n: u64, align: u64) -> (r: u64)
    requires
        align > 0,
    ensures
        r == align_down(n as int, align as int),
{
    proof {
        align_down_is_greatest_multiple(n as int, align as int);
    }
    n / align * align
}

/// The decimal digits of a number.
pub open spec fn digits(n: nat) -> Seq<u8>
    decreases n,
{
    if n < 10 {
        seq![(48 + n) as u8]
    } else {
        digits(n / 10).push((48 + n % 10) as u8)
    }
}

/// Append the decimal digits of a number.
pub fn push_digits(out: &mut Vec<u8>, n: u128)
    ensures
        final(out)@ == old(out)@ + digits(n as nat),
    decreases n,
{
    if n >= 10 {
        push_digits(out, n / 10);
    }
    out.push((48 + n % 10) as u8);
    assert(out@ =~= old(out)@ + digits(n as nat));
}

/// Append some bytes.
pub fn push_bytes(out: &mut Vec<u8>, bytes: &[u8])
    ensures
        final(out)@ == old(out)@ + bytes@,
{
    let mut i: usize = 0;
    while i < bytes.len()
        invariant
            i <= bytes.len(),
            out@ =~= old(out)@ + bytes@.take(i as int),
        decreases bytes.len() - i,
    {
        out.push(bytes[i]);
        i += 1;
        assert(bytes@.take(i as int) =~= bytes@.take(i - 1).push(bytes@[i - 1]));
    }
    assert(bytes@.take(bytes@.len() as int) =~= bytes@);
}

/// A digit below 16 in lower case.
pub open spec fn hex_digit(n: nat) -> u8 {
    if n < 10 {
        (48 + n) as u8
    } else {
        (87 + n) as u8
    }
}

/// The hexadecimal digits of a number, at least as many as the given width.
pub open spec fn padded_hex(n: nat, width: nat) -> Seq<u8>
    decreases n, width,
{
    if n < 16 && width <= 1 {
        seq![hex_digit(n)]
    } else {
        padded_hex(
            n / 16,
            if width > 0 {
                (width - 1) as nat
            } else {
                0
            },
        ).push(hex_digit(n % 16))
    }
}

/// Append the hexadecimal digits of a number.
pub fn push_padded_hex(out: &mut Vec<u8>, n: u64, width: u64)
    ensures
        final(out)@ == old(out)@ + padded_hex(n as nat, width as nat),
    decreases n, width,
{
    if n >= 16 || width > 1 {
        push_padded_hex(
            out,
            n / 16,
            if width > 0 {
                width - 1
            } else {
                0
            },
        );
    }
    let digit: u64 = n % 16;
    if digit < 10 {
        out.push((48 + digit) as u8);
    } else {
        out.push((87 + digit) as u8);
    }
    assert(out@ =~= old(out)@ + padded_hex(n as nat, width as nat));
}

/// The name of a month, counted from 0.
pub open spec fn month_name(month: int) -> Seq<char> {
    if month == 0 {
        "Jan"@
    } else if month == 1 {
        "Feb"@
    } else if month == 2 {
        "Mar"@
    } else if month == 3 {
        "Apr"@
    } else if month == 4 {
        "May"@
    } else if month == 5 {
        "Jun"@
    } else if month == 6 {
        "Jul"@
    } else if month == 7 {
        "Aug"@
    } else if month == 8 {
        "Sep"@
    } else if month == 9 {
        "Oct"@
    } else if month == 10 {
        "Nov"@
    } else {
        "Dec"@
    }
}

fn name_of_month(month: u32) -> (r: &'static str)
    ensures
        r@ == month_name(month as int),
{
    match month {
        0 => "Jan",
        1 => "Feb",
        2 => "Mar",
        3 => "Apr",
        4 => "May",
        5 => "Jun",
        6 => "Jul",
        7 => "Aug",
        8 => "Sep",
        9 => "Oct",
        10 => "Nov",
        _ => "Dec",
    }
}

/// Some bytes filled up at their start to a width.
pub open spec fn padded(bytes: Seq<u8>, width: nat, fill: u8) -> Seq<u8>
    decreases width - bytes.len(),
{
    if bytes.len() >= width {
        bytes
    } else {
        padded(seq![fill] + bytes, width, fill)
    }
}

fn push_padded(out: &mut Vec<u8>, n: u64, width: usize, fill: u8)
    ensures
        final(out)@ == old(out)@ + padded(digits(n as nat), width as nat, fill),
{
    let mut text: Vec<u8> = Vec::new();
    push_digits(&mut text, n as u128);
    assert(text@ =~= digits(n as nat));
    while text.len() < width
        invariant
            padded(digits(n as nat), width as nat, fill) == padded(text@, width as nat, fill),
        decreases width - text.len(),
    {
        let ghost before = text@;
        text.insert(0, fill);
        assert(text@ =~= seq![fill] + before);
    }
    push_bytes(out, text.as_slice());
}

/// A date in text: the month, the day of the month in two columns, and the
/// year in four digits.
#[verifier::opaque]
pub open spec fn date_text(month: u32, day: u32, year: u32) -> Seq<u8> {
    vstd::utf8::encode_utf8(month_name(month as int)).push(32) + padded(digits(day as nat), 2, 32)
        + seq![32u8] + padded(digits(year as nat), 4, 48)
}

/// A time in text: hour, minute, and second in two digits each.
#[verifier::opaque]
pub open spec fn time_text(hour: u32, minute: u32, second: u32) -> Seq<u8> {
    padded(digits(hour as nat), 2, 48) + seq![58u8] + padded(digits(minute as nat), 2, 48)
        + seq![58u8] + padded(digits(second as nat), 2, 48)
}

proof fn digits_are_as_many_as_needed(n: nat)
    ensures
        n < 100 ==> digits(n).len() <= 2,
        n < 10000 ==> digits(n).len() <= 4,
        digits(n).len() >= 1,
{
    reveal_with_fuel(digits, 5);
}

proof fn padding_reaches_the_width(bytes: Seq<u8>, width: nat, fill: u8)
    requires
        bytes.len() <= width,
    ensures
        padded(bytes, width, fill).len() == width,
    decreases width - bytes.len(),
{
    if bytes.len() < width {
        padding_reaches_the_width(seq![fill] + bytes, width, fill);
    }
}

/// A time of day takes eight columns.
pub proof fn time_text_has_a_fixed_width(hour: u32, minute: u32, second: u32)
    requires
        hour < 24,
        minute < 60,
        second <= 60,
    ensures
        time_text(hour, minute, second).len() == 8,
        time_text(hour, minute, second)[2] == 58,
        time_text(hour, minute, second)[5] == 58,
{
    reveal(time_text);
    digits_are_as_many_as_needed(hour as nat);
    digits_are_as_many_as_needed(minute as nat);
    digits_are_as_many_as_needed(second as nat);
    padding_reaches_the_width(digits(hour as nat), 2, 48);
    padding_reaches_the_width(digits(minute as nat), 2, 48);
    padding_reaches_the_width(digits(second as nat), 2, 48);
}

/// Get a date and time representation; months are counted from 0.
pub fn datetime(month: u32, day: u32, year: u32, hour: u32, minute: u32, second: u32) -> (r: (
    Vec<u8>,
    Vec<u8>,
))
    requires
        month < 12,
    ensures
        r.0@ == date_text(month, day, year),
        r.1@ == time_text(hour, minute, second),
{
    proof {
        reveal(date_text);
        reveal(time_text);
    }
    let mut date: Vec<u8> = Vec::new();
    push_bytes(&mut date, name_of_month(month).as_bytes());
    date.push(32);
    push_padded(&mut date, day as u64, 2, 32);
    date.push(32);
    push_padded(&mut date, year as u64, 4, 48);
    assert(date@ =~= date_text(month, day, year));
    let mut time: Vec<u8> = Vec::new();
    push_padded(&mut time, hour as u64, 2, 48);
    time.push(58);
    push_padded(&mut time, minute as u64, 2, 48);
    time.push(58);
    push_padded(&mut time, second as u64, 2, 48);
    assert(time@ =~= time_text(hour, minute, second));
    (date, time)
}

} // verus!
