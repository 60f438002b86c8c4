//! Operations on integer constants give what the same operations on numbers
//! give.

use vstd::prelude::*;
use vstd::arithmetic::div_mod::{
    lemma_add_mod_noop, lemma_fundamental_div_mod, lemma_mod_add_multiples_vanish, lemma_mod_bound,
    lemma_mod_twice, lemma_mul_mod_noop, lemma_small_mod, lemma_sub_mod_noop,
};
use vstd::arithmetic::power2::{lemma_pow2_unfold, pow2};
use crate::constexpr::{
    modulus, quotient, quotient_and_remainder, remainder, signed_value, wrap, ConstValue,
    FloatAnswer, FloatQuery, RawConstValue,
};
use crate::types::{ArithType, ConstType};

verus! {

/// The number of integers that a type tells apart.
pub open spec fn count_of(ty: ConstType) -> int {
    match ty {
        ConstType::Arith(ArithType::Bool) | ConstType::Arith(ArithType::Char) | ConstType::Arith(
            ArithType::UChar,
        ) => 0x100,
        ConstType::Arith(ArithType::Short) | ConstType::Arith(ArithType::UShort) => 0x1_0000,
        ConstType::Arith(ArithType::Int) | ConstType::Arith(ArithType::UInt) => 0x1_0000_0000,
        _ => 0x1_0000_0000_0000_0000,
    }
}

/// The least number of a type.
pub open spec fn least(ty: ConstType) -> int {
    match ty {
        ConstType::Arith(ArithType::Char) => -0x80,
        ConstType::Arith(ArithType::Short) => -0x8000,
        ConstType::Arith(ArithType::Int) => -0x8000_0000,
        ConstType::Arith(ArithType::Long) => -0x8000_0000_0000_0000,
        _ => 0,
    }
}

/// Whether a type is an integer type or a pointer.
pub open spec fn is_whole(ty: ConstType) -> bool {
    ty != ConstType::Arith(ArithType::Float) && ty != ConstType::Arith(ArithType::Double)
}

/// Whether a number is one of an integer type.
pub open spec fn has_number(ty: ConstType, n: int) -> bool {
    is_whole(ty) && least(ty) <= n < least(ty) + count_of(ty)
}

/// Whether a constant is a number of a type, as far as that type can tell.
pub open spec fn stands_for(c: ConstValue, n: int, ty: ConstType) -> bool {
    c.ty == ty && c.raw == RawConstValue::Int((n % count_of(ty)) as u64)
}

proof fn stands_for_its_bits(c: ConstValue, n: int, ty: ConstType)
    requires
        is_whole(ty),
        stands_for(c, n, ty),
    ensures
        c == ConstValue::spec_int(n, ty),
        c.spec_bits() == n % count_of(ty),
        count_of(ty) == modulus(ty),
        has_number(ty, n) && ty.spec_is_signed() ==> c.value() == n,
        has_number(ty, n) && !ty.spec_is_signed() ==> c.spec_bits() == n,
        !ty.spec_is_flonum(),
{
    reveal(wrap);
    reveal(signed_value);
    let m = count_of(ty);
    lemma_mod_bound(n, m);
    lemma_mod_twice(n, m);
    if has_number(ty, n) {
        if n < 0 {
            lemma_mod_add_multiples_vanish(n, m);
            lemma_small_mod((n + m) as nat, m as nat);
        } else {
            lemma_small_mod(n as nat, m as nat);
        }
    }
}

proof fn bits_stand_for(n: int, ty: ConstType)
    requires
        is_whole(ty),
    ensures
        stands_for(ConstValue::spec_int(n, ty), n, ty),
        count_of(ty) == modulus(ty),
{
    reveal(wrap);
    lemma_mod_bound(n, count_of(ty));
}

proof fn equal_modulo(x: int, y: int, ty: ConstType)
    requires
        is_whole(ty),
        x % count_of(ty) == y % count_of(ty),
    ensures
        ConstValue::spec_int(x, ty) == ConstValue::spec_int(y, ty),
        stands_for(ConstValue::spec_int(x, ty), y, ty),
{
    reveal(wrap);
    bits_stand_for(x, ty);
    bits_stand_for(y, ty);
}

/// An integer constant of a type stands for exactly one of its numbers.
pub proof fn constants_stand_for_one_number(c: ConstValue, a: int, b: int)
    requires
        has_number(c.ty, a),
        has_number(c.ty, b),
        stands_for(c, a, c.ty),
        stands_for(c, b, c.ty),
    ensures
        a == b,
{
    stands_for_its_bits(c, a, c.ty);
    stands_for_its_bits(c, b, c.ty);
}

/// An integer constant made from bits stands for the number with those bits.
pub proof fn made_constants_stand_for_their_bits(bits: u64, ty: ConstType)
    requires
        is_whole(ty),
    ensures
        stands_for(ConstValue::spec_int(bits as int, ty), bits as int, ty),
        stands_for(ConstValue::spec_bool(true, ty), 1, ty),
        stands_for(ConstValue::spec_bool(false, ty), 0, ty),
{
    bits_stand_for(bits as int, ty);
    bits_stand_for(1, ty);
    bits_stand_for(0, ty);
}

/// What holds of a truth value: it stands for 1 if true, else for 0.
pub open spec fn tells(r: Result<ConstValue, FloatQuery>, truth: bool, to: ConstType) -> bool {
    &&& r is Ok
    &&& stands_for(
        r->Ok_0,
        if truth {
            1
        } else {
            0
        },
        to,
    )
}

/// The comparisons of constants of one integer type are those of their numbers.
pub proof fn comparisons_agree_with_the_numbers(
    x: ConstValue,
    y: ConstValue,
    a: int,
    b: int,
    ty: ConstType,
    to: ConstType,
    fp: Seq<FloatAnswer>,
)
    requires
        is_whole(to),
        has_number(ty, a),
        has_number(ty, b),
        stands_for(x, a, ty),
        stands_for(y, b, ty),
    ensures
        tells(x.spec_eq(y, to, fp), a == b, to),
        tells(x.spec_ne(y, to, fp), a != b, to),
        tells(x.spec_lt(y, to, fp), a < b, to),
        tells(x.spec_le(y, to, fp), a <= b, to),
{
    stands_for_its_bits(x, a, ty);
    stands_for_its_bits(y, b, ty);
    bits_stand_for(1, to);
    bits_stand_for(0, to);
}

/// The comparisons of integer constants of one type are a total order: "less or
/// equal" is "less" or "equal", the opposite of "greater", and holds one way at
/// least; and two constants are equal or unequal, not both.
pub proof fn comparisons_are_a_total_order(
    x: ConstValue,
    y: ConstValue,
    to: ConstType,
    fp: Seq<FloatAnswer>,
)
    requires
        x.raw is Int,
        y.raw is Int,
        x.canonical(),
        y.canonical(),
        x.ty == y.ty,
        is_whole(to),
    ensures
        ({
            let le = tells(x.spec_le(y, to, fp), true, to);
            let ge = tells(y.spec_le(x, to, fp), true, to);
            let lt = tells(x.spec_lt(y, to, fp), true, to);
            let gt = tells(y.spec_lt(x, to, fp), true, to);
            let eq = tells(x.spec_eq(y, to, fp), true, to);
            &&& le <==> lt || eq
            &&& le <==> !gt
            &&& le || ge
            &&& eq <==> le && ge
            &&& tells(x.spec_ne(y, to, fp), true, to) <==> !eq
            &&& le || tells(x.spec_le(y, to, fp), false, to)
            &&& eq <==> x == y
        }),
{
    let a = number_of(x);
    let b = number_of(y);
    canonical_constants_have_a_number(x);
    canonical_constants_have_a_number(y);
    comparisons_agree_with_the_numbers(x, y, a, b, x.ty, to, fp);
    comparisons_agree_with_the_numbers(y, x, b, a, x.ty, to, fp);
    reveal(wrap);
    lemma_small_mod(1, count_of(to) as nat);
    lemma_small_mod(0, count_of(to) as nat);
}

/// The number of a type that some bits stand for.
pub open spec fn number_of(c: ConstValue) -> int {
    let bits = c.raw->Int_0 as int;
    if bits < least(c.ty) + count_of(c.ty) {
        bits
    } else {
        bits - count_of(c.ty)
    }
}

/// Every integer constant stands for a number of its type.
pub proof fn canonical_constants_have_a_number(c: ConstValue)
    requires
        c.raw is Int,
        c.canonical(),
    ensures
        has_number(c.ty, number_of(c)),
        stands_for(c, number_of(c), c.ty),
{
    reveal(wrap);
    let m = count_of(c.ty);
    let bits = c.raw->Int_0 as int;
    assert(m == modulus(c.ty));
    lemma_mod_bound(bits, m);
    lemma_small_mod(bits as nat, m as nat);
    lemma_mod_add_multiples_vanish(bits - m, m);
}

/// Sums, differences, and products of constants are those of their numbers,
/// as far as the type of the result can tell.
pub proof fn arithmetic_agrees_with_the_numbers(
    x: ConstValue,
    y: ConstValue,
    a: int,
    b: int,
    ty: ConstType,
    fp: Seq<FloatAnswer>,
)
    requires
        is_whole(ty),
        stands_for(x, a, ty),
        stands_for(y, b, ty),
    ensures
        x.spec_add(y, ty, fp) matches Ok(r) && stands_for(r, a + b, ty),
        x.spec_sub(y, ty, fp) matches Ok(r) && stands_for(r, a - b, ty),
        x.spec_mul(y, ty, fp) matches Ok(r) && stands_for(r, a * b, ty),
        x.spec_neg(ty, fp) matches Ok(r) && stands_for(r, -a, ty),
        stands_for(x.spec_bit_not(ty), -a - 1, ty),
{
    stands_for_its_bits(x, a, ty);
    stands_for_its_bits(y, b, ty);
    let m = count_of(ty);
    let p = a % m;
    let q = b % m;
    lemma_add_mod_noop(a, b, m);
    lemma_sub_mod_noop(a, b, m);
    lemma_mul_mod_noop(a, b, m);
    lemma_sub_mod_noop(0, a, m);
    lemma_sub_mod_noop(-1, a, m);
    lemma_sub_mod_noop(0, p, m);
    lemma_sub_mod_noop(-1, p, m);
    lemma_mod_twice(a, m);
    equal_modulo(p + q, a + b, ty);
    equal_modulo(p - q, a - b, ty);
    equal_modulo(p * q, a * b, ty);
    equal_modulo(-p, -a, ty);
    equal_modulo(-p - 1, -a - 1, ty);
}

/// Dividing constants divides their numbers toward zero: quotient times divisor
/// plus remainder is the dividend, and the remainder is smaller than the divisor
/// and not of the other sign than the dividend. Dividing by zero gives nothing.
pub proof fn division_agrees_with_the_numbers(
    x: ConstValue,
    y: ConstValue,
    a: int,
    b: int,
    ty: ConstType,
    fp: Seq<FloatAnswer>,
)
    requires
        has_number(ty, a),
        has_number(ty, b),
        stands_for(x, a, ty),
        stands_for(y, b, ty),
    ensures
        b == 0 ==> x.spec_div(y, ty, fp) == Ok::<Option<ConstValue>, FloatQuery>(None)
            && x.spec_rem(y, ty) is None,
        b != 0 ==> {
            &&& x.spec_div(y, ty, fp) matches Ok(Some(q))
            &&& x.spec_rem(y, ty) matches Some(r)
            &&& exists|quot: int, rest: int|
                {
                    &&& #[trigger] stands_for(q, quot, ty)
                    &&& #[trigger] stands_for(r, rest, ty)
                    &&& a == quot * b + rest
                    &&& -b < rest < b || b < rest < -b
                    &&& rest < 0 ==> a < 0
                    &&& rest > 0 ==> a > 0
                }
        },
{
    stands_for_its_bits(x, a, ty);
    stands_for_its_bits(y, b, ty);
    if b != 0 {
        let (quot, rest) = if ty.spec_is_signed() {
            quotient_and_remainder(a, b);
            (quotient(a, b), remainder(a, b))
        } else {
            lemma_fundamental_div_mod(a, b);
            lemma_mod_bound(a, b);
            assert(b * (a / b) == (a / b) * b) by (nonlinear_arith);
            (a / b, a % b)
        };
        bits_stand_for(quot, ty);
        bits_stand_for(rest, ty);
        if ty.spec_is_signed() {
            lemma_mod_bound(if a < 0 { -a } else { a }, if b < 0 { -b } else { b });
        }
        assert(y.spec_bits() != 0) by {
            if ty.spec_is_signed() {
                reveal(wrap);
                lemma_mod_bound(b, count_of(ty));
                if b < 0 {
                    lemma_mod_add_multiples_vanish(b, count_of(ty));
                    lemma_small_mod((b + count_of(ty)) as nat, count_of(ty) as nat);
                } else {
                    lemma_small_mod(b as nat, count_of(ty) as nat);
                }
            }
        }
        assert(stands_for(x.spec_div(y, ty, fp)->Ok_0.unwrap(), quot, ty));
        assert(stands_for(x.spec_rem(y, ty).unwrap(), rest, ty));
    } else {
        lemma_small_mod(0, count_of(ty) as nat);
    }
}

proof fn shifting_left_multiplies(x: u64, k: u64)
    requires
        k < 64,
    ensures
        (x << k) as int == (x * pow2(k as nat)) % 0x1_0000_0000_0000_0000,
    decreases k,
{
    let n: int = 0x1_0000_0000_0000_0000;
    if k == 0 {
        vstd::arithmetic::power2::lemma2_to64();
        assert(x << 0u64 == x) by (bit_vector);
        lemma_small_mod(x as nat, n as nat);
    } else {
        let j: u64 = (k - 1) as u64;
        let y: u64 = x << j;
        shifting_left_multiplies(x, j);
        lemma_pow2_unfold(k as nat);
        assert(x << k == (x << j) << 1u64) by (bit_vector)
            requires
                k == j + 1,
                k < 64,
        ;
        assert((y << 1u64) == if y < 0x8000_0000_0000_0000u64 {
            (2 * y) as u64
        } else {
            (2 * (y - 0x8000_0000_0000_0000u64)) as u64
        }) by (bit_vector);
        let e = x * pow2(j as nat);
        assert(x * pow2(k as nat) == 2 * e) by (nonlinear_arith)
            requires
                e == x * pow2(j as nat),
                pow2(k as nat) == 2 * pow2(j as nat),
        ;
        lemma_mul_mod_noop(2, e, n);
        lemma_small_mod(2, n as nat);
        assert((2 * (e % n)) % n == (2 * e) % n);
        if y < 0x8000_0000_0000_0000u64 {
            lemma_small_mod((2 * y) as nat, n as nat);
        } else {
            lemma_mod_add_multiples_vanish(2 * y - n, n);
            lemma_small_mod((2 * y - n) as nat, n as nat);
        }
    }
}

/// Shifting a constant to the left multiplies its number by a power of two, and
/// shifting it to the right divides it, rounding down.
pub proof fn shifts_agree_with_the_numbers(
    x: ConstValue,
    y: ConstValue,
    a: int,
    k: int,
    ty: ConstType,
    by: ConstType,
)
    requires
        has_number(ty, a),
        has_number(by, k),
        stands_for(x, a, ty),
        stands_for(y, k, by),
        0 <= k < 64,
    ensures
        stands_for(x.spec_bit_shl(y, ty), a * pow2(k as nat), ty),
        stands_for(x.spec_bit_shr(y, ty), a / (pow2(k as nat) as int), ty),
{
    stands_for_its_bits(x, a, ty);
    stands_for_its_bits(y, k, by);
    assert(y.value() == k) by {
        reveal(signed_value);
        reveal(wrap);
        lemma_small_mod(k as nat, modulus(by) as nat);
    }
    lemma_small_mod(k as nat, 64);
    assert(y.shift_distance() == k);
    bits_stand_for(a / (pow2(k as nat) as int), ty);
    let m = count_of(ty);
    let bits = x.spec_bits();
    let p = pow2(k as nat) as int;
    shifting_left_multiplies(bits, k as u64);
    let full: int = 0x1_0000_0000_0000_0000;
    vstd::arithmetic::div_mod::lemma_mod_mod(bits * p, m, full / m);
    assert(m * (full / m) == full);
    assert(((bits * p) % full) % m == (bits * p) % m);
    lemma_mul_mod_noop(a, p, m);
    lemma_mul_mod_noop(bits as int, p, m);
    lemma_mod_twice(a, m);
    equal_modulo((bits << (k as u64)) as int, a * p, ty);
}

/// Whether bit `i` of some bits is set.
pub open spec fn has_bit(bits: u64, i: u64) -> bool {
    (bits >> i) & 1 == 1
}

/// A bit of the combination of two constants depends on the two bits at that
/// place only: "and" on both, "or" on any, "exclusive or" on exactly one.
pub proof fn bits_are_combined_one_by_one(x: ConstValue, y: ConstValue, i: u64)
    requires
        x.raw is Int,
        y.raw is Int,
        x.canonical(),
        y.canonical(),
        x.ty == y.ty,
        i < 64,
    ensures
        ({
            let p = has_bit(x.raw->Int_0, i);
            let q = has_bit(y.raw->Int_0, i);
            &&& x.spec_bit_and(y, x.ty).raw matches RawConstValue::Int(r) && (has_bit(r, i) <==> p
                && q)
            &&& x.spec_bit_or(y, x.ty).raw matches RawConstValue::Int(r) && (has_bit(r, i) <==> p
                || q)
            &&& x.spec_bit_xor(y, x.ty).raw matches RawConstValue::Int(r) && (has_bit(r, i) <==> p
                != q)
        }),
{
    reveal(wrap);
    let a = x.raw->Int_0;
    let b = y.raw->Int_0;
    let m = modulus(x.ty);
    canonical_constants_have_a_number(x);
    canonical_constants_have_a_number(y);
    lemma_mod_bound(a as int, m);
    lemma_mod_bound(b as int, m);
    let top: u64 = (m - 1) as u64;
    assert((a & b) <= top && (a | b) <= top && (a ^ b) <= top) by (bit_vector)
        requires
            a <= top,
            b <= top,
            top == 0xffu64 || top == 0xffffu64 || top == 0xffff_ffffu64 || top
                == 0xffff_ffff_ffff_ffffu64,
    ;
    lemma_small_mod((a & b) as nat, m as nat);
    lemma_small_mod((a | b) as nat, m as nat);
    lemma_small_mod((a ^ b) as nat, m as nat);
    assert((((a & b) >> i) & 1 == 1) == (((a >> i) & 1 == 1) && ((b >> i) & 1 == 1)))
        by (bit_vector);
    assert((((a | b) >> i) & 1 == 1) == (((a >> i) & 1 == 1) || ((b >> i) & 1 == 1)))
        by (bit_vector);
    assert((((a ^ b) >> i) & 1 == 1) == (((a >> i) & 1 == 1) != ((b >> i) & 1 == 1)))
        by (bit_vector);
}

/// A cast to an integer type keeps the number as far as the type can tell, one
/// to `_Bool` tells whether it is zero, and so do the truth of a constant and its
/// logical negation.
pub proof fn casts_keep_the_number(
    x: ConstValue,
    a: int,
    ty: ConstType,
    to: ConstType,
    fp: Seq<FloatAnswer>,
)
    requires
        has_number(ty, a),
        stands_for(x, a, ty),
        is_whole(to),
    ensures
        x.spec_truthy(fp) == Ok::<bool, FloatQuery>(a != 0),
        tells(x.spec_not(to, fp), a == 0, to),
        to == ConstType::Arith(ArithType::Bool) ==> tells(x.spec_cast(to, fp), a != 0, to),
        to != ConstType::Arith(ArithType::Bool) ==> (x.spec_cast(to, fp) matches Ok(r)
            && stands_for(r, a, to)),
{
    stands_for_its_bits(x, a, ty);
    bits_stand_for(a, to);
    bits_stand_for(1, to);
    bits_stand_for(0, to);
    let m = count_of(ty);
    if a < 0 {
        lemma_mod_add_multiples_vanish(a, m);
        lemma_small_mod((a + m) as nat, m as nat);
    } else {
        lemma_small_mod(a as nat, m as nat);
    }
}

/// A constant read as a size gives its number, unless it is negative.
pub proof fn sizes_are_the_numbers(x: ConstValue, a: int, ty: ConstType)
    requires
        has_number(ty, a),
        stands_for(x, a, ty),
    ensures
        x.spec_to_u64() == (if a >= 0 {
            Some(a as u64)
        } else {
            None
        }),
        x.spec_to_usize() == (if 0 <= a <= usize::MAX {
            Some(a as usize)
        } else {
            None
        }),
{
    reveal(ConstValue::spec_to_u64);
    reveal(ConstValue::spec_to_usize);
    stands_for_its_bits(x, a, ty);
    if a >= 0 {
        lemma_small_mod(a as nat, count_of(ty) as nat);
    }
}

} // verus!
