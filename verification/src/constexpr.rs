//! Compile-time constant evaluation.
//!
//! Integer arithmetic is computed here. Floating-point values are carried as
//! the bits of an IEEE-754 double, and operations on them are looked up in a
//! [`FloatTable`]; an operation that the table lacks is reported back as a
//! [`FloatQuery`] for the caller to answer.

use vstd::prelude::*;
use vstd::arithmetic::div_mod::lemma_mod_mod;
use vstd::arithmetic::power2::pow2;
use vstd::bits::lemma_u64_shr_is_div;
use crate::types::{ArithType, ConstType};

pub mod numbers;

verus! {

/// A floating-point operation. Operands are the bits of doubles.
#[derive(Clone, Copy, Debug, PartialEq, Eq, Structural)]
pub enum FloatQuery {
    /// Round to the nearest single, and widen back.
    Round32(u64),
    /// The bits of the nearest single.
    Bits32(u64),
    FromI64(i64),
    FromU64(u64),
    /// Convert to a signed integer, given back as its bits.
    ToI64(u64),
    ToU64(u64),
    /// 1 if the operand is not zero, else 0.
    IsNonzero(u64),
    Neg(u64),
    Add(u64, u64),
    Sub(u64, u64),
    Mul(u64, u64),
    Div(u64, u64),
    /// 1 if the operands compare equal, else 0.
    Eq(u64, u64),
    Lt(u64, u64),
    Le(u64, u64),
}

/// The result of one floating-point operation.
#[derive(Clone, Copy, Debug, PartialEq, Eq, Structural)]
pub struct FloatAnswer {
    pub query: FloatQuery,
    pub bits: u64,
}

/// The results of floating-point operations that are known so far.
#[derive(Debug)]
pub struct FloatTable {
    pub answers: Vec<FloatAnswer>,
}

/// The first answer to a query.
pub open spec fn answer(answers: Seq<FloatAnswer>, query: FloatQuery) -> Option<u64>
    decreases answers.len(),
{
    if answers.len() == 0 {
        None
    } else if answers[0].query == query {
        Some(answers[0].bits)
    } else {
        answer(answers.drop_first(), query)
    }
}

impl FloatTable {
    pub open spec fn view(&self) -> Seq<FloatAnswer> {
        self.answers@
    }

    /// A table without any answer.
    pub fn new() -> (r: FloatTable)
        ensures
            r@ == Seq::<FloatAnswer>::empty(),
    {
        FloatTable { answers: Vec::new() }
    }

    /// Record the answer to a query.
    pub fn push(&mut self, query: FloatQuery, bits: u64)
        ensures
            final(self)@ == old(self)@.push(FloatAnswer { query, bits }),
    {
        self.answers.push(FloatAnswer { query, bits });
    }

    /// Look up a query; the query itself comes back if it has no answer.
    pub fn ask(&self, query: FloatQuery) -> (r: Result<u64, FloatQuery>)
        ensures
            r == asked(self@, query),
    {
        let mut i: usize = 0;
        assert(self@.skip(0) =~= self@);
        while i < self.answers.len()
            invariant
                i <= self.answers.len(),
                answer(self@, query) == answer(self@.skip(i as int), query),
            decreases self.answers.len() - i,
        {
            assert(self@.skip(i as int).drop_first() =~= self@.skip(i + 1));
            if self.answers[i].query == query {
                return Ok(self.answers[i].bits);
            }
            i += 1;
        }
        Err(query)
    }
}

pub open spec fn asked(answers: Seq<FloatAnswer>, query: FloatQuery) -> Result<u64, FloatQuery> {
    match answer(answers, query) {
        Some(bits) => Ok(bits),
        None => Err(query),
    }
}

/// A raw compile-time constant value representation.
#[derive(Clone, Copy, Debug, PartialEq, Eq, Structural)]
pub enum RawConstValue {
    /// An integer-like constant value.
    ///
    /// This stores the raw bits because C integer semantics are fundamentally
    /// width-based.
    Int(u64),
    /// A floating-point constant value, given by the bits of a double.
    Float(u64),
}

/// A compile-time constant value.
#[derive(Clone, Copy, Debug, PartialEq, Eq, Structural)]
pub struct ConstValue {
    pub raw: RawConstValue,
    pub ty: ConstType,
}

/// Two to the power of the width of a type.
pub open spec fn modulus(ty: ConstType) -> int {
    match ty.spec_width() {
        8 => 0x100,
        16 => 0x1_0000,
        32 => 0x1_0000_0000,
        _ => 0x1_0000_0000_0000_0000,
    }
}

/// The bits of an integer, reduced to the width of a type.
#[verifier::opaque]
pub open spec fn wrap(value: int, ty: ConstType) -> u64 {
    (value % modulus(ty)) as u64
}

/// The integer that some bits stand for in a type, where unsigned values from
/// 2^63 on are seen as negative.
#[verifier::opaque]
pub open spec fn signed_value(bits: u64, ty: ConstType) -> int {
    if ty.spec_is_signed() {
        if bits as int % modulus(ty) >= modulus(ty) / 2 {
            bits as int % modulus(ty) - modulus(ty)
        } else {
            bits as int % modulus(ty)
        }
    } else if wrap(bits as int, ty) >= 0x8000_0000_0000_0000 {
        wrap(bits as int, ty) - 0x1_0000_0000_0000_0000
    } else {
        wrap(bits as int, ty) as int
    }
}

/// The absolute value.
pub open spec fn magnitude(v: int) -> int {
    if v < 0 {
        -v
    } else {
        v
    }
}

/// Division that rounds toward zero.
pub open spec fn quotient(a: int, b: int) -> int {
    if (a < 0) == (b < 0) {
        magnitude(a) / magnitude(b)
    } else {
        -(magnitude(a) / magnitude(b))
    }
}

/// The remainder of [`quotient`]; it has the sign of the dividend.
pub open spec fn remainder(a: int, b: int) -> int {
    if a < 0 {
        -(magnitude(a) % magnitude(b))
    } else {
        magnitude(a) % magnitude(b)
    }
}

/// Dividing and multiplying back gives the dividend up to the remainder, which
/// is smaller than the divisor.
pub proof fn quotient_and_remainder(a: int, b: int)
    requires
        b != 0,
    ensures
        a == quotient(a, b) * b + remainder(a, b),
        magnitude(remainder(a, b)) < magnitude(b),
{
    let m = magnitude(a);
    let n = magnitude(b);
    vstd::arithmetic::div_mod::lemma_fundamental_div_mod(m, n);
    vstd::arithmetic::div_mod::lemma_mod_bound(m, n);
    let q = m / n;
    assert(n * q == q * n && (-q) * n == -(q * n) && (-q) * (-n) == q * n && q * (-n) == -(q * n))
        by (nonlinear_arith);
}

/// Reducing bits to a width twice is reducing them once.
pub proof fn wrap_is_idempotent(value: int, ty: ConstType)
    ensures
        wrap(wrap(value, ty) as int, ty) == wrap(value, ty),
        0 <= wrap(value, ty) < modulus(ty),
{
    reveal(wrap);
    let n = modulus(ty);
    vstd::arithmetic::div_mod::lemma_mod_bound(value, n);
    vstd::arithmetic::div_mod::lemma_mod_twice(value, n);
}

/// Only the value modulo two to the width of the type matters.
pub proof fn wrap_respects_addition(a: int, b: int, ty: ConstType)
    ensures
        wrap(wrap(a, ty) + b, ty) == wrap(a + b, ty),
{
    reveal(wrap);
    vstd::arithmetic::div_mod::lemma_add_mod_noop(a, b, modulus(ty));
    vstd::arithmetic::div_mod::lemma_add_mod_noop(a % modulus(ty), b, modulus(ty));
}

/// Reducing factors and summands first does not change what is left modulo `n`.
proof fn reduced_parts_give_the_same(q: int, d: int, r: int, n: int, e: int)
    requires
        n > 0,
        d % n == e % n,
    ensures
        ((((q % n) * e) % n) + r % n) % n == (q * d + r) % n,
{
    vstd::arithmetic::div_mod::lemma_mul_mod_noop(q, d, n);
    vstd::arithmetic::div_mod::lemma_mul_mod_noop(q % n, e, n);
    vstd::arithmetic::div_mod::lemma_mod_twice(q, n);
    vstd::arithmetic::div_mod::lemma_add_mod_noop(q * d, r, n);
}

/// Dividing an integer constant by another of its type, multiplying back, and
/// adding the remainder gives the dividend.
pub proof fn division_can_be_undone(a: ConstValue, b: ConstValue, fp: Seq<FloatAnswer>)
    requires
        a.raw is Int,
        b.raw is Int,
        a.canonical(),
        a.ty == b.ty,
        b.spec_bits() != 0,
    ensures
        ({
            let ty = a.ty;
            &&& a.spec_div(b, ty, fp) matches Ok(Some(q))
            &&& a.spec_rem(b, ty) matches Some(r)
            &&& q.spec_mul(b, ty, fp) matches Ok(product)
            &&& product.spec_add(r, ty, fp) == Ok::<ConstValue, FloatQuery>(a)
        }),
{
    reveal(wrap);
    reveal(signed_value);
    let ty = a.ty;
    let n = modulus(ty);
    let x = a.spec_bits() as int;
    let y = b.spec_bits() as int;
    wrap_is_idempotent(a.raw->Int_0 as int, ty);
    wrap_is_idempotent(b.raw->Int_0 as int, ty);
    assert(0 <= x < n && 0 < y < n);
    vstd::arithmetic::div_mod::lemma_small_mod(x as nat, n as nat);
    vstd::arithmetic::div_mod::lemma_small_mod(y as nat, n as nat);
    let (v, d) = if ty.spec_is_signed() {
        (a.value(), b.value())
    } else {
        (x, y)
    };
    if v < 0 {
        vstd::arithmetic::div_mod::lemma_mod_add_multiples_vanish(v, n);
    }
    if d < 0 {
        vstd::arithmetic::div_mod::lemma_mod_add_multiples_vanish(d, n);
    }
    assert(v % n == x && d % n == y && d != 0);
    let (q, r) = if ty.spec_is_signed() {
        quotient_and_remainder(v, d);
        (quotient(v, d), remainder(v, d))
    } else {
        vstd::arithmetic::div_mod::lemma_fundamental_div_mod(x, y);
        assert(y * (x / y) == (x / y) * y) by (nonlinear_arith);
        (x / y, x % y)
    };
    assert(q * d + r == v);
    reduced_parts_give_the_same(q, d, r, n, y);
    wrap_is_idempotent(q, ty);
    wrap_is_idempotent(r, ty);
    wrap_is_idempotent((q % n) * y, ty);
}

/// Casting an integer constant to an integer type twice is casting it once.
pub proof fn integer_cast_is_idempotent(value: ConstValue, ty: ConstType, fp: Seq<FloatAnswer>)
    requires
        value.raw is Int,
        !ty.spec_is_flonum(),
    ensures
        value.spec_cast(ty, fp) is Ok,
        value.spec_cast(ty, fp)->Ok_0.canonical(),
        value.spec_cast(ty, fp)->Ok_0.ty == ty,
        value.spec_cast(ty, fp)->Ok_0.spec_cast(ty, fp) == value.spec_cast(ty, fp),
{
    reveal(wrap);
    reveal(signed_value);
}

/// Casting to an integer type that is at least as wide, and not from signed to
/// unsigned, keeps the value.
pub proof fn widening_cast_keeps_the_value(value: ConstValue, ty: ConstType, fp: Seq<FloatAnswer>)
    requires
        value.raw is Int,
        !value.ty.spec_is_flonum(),
        !ty.spec_is_flonum(),
        ty != ConstType::Arith(ArithType::Bool),
        value.ty.spec_width() < ty.spec_width() || (value.ty.spec_width() == ty.spec_width()
            && value.ty.spec_is_signed() == ty.spec_is_signed()),
        value.ty.spec_is_signed() ==> ty.spec_is_signed(),
    ensures
        value.spec_cast(ty, fp)->Ok_0.value() == value.value(),
{
    reveal(wrap);
    reveal(signed_value);
    let n = modulus(ty);
    let bits = value.spec_bits() as int;
    let v = if value.ty.spec_is_signed() {
        value.value()
    } else {
        bits
    };
    wrap_is_idempotent(value.raw->Int_0 as int, value.ty);
    vstd::arithmetic::div_mod::lemma_small_mod(bits as nat, modulus(value.ty) as nat);
    assert(modulus(value.ty) <= n);
    if v < 0 {
        vstd::arithmetic::div_mod::lemma_mod_add_multiples_vanish(v, n);
        vstd::arithmetic::div_mod::lemma_small_mod((v + n) as nat, n as nat);
    } else {
        vstd::arithmetic::div_mod::lemma_small_mod(v as nat, n as nat);
    }
    assert(wrap(v, ty) == if v < 0 {
        v + n
    } else {
        v
    });
    wrap_is_idempotent(v, ty);
}

impl ConstValue {
    pub open spec fn is_float(self) -> bool {
        self.raw is Float
    }

    /// The bits of an integer constant.
    pub open spec fn spec_bits(self) -> u64 {
        match self.raw {
            RawConstValue::Int(bits) => wrap(bits as int, self.ty),
            RawConstValue::Float(_) => 0,
        }
    }

    /// The value of an integer constant, see [`signed_value`].
    pub open spec fn value(self) -> int {
        signed_value(self.spec_bits(), self.ty)
    }

    /// Every constant is stored in one way only.
    pub open spec fn canonical(self) -> bool {
        match self.raw {
            RawConstValue::Int(bits) => !self.ty.spec_is_flonum() && bits == wrap(
                bits as int,
                self.ty,
            ),
            RawConstValue::Float(_) => self.ty.spec_is_flonum(),
        }
    }

    pub open spec fn spec_int(value: int, ty: ConstType) -> ConstValue {
        ConstValue { raw: RawConstValue::Int(wrap(value, ty)), ty }
    }

    pub open spec fn spec_bool(value: bool, ty: ConstType) -> ConstValue {
        Self::spec_int(if value { 1 } else { 0 }, ty)
    }

    /// Construct a compile-time integer constant from its raw bits.
    ///
    /// Note that this will normalize the bits to fit the width of `ty`, so that
    /// every [`ConstValue`] is canonical for this type.
    pub fn integer(bits: u64, ty: ConstType) -> (r: ConstValue)
        ensures
            r == Self::spec_int(bits as int, ty),
            !ty.spec_is_flonum() ==> r.canonical(),
    {
        proof {
            reveal(wrap);
            reveal(signed_value);
        }
        ConstValue { raw: RawConstValue::Int(normalize(bits, ty)), ty }
    }

    /// Construct a compile-time boolean const.
    pub fn boolean(value: bool, ty: ConstType) -> (r: ConstValue)
        ensures
            r == Self::spec_bool(value, ty),
            !ty.spec_is_flonum() ==> r.canonical(),
    {
        proof {
            reveal(wrap);
            reveal(signed_value);
        }
        if value {
            Self::integer(1, ty)
        } else {
            Self::integer(0, ty)
        }
    }

    pub open spec fn spec_float(bits: u64, ty: ConstType, fp: Seq<FloatAnswer>) -> Result<
        ConstValue,
        FloatQuery,
    > {
        if ty == ConstType::Arith(ArithType::Float) {
            match asked(fp, FloatQuery::Round32(bits)) {
                Ok(bits) => Ok(ConstValue { raw: RawConstValue::Float(bits), ty }),
                Err(q) => Err(q),
            }
        } else {
            Ok(ConstValue { raw: RawConstValue::Float(bits), ty })
        }
    }

    /// Construct a compile-time floating-point constant.
    ///
    /// If the type is float, the value is rounded to the nearest representable
    /// single immediately so that the stored semantic value matches the
    /// precision of the source type.
    pub fn float(bits: u64, ty: ConstType, fp: &FloatTable) -> (r: Result<ConstValue, FloatQuery>)
        ensures
            r == Self::spec_float(bits, ty, fp@),
            r is Ok && ty.spec_is_flonum() ==> r->Ok_0.canonical(),
    {
        proof {
            reveal(wrap);
            reveal(signed_value);
        }
        if ty == ConstType::Arith(ArithType::Float) {
            match fp.ask(FloatQuery::Round32(bits)) {
                Ok(bits) => Ok(ConstValue { raw: RawConstValue::Float(bits), ty }),
                Err(q) => Err(q),
            }
        } else {
            Ok(ConstValue { raw: RawConstValue::Float(bits), ty })
        }
    }

    pub open spec fn storage_bits(self, fp: Seq<FloatAnswer>) -> Result<u64, FloatQuery> {
        match self.raw {
            RawConstValue::Int(bits) => Ok(wrap(bits as int, self.ty)),
            RawConstValue::Float(bits) => if self.ty == ConstType::Arith(ArithType::Float) {
                asked(fp, FloatQuery::Bits32(bits))
            } else {
                Ok(bits)
            },
        }
    }

    /// Return the storage bit-pattern of the constant.
    pub fn bits(self, fp: &FloatTable) -> (r: Result<u64, FloatQuery>)
        ensures
            r == self.storage_bits(fp@),
    {
        proof {
            reveal(wrap);
            reveal(signed_value);
        }
        match self.raw {
            RawConstValue::Int(bits) => Ok(normalize(bits, self.ty)),
            RawConstValue::Float(bits) => if self.ty == ConstType::Arith(ArithType::Float) {
                fp.ask(FloatQuery::Bits32(bits))
            } else {
                Ok(bits)
            },
        }
    }

    /// Return the storage bit-pattern of the integer constant, and 0 for a
    /// floating-point constant.
    pub fn int_bits(self) -> (r: u64)
        ensures
            r == self.spec_bits(),
    {
        proof {
            reveal(wrap);
            reveal(signed_value);
        }
        match self.raw {
            RawConstValue::Int(bits) => normalize(bits, self.ty),
            RawConstValue::Float(_) => 0,
        }
    }

    /// Reinterpret the storage bit-pattern of an integer constant as signed.
    ///
    /// For signed integer types, this sign-extends the raw bits from the type
    /// width to 64 bits, so that e.g. "0xff" in signed char becomes -1. For
    /// the other integer-like types, this directly reinterprets the raw bits as
    /// i64 so values beyond [`i64::MAX`] will be wrapped around.
    pub fn int_bits_as_signed(self) -> (r: i64)
        ensures
            r == self.value(),
    {
        proof {
            reveal(wrap);
            reveal(signed_value);
        }
        let bits: u64 = self.int_bits();
        if self.ty.is_signed() {
            let width: u64 = self.ty.width();
            if width == 8 {
                return if bits >= 0x80 {
                    bits as i64 - 0x100
                } else {
                    bits as i64
                };
            }
            if width == 16 {
                return if bits >= 0x8000 {
                    bits as i64 - 0x1_0000
                } else {
                    bits as i64
                };
            }
            if width == 32 {
                return if bits >= 0x8000_0000 {
                    bits as i64 - 0x1_0000_0000
                } else {
                    bits as i64
                };
            }
        }
        if bits >= 0x8000_0000_0000_0000 {
            (bits - 0x8000_0000_0000_0000) as i64 + i64::MIN
        } else {
            bits as i64
        }
    }

    pub open spec fn spec_truthy(self, fp: Seq<FloatAnswer>) -> Result<bool, FloatQuery> {
        match self.raw {
            RawConstValue::Int(_) => Ok(self.spec_bits() != 0),
            RawConstValue::Float(bits) => match asked(fp, FloatQuery::IsNonzero(bits)) {
                Ok(bits) => Ok(bits != 0),
                Err(q) => Err(q),
            },
        }
    }

    /// Return whether the constant compares unequal to zero.
    pub fn truthy(self, fp: &FloatTable) -> (r: Result<bool, FloatQuery>)
        ensures
            r == self.spec_truthy(fp@),
    {
        proof {
            reveal(wrap);
            reveal(signed_value);
        }
        match self.raw {
            RawConstValue::Int(_) => Ok(self.int_bits() != 0),
            RawConstValue::Float(bits) => match fp.ask(FloatQuery::IsNonzero(bits)) {
                Ok(bits) => Ok(bits != 0),
                Err(q) => Err(q),
            },
        }
    }

    pub open spec fn spec_as_double(self, fp: Seq<FloatAnswer>) -> Result<u64, FloatQuery> {
        match self.raw {
            RawConstValue::Float(bits) => Ok(bits),
            RawConstValue::Int(_) => if self.ty.spec_is_signed() {
                asked(fp, FloatQuery::FromI64(self.value() as i64))
            } else {
                asked(fp, FloatQuery::FromU64(self.spec_bits()))
            },
        }
    }

    /// Return the bits of the double that is nearest to the constant.
    pub fn as_double(self, fp: &FloatTable) -> (r: Result<u64, FloatQuery>)
        ensures
            r == self.spec_as_double(fp@),
    {
        proof {
            reveal(wrap);
            reveal(signed_value);
        }
        match self.raw {
            RawConstValue::Float(bits) => Ok(bits),
            RawConstValue::Int(_) => if self.ty.is_signed() {
                fp.ask(FloatQuery::FromI64(self.int_bits_as_signed()))
            } else {
                fp.ask(FloatQuery::FromU64(self.int_bits()))
            },
        }
    }

    pub open spec fn spec_cast(self, ty: ConstType, fp: Seq<FloatAnswer>) -> Result<
        ConstValue,
        FloatQuery,
    > {
        if ty == ConstType::Arith(ArithType::Bool) {
            match self.spec_truthy(fp) {
                Ok(b) => Ok(Self::spec_bool(b, ty)),
                Err(q) => Err(q),
            }
        } else if ty.spec_is_flonum() {
            match self.spec_as_double(fp) {
                Ok(bits) => Self::spec_float(bits, ty, fp),
                Err(q) => Err(q),
            }
        } else {
            match self.raw {
                RawConstValue::Int(_) => Ok(
                    Self::spec_int(
                        if self.ty.spec_is_signed() {
                            self.value()
                        } else {
                            self.spec_bits() as int
                        },
                        ty,
                    ),
                ),
                RawConstValue::Float(bits) => match asked(
                    fp,
                    if ty.spec_is_signed() {
                        FloatQuery::ToI64(bits)
                    } else {
                        FloatQuery::ToU64(bits)
                    },
                ) {
                    Ok(bits) => Ok(Self::spec_int(bits as int, ty)),
                    Err(q) => Err(q),
                },
            }
        }
    }

    /// Cast to another [`ConstType`].
    pub fn cast(self, ty: ConstType, fp: &FloatTable) -> (r: Result<ConstValue, FloatQuery>)
        ensures
            r == self.spec_cast(ty, fp@),
            r is Ok ==> r->Ok_0.canonical() && r->Ok_0.ty == ty,
    {
        proof {
            reveal(wrap);
            reveal(signed_value);
        }
        if ty == ConstType::Arith(ArithType::Bool) {
            return match self.truthy(fp) {
                Ok(b) => Ok(Self::boolean(b, ty)),
                Err(q) => Err(q),
            };
        }
        if ty.is_flonum() {
            return match self.as_double(fp) {
                Ok(bits) => Self::float(bits, ty, fp),
                Err(q) => Err(q),
            };
        }
        match self.raw {
            RawConstValue::Int(_) => if self.ty.is_signed() {
                Ok(Self::from_signed(self.int_bits_as_signed(), ty))
            } else {
                Ok(Self::integer(self.int_bits(), ty))
            },
            RawConstValue::Float(bits) => {
                let query = if ty.is_signed() {
                    FloatQuery::ToI64(bits)
                } else {
                    FloatQuery::ToU64(bits)
                };
                match fp.ask(query) {
                    Ok(bits) => Ok(Self::integer(bits, ty)),
                    Err(q) => Err(q),
                }
            },
        }
    }

    fn from_signed(value: i64, ty: ConstType) -> (r: ConstValue)
        ensures
            r == Self::spec_int(value as int, ty),
            !ty.spec_is_flonum() ==> r.canonical(),
    {
        proof {
            reveal(wrap);
            reveal(signed_value);
        }
        if value < 0 {
            let bits: u64 = (value - i64::MIN) as u64 + 0x8000_0000_0000_0000;
            proof {
                wrapped_is_congruent(value as int, bits, ty);
            }
            Self::integer(bits, ty)
        } else {
            Self::integer(value as u64, ty)
        }
    }

    pub open spec fn spec_neg(self, ty: ConstType, fp: Seq<FloatAnswer>) -> Result<
        ConstValue,
        FloatQuery,
    > {
        if ty.spec_is_flonum() {
            match self.spec_as_double(fp) {
                Ok(a) => match asked(fp, FloatQuery::Neg(a)) {
                    Ok(bits) => Self::spec_float(bits, ty, fp),
                    Err(q) => Err(q),
                },
                Err(q) => Err(q),
            }
        } else {
            Ok(Self::spec_int(-(self.spec_bits() as int), ty))
        }
    }

    /// Negate the constant.
    pub fn neg(self, ty: ConstType, fp: &FloatTable) -> (r: Result<ConstValue, FloatQuery>)
        ensures
            r == self.spec_neg(ty, fp@),
    {
        proof {
            reveal(wrap);
            reveal(signed_value);
        }
        if ty.is_flonum() {
            match self.as_double(fp) {
                Ok(a) => match fp.ask(FloatQuery::Neg(a)) {
                    Ok(bits) => Self::float(bits, ty, fp),
                    Err(q) => Err(q),
                },
                Err(q) => Err(q),
            }
        } else {
            let bits: u64 = 0u64.wrapping_sub(self.int_bits());
            proof {
                wrapped_is_congruent(-(self.spec_bits() as int), bits, ty);
            }
            Ok(Self::integer(bits, ty))
        }
    }

    pub open spec fn spec_not(self, ty: ConstType, fp: Seq<FloatAnswer>) -> Result<
        ConstValue,
        FloatQuery,
    > {
        match self.spec_truthy(fp) {
            Ok(b) => Ok(Self::spec_bool(!b, ty)),
            Err(q) => Err(q),
        }
    }

    /// Negate the constant logically.
    pub fn not(self, ty: ConstType, fp: &FloatTable) -> (r: Result<ConstValue, FloatQuery>)
        ensures
            r == self.spec_not(ty, fp@),
    {
        proof {
            reveal(wrap);
            reveal(signed_value);
        }
        match self.truthy(fp) {
            Ok(b) => Ok(Self::boolean(!b, ty)),
            Err(q) => Err(q),
        }
    }

    pub open spec fn spec_bit_not(self, ty: ConstType) -> ConstValue {
        Self::spec_int(-(self.spec_bits() as int) - 1, ty)
    }

    /// Complement every bit.
    pub fn bit_not(self, ty: ConstType) -> (r: ConstValue)
        ensures
            r == self.spec_bit_not(ty),
    {
        proof {
            reveal(wrap);
            reveal(signed_value);
        }
        let bits: u64 = u64::MAX - self.int_bits();
        proof {
            wrapped_is_congruent(-(self.spec_bits() as int) - 1, bits, ty);
        }
        Self::integer(bits, ty)
    }

    pub open spec fn spec_add(
        self,
        other: ConstValue,
        ty: ConstType,
        fp: Seq<FloatAnswer>,
    ) -> Result<
        ConstValue,
        FloatQuery,
    > {
        if ty.spec_is_flonum() {
            match self.spec_as_double(fp) {
                Ok(a) => match other.spec_as_double(fp) {
                    Ok(b) => match asked(fp, FloatQuery::Add(a, b)) {
                        Ok(bits) => Self::spec_float(bits, ty, fp),
                        Err(q) => Err(q),
                    },
                    Err(q) => Err(q),
                },
                Err(q) => Err(q),
            }
        } else {
            Ok(Self::spec_int(self.spec_bits() + other.spec_bits(), ty))
        }
    }

    /// Add two constants.
    pub fn add(self, other: ConstValue, ty: ConstType, fp: &FloatTable) -> (r: Result<
        ConstValue,
        FloatQuery,
    >)
        ensures
            r == self.spec_add(other, ty, fp@),
    {
        proof {
            reveal(wrap);
            reveal(signed_value);
        }
        if ty.is_flonum() {
            match self.as_double(fp) {
                Ok(a) => match other.as_double(fp) {
                    Ok(b) => match fp.ask(FloatQuery::Add(a, b)) {
                        Ok(bits) => Self::float(bits, ty, fp),
                        Err(q) => Err(q),
                    },
                    Err(q) => Err(q),
                },
                Err(q) => Err(q),
            }
        } else {
            let bits: u64 = self.int_bits().wrapping_add(other.int_bits());
            proof {
                wrapping_add_is_congruent(self.spec_bits(), other.spec_bits(), ty);
            }
            Ok(Self::integer(bits, ty))
        }
    }

    pub open spec fn spec_sub(
        self,
        other: ConstValue,
        ty: ConstType,
        fp: Seq<FloatAnswer>,
    ) -> Result<
        ConstValue,
        FloatQuery,
    > {
        if ty.spec_is_flonum() {
            match self.spec_as_double(fp) {
                Ok(a) => match other.spec_as_double(fp) {
                    Ok(b) => match asked(fp, FloatQuery::Sub(a, b)) {
                        Ok(bits) => Self::spec_float(bits, ty, fp),
                        Err(q) => Err(q),
                    },
                    Err(q) => Err(q),
                },
                Err(q) => Err(q),
            }
        } else {
            Ok(Self::spec_int(self.spec_bits() - other.spec_bits(), ty))
        }
    }

    /// Subtract a constant.
    pub fn sub(self, other: ConstValue, ty: ConstType, fp: &FloatTable) -> (r: Result<
        ConstValue,
        FloatQuery,
    >)
        ensures
            r == self.spec_sub(other, ty, fp@),
    {
        proof {
            reveal(wrap);
            reveal(signed_value);
        }
        if ty.is_flonum() {
            match self.as_double(fp) {
                Ok(a) => match other.as_double(fp) {
                    Ok(b) => match fp.ask(FloatQuery::Sub(a, b)) {
                        Ok(bits) => Self::float(bits, ty, fp),
                        Err(q) => Err(q),
                    },
                    Err(q) => Err(q),
                },
                Err(q) => Err(q),
            }
        } else {
            let bits: u64 = self.int_bits().wrapping_sub(other.int_bits());
            proof {
                wrapping_sub_is_congruent(self.spec_bits(), other.spec_bits(), ty);
            }
            Ok(Self::integer(bits, ty))
        }
    }

    pub open spec fn spec_mul(
        self,
        other: ConstValue,
        ty: ConstType,
        fp: Seq<FloatAnswer>,
    ) -> Result<
        ConstValue,
        FloatQuery,
    > {
        if ty.spec_is_flonum() {
            match self.spec_as_double(fp) {
                Ok(a) => match other.spec_as_double(fp) {
                    Ok(b) => match asked(fp, FloatQuery::Mul(a, b)) {
                        Ok(bits) => Self::spec_float(bits, ty, fp),
                        Err(q) => Err(q),
                    },
                    Err(q) => Err(q),
                },
                Err(q) => Err(q),
            }
        } else {
            Ok(Self::spec_int(self.spec_bits() * other.spec_bits(), ty))
        }
    }

    /// Multiply two constants.
    pub fn mul(self, other: ConstValue, ty: ConstType, fp: &FloatTable) -> (r: Result<
        ConstValue,
        FloatQuery,
    >)
        ensures
            r == self.spec_mul(other, ty, fp@),
    {
        proof {
            reveal(wrap);
            reveal(signed_value);
        }
        if ty.is_flonum() {
            match self.as_double(fp) {
                Ok(a) => match other.as_double(fp) {
                    Ok(b) => match fp.ask(FloatQuery::Mul(a, b)) {
                        Ok(bits) => Self::float(bits, ty, fp),
                        Err(q) => Err(q),
                    },
                    Err(q) => Err(q),
                },
                Err(q) => Err(q),
            }
        } else {
            let bits: u64 = self.int_bits().wrapping_mul(other.int_bits());
            proof {
                wrapping_mul_is_congruent(self.spec_bits(), other.spec_bits(), ty);
            }
            Ok(Self::integer(bits, ty))
        }
    }

    pub open spec fn spec_div(
        self,
        other: ConstValue,
        ty: ConstType,
        fp: Seq<FloatAnswer>,
    ) -> Result<
        Option<ConstValue>,
        FloatQuery,
    > {
        if ty.spec_is_flonum() {
            match self.spec_as_double(fp) {
                Ok(a) => match other.spec_as_double(fp) {
                    Ok(b) => match asked(fp, FloatQuery::Div(a, b)) {
                        Ok(bits) => match Self::spec_float(bits, ty, fp) {
                            Ok(v) => Ok(Some(v)),
                            Err(q) => Err(q),
                        },
                        Err(q) => Err(q),
                    },
                    Err(q) => Err(q),
                },
                Err(q) => Err(q),
            }
        } else if other.spec_bits() == 0 {
            Ok(None)
        } else if self.ty.spec_is_signed() {
            Ok(Some(Self::spec_int(quotient(self.value(), other.value()), ty)))
        } else {
            Ok(Some(Self::spec_int(self.spec_bits() as int / other.spec_bits() as int, ty)))
        }
    }

    /// Divide by a constant. An integer division by zero gives `None`.
    pub fn div(self, other: ConstValue, ty: ConstType, fp: &FloatTable) -> (r: Result<
        Option<ConstValue>,
        FloatQuery,
    >)
        ensures
            r == self.spec_div(other, ty, fp@),
    {
        proof {
            reveal(wrap);
            reveal(signed_value);
        }
        if ty.is_flonum() {
            return match self.as_double(fp) {
                Ok(a) => match other.as_double(fp) {
                    Ok(b) => match fp.ask(FloatQuery::Div(a, b)) {
                        Ok(bits) => match Self::float(bits, ty, fp) {
                            Ok(v) => Ok(Some(v)),
                            Err(q) => Err(q),
                        },
                        Err(q) => Err(q),
                    },
                    Err(q) => Err(q),
                },
                Err(q) => Err(q),
            };
        }
        let other_bits: u64 = other.int_bits();
        if other_bits == 0 {
            return Ok(None);
        }
        if self.ty.is_signed() {
            let a: i64 = self.int_bits_as_signed();
            let b: i64 = other.int_bits_as_signed();
            proof {
                value_is_zero_with_bits(other);
            }
            Ok(Some(div_signed(a, b, ty)))
        } else {
            Ok(Some(Self::integer(self.int_bits() / other_bits, ty)))
        }
    }

    pub open spec fn spec_rem(self, other: ConstValue, ty: ConstType) -> Option<ConstValue> {
        if other.spec_bits() == 0 {
            None
        } else if self.ty.spec_is_signed() {
            Some(Self::spec_int(remainder(self.value(), other.value()), ty))
        } else {
            Some(Self::spec_int(self.spec_bits() as int % other.spec_bits() as int, ty))
        }
    }

    /// Take the remainder by a constant. Division by zero gives `None`.
    pub fn rem(self, other: ConstValue, ty: ConstType) -> (r: Option<ConstValue>)
        ensures
            r == self.spec_rem(other, ty),
    {
        proof {
            reveal(wrap);
            reveal(signed_value);
        }
        let other_bits: u64 = other.int_bits();
        if other_bits == 0 {
            return None;
        }
        if self.ty.is_signed() {
            let a: i64 = self.int_bits_as_signed();
            let b: i64 = other.int_bits_as_signed();
            proof {
                value_is_zero_with_bits(other);
            }
            Some(rem_signed(a, b, ty))
        } else {
            Some(Self::integer(self.int_bits() % other_bits, ty))
        }
    }

    pub open spec fn spec_bit_and(self, other: ConstValue, ty: ConstType) -> ConstValue {
        Self::spec_int((self.spec_bits() & other.spec_bits()) as int, ty)
    }

    /// Combine the bits by "and".
    pub fn bit_and(self, other: ConstValue, ty: ConstType) -> (r: ConstValue)
        ensures
            r == self.spec_bit_and(other, ty),
    {
        proof {
            reveal(wrap);
            reveal(signed_value);
        }
        Self::integer(self.int_bits() & other.int_bits(), ty)
    }

    pub open spec fn spec_bit_or(self, other: ConstValue, ty: ConstType) -> ConstValue {
        Self::spec_int((self.spec_bits() | other.spec_bits()) as int, ty)
    }

    /// Combine the bits by "or".
    pub fn bit_or(self, other: ConstValue, ty: ConstType) -> (r: ConstValue)
        ensures
            r == self.spec_bit_or(other, ty),
    {
        proof {
            reveal(wrap);
            reveal(signed_value);
        }
        Self::integer(self.int_bits() | other.int_bits(), ty)
    }

    pub open spec fn spec_bit_xor(self, other: ConstValue, ty: ConstType) -> ConstValue {
        Self::spec_int((self.spec_bits() ^ other.spec_bits()) as int, ty)
    }

    /// Combine the bits by "exclusive or".
    pub fn bit_xor(self, other: ConstValue, ty: ConstType) -> (r: ConstValue)
        ensures
            r == self.spec_bit_xor(other, ty),
    {
        proof {
            reveal(wrap);
            reveal(signed_value);
        }
        Self::integer(self.int_bits() ^ other.int_bits(), ty)
    }

    /// The distance of a shift by this constant.
    pub open spec fn shift_distance(self) -> u64 {
        (self.value() % 64) as u64
    }

    fn shift(self) -> (r: u64)
        ensures
            r == self.shift_distance(),
            r < 64,
    {
        proof {
            reveal(wrap);
            reveal(signed_value);
        }
        let v: i64 = self.int_bits_as_signed();
        if v >= 0 {
            v as u64 % 64
        } else {
            ((v - i64::MIN) as u64) % 64
        }
    }

    pub open spec fn spec_bit_shl(self, other: ConstValue, ty: ConstType) -> ConstValue {
        Self::spec_int((self.spec_bits() << other.shift_distance()) as int, ty)
    }

    /// Shift the bits to the left; the distance counts modulo 64.
    pub fn bit_shl(self, other: ConstValue, ty: ConstType) -> (r: ConstValue)
        ensures
            r == self.spec_bit_shl(other, ty),
    {
        proof {
            reveal(wrap);
            reveal(signed_value);
        }
        Self::integer(self.int_bits() << other.shift(), ty)
    }

    pub open spec fn spec_bit_shr(self, other: ConstValue, ty: ConstType) -> ConstValue {
        if self.ty.spec_is_signed() {
            Self::spec_int(self.value() / (pow2(other.shift_distance() as nat) as int), ty)
        } else {
            Self::spec_int(
                self.spec_bits() as int / (pow2(other.shift_distance() as nat) as int),
                ty,
            )
        }
    }

    /// Shift to the right, keeping the sign of a value of a signed type; the
    /// distance counts modulo 64.
    pub fn bit_shr(self, other: ConstValue, ty: ConstType) -> (r: ConstValue)
        ensures
            r == self.spec_bit_shr(other, ty),
    {
        proof {
            reveal(wrap);
            reveal(signed_value);
        }
        let n: u64 = other.shift();
        if self.ty.is_signed() {
            let v: i64 = self.int_bits_as_signed();
            if v >= 0 {
                proof {
                    lemma_u64_shr_is_div(v as u64, n);
                }
                Self::integer((v as u64) >> n, ty)
            } else {
                let c: u64 = (-1 - v) as u64;
                let q: u64 = c >> n;
                proof {
                    lemma_u64_shr_is_div(c, n);
                    lemma_floor_of_negative(v as int, n as nat);
                    wrapped_is_congruent(-1 - q as int, (u64::MAX - q) as u64, ty);
                }
                Self::integer(u64::MAX - q, ty)
            }
        } else {
            let bits: u64 = self.int_bits();
            proof {
                lemma_u64_shr_is_div(bits, n);
            }
            Self::integer(bits >> n, ty)
        }
    }

    pub open spec fn spec_eq(
        self,
        other: ConstValue,
        ty: ConstType,
        fp: Seq<FloatAnswer>,
    ) -> Result<
        ConstValue,
        FloatQuery,
    > {
        if self.ty.spec_is_flonum() || other.ty.spec_is_flonum() {
            match self.spec_as_double(fp) {
                Ok(a) => match other.spec_as_double(fp) {
                    Ok(b) => match asked(fp, FloatQuery::Eq(a, b)) {
                        Ok(bits) => Ok(Self::spec_bool(bits != 0, ty)),
                        Err(q) => Err(q),
                    },
                    Err(q) => Err(q),
                },
                Err(q) => Err(q),
            }
        } else {
            Ok(Self::spec_bool(self.spec_bits() == other.spec_bits(), ty))
        }
    }

    /// Compare for equality.
    pub fn eq(self, other: ConstValue, ty: ConstType, fp: &FloatTable) -> (r: Result<
        ConstValue,
        FloatQuery,
    >)
        ensures
            r == self.spec_eq(other, ty, fp@),
    {
        proof {
            reveal(wrap);
            reveal(signed_value);
        }
        if self.ty.is_flonum() || other.ty.is_flonum() {
            match self.as_double(fp) {
                Ok(a) => match other.as_double(fp) {
                    Ok(b) => match fp.ask(FloatQuery::Eq(a, b)) {
                        Ok(bits) => Ok(Self::boolean(bits != 0, ty)),
                        Err(q) => Err(q),
                    },
                    Err(q) => Err(q),
                },
                Err(q) => Err(q),
            }
        } else {
            Ok(Self::boolean(self.int_bits() == other.int_bits(), ty))
        }
    }

    pub open spec fn spec_ne(
        self,
        other: ConstValue,
        ty: ConstType,
        fp: Seq<FloatAnswer>,
    ) -> Result<
        ConstValue,
        FloatQuery,
    > {
        if self.ty.spec_is_flonum() || other.ty.spec_is_flonum() {
            match self.spec_as_double(fp) {
                Ok(a) => match other.spec_as_double(fp) {
                    Ok(b) => match asked(fp, FloatQuery::Eq(a, b)) {
                        Ok(bits) => Ok(Self::spec_bool(bits == 0, ty)),
                        Err(q) => Err(q),
                    },
                    Err(q) => Err(q),
                },
                Err(q) => Err(q),
            }
        } else {
            Ok(Self::spec_bool(self.spec_bits() != other.spec_bits(), ty))
        }
    }

    /// Compare for inequality.
    pub fn ne(self, other: ConstValue, ty: ConstType, fp: &FloatTable) -> (r: Result<
        ConstValue,
        FloatQuery,
    >)
        ensures
            r == self.spec_ne(other, ty, fp@),
    {
        proof {
            reveal(wrap);
            reveal(signed_value);
        }
        if self.ty.is_flonum() || other.ty.is_flonum() {
            match self.as_double(fp) {
                Ok(a) => match other.as_double(fp) {
                    Ok(b) => match fp.ask(FloatQuery::Eq(a, b)) {
                        Ok(bits) => Ok(Self::boolean(bits == 0, ty)),
                        Err(q) => Err(q),
                    },
                    Err(q) => Err(q),
                },
                Err(q) => Err(q),
            }
        } else {
            Ok(Self::boolean(self.int_bits() != other.int_bits(), ty))
        }
    }

    pub open spec fn spec_lt(
        self,
        other: ConstValue,
        ty: ConstType,
        fp: Seq<FloatAnswer>,
    ) -> Result<
        ConstValue,
        FloatQuery,
    > {
        if self.ty.spec_is_flonum() || other.ty.spec_is_flonum() {
            match self.spec_as_double(fp) {
                Ok(a) => match other.spec_as_double(fp) {
                    Ok(b) => match asked(fp, FloatQuery::Lt(a, b)) {
                        Ok(bits) => Ok(Self::spec_bool(bits != 0, ty)),
                        Err(q) => Err(q),
                    },
                    Err(q) => Err(q),
                },
                Err(q) => Err(q),
            }
        } else {
            Ok(
                Self::spec_bool(
                    if self.ty.spec_is_signed() {
                        self.value() < other.value()
                    } else {
                        self.spec_bits() < other.spec_bits()
                    },
                    ty,
                ),
            )
        }
    }

    /// Compare for "less than".
    pub fn lt(self, other: ConstValue, ty: ConstType, fp: &FloatTable) -> (r: Result<
        ConstValue,
        FloatQuery,
    >)
        ensures
            r == self.spec_lt(other, ty, fp@),
    {
        proof {
            reveal(wrap);
            reveal(signed_value);
        }
        if self.ty.is_flonum() || other.ty.is_flonum() {
            match self.as_double(fp) {
                Ok(a) => match other.as_double(fp) {
                    Ok(b) => match fp.ask(FloatQuery::Lt(a, b)) {
                        Ok(bits) => Ok(Self::boolean(bits != 0, ty)),
                        Err(q) => Err(q),
                    },
                    Err(q) => Err(q),
                },
                Err(q) => Err(q),
            }
        } else {
            if self.ty.is_signed() {
                Ok(Self::boolean(self.int_bits_as_signed() < other.int_bits_as_signed(), ty))
            } else {
                Ok(Self::boolean(self.int_bits() < other.int_bits(), ty))
            }
        }
    }

    pub open spec fn spec_le(
        self,
        other: ConstValue,
        ty: ConstType,
        fp: Seq<FloatAnswer>,
    ) -> Result<
        ConstValue,
        FloatQuery,
    > {
        if self.ty.spec_is_flonum() || other.ty.spec_is_flonum() {
            match self.spec_as_double(fp) {
                Ok(a) => match other.spec_as_double(fp) {
                    Ok(b) => match asked(fp, FloatQuery::Le(a, b)) {
                        Ok(bits) => Ok(Self::spec_bool(bits != 0, ty)),
                        Err(q) => Err(q),
                    },
                    Err(q) => Err(q),
                },
                Err(q) => Err(q),
            }
        } else {
            Ok(
                Self::spec_bool(
                    if self.ty.spec_is_signed() {
                        self.value() <= other.value()
                    } else {
                        self.spec_bits() <= other.spec_bits()
                    },
                    ty,
                ),
            )
        }
    }

    /// Compare for "less than or equal".
    pub fn le(self, other: ConstValue, ty: ConstType, fp: &FloatTable) -> (r: Result<
        ConstValue,
        FloatQuery,
    >)
        ensures
            r == self.spec_le(other, ty, fp@),
    {
        proof {
            reveal(wrap);
            reveal(signed_value);
        }
        if self.ty.is_flonum() || other.ty.is_flonum() {
            match self.as_double(fp) {
                Ok(a) => match other.as_double(fp) {
                    Ok(b) => match fp.ask(FloatQuery::Le(a, b)) {
                        Ok(bits) => Ok(Self::boolean(bits != 0, ty)),
                        Err(q) => Err(q),
                    },
                    Err(q) => Err(q),
                },
                Err(q) => Err(q),
            }
        } else {
            if self.ty.is_signed() {
                Ok(Self::boolean(self.int_bits_as_signed() <= other.int_bits_as_signed(), ty))
            } else {
                Ok(Self::boolean(self.int_bits() <= other.int_bits(), ty))
            }
        }
    }

    /// The value as a signed integer, if the constant is an integer that fits.
    pub fn to_i64(self) -> (r: Option<i64>)
        ensures
            r == (if self.is_float() || (!self.ty.spec_is_signed() && self.spec_bits() > i64::MAX) {
                None::<i64>
            } else {
                Some(self.value() as i64)
            }),
    {
        match self.raw {
            RawConstValue::Float(_) => None,
            RawConstValue::Int(_) => if self.ty.is_signed() || self.int_bits() <= i64::MAX as u64 {
                Some(self.int_bits_as_signed())
            } else {
                None
            },
        }
    }

    #[verifier::opaque]
    pub open spec fn spec_to_u64(self) -> Option<u64> {
        if self.is_float() || (self.ty.spec_is_signed() && self.value() < 0) {
            None
        } else if self.ty.spec_is_signed() {
            Some(self.value() as u64)
        } else {
            Some(self.spec_bits())
        }
    }

    /// The value as an unsigned integer, if the constant is an integer that is
    /// not negative.
    pub fn to_u64(self) -> (r: Option<u64>)
        ensures
            r == self.spec_to_u64(),
    {
        proof {
            reveal(ConstValue::spec_to_u64);
            reveal(wrap);
            reveal(signed_value);
        }
        match self.raw {
            RawConstValue::Float(_) => None,
            RawConstValue::Int(_) => if self.ty.is_signed() {
                let v: i64 = self.int_bits_as_signed();
                if v < 0 {
                    None
                } else {
                    Some(v as u64)
                }
            } else {
                Some(self.int_bits())
            },
        }
    }

    #[verifier::opaque]
    pub open spec fn spec_to_usize(self) -> Option<usize> {
        match self.spec_to_u64() {
            Some(v) => if v <= usize::MAX {
                Some(v as usize)
            } else {
                None
            },
            None => None,
        }
    }

    /// The value as a size, if the constant is an integer that fits.
    pub fn to_usize(self) -> (r: Option<usize>)
        ensures
            r == self.spec_to_usize(),
    {
        proof {
            reveal(ConstValue::spec_to_usize);
            reveal(wrap);
            reveal(signed_value);
        }
        match self.to_u64() {
            Some(v) => if v <= usize::MAX as u64 {
                Some(v as usize)
            } else {
                None
            },
            None => None,
        }
    }
}

proof fn wrapped_is_congruent(exact: int, bits: u64, ty: ConstType)
    requires
        bits as int == exact % 0x1_0000_0000_0000_0000,
    ensures
        wrap(exact, ty) == wrap(bits as int, ty),
{
    reveal(wrap);
    reveal(signed_value);
    lemma_mod_mod(exact, 0x100, 0x100_0000_0000_0000);
    lemma_mod_mod(exact, 0x1_0000, 0x1_0000_0000_0000);
    lemma_mod_mod(exact, 0x1_0000_0000, 0x1_0000_0000);
}

proof fn wrapping_add_is_congruent(a: u64, b: u64, ty: ConstType)
    ensures
        wrap(a + b, ty) == wrap(a.wrapping_add(b) as int, ty),
{
    reveal(wrap);
    reveal(signed_value);
    wrapped_is_congruent(a + b, a.wrapping_add(b), ty);
}

proof fn wrapping_sub_is_congruent(a: u64, b: u64, ty: ConstType)
    ensures
        wrap(a - b, ty) == wrap(a.wrapping_sub(b) as int, ty),
{
    reveal(wrap);
    reveal(signed_value);
    wrapped_is_congruent(a - b, a.wrapping_sub(b), ty);
}

proof fn wrapping_mul_is_congruent(a: u64, b: u64, ty: ConstType)
    ensures
        wrap(a * b, ty) == wrap(a.wrapping_mul(b) as int, ty),
{
    reveal(wrap);
    reveal(signed_value);
    wrapped_is_congruent(a * b, a.wrapping_mul(b), ty);
}

/// A constant is zero as a value exactly if its bits are zero.
proof fn value_is_zero_with_bits(value: ConstValue)
    ensures
        value.value() == 0 <==> value.spec_bits() == 0,
{
    reveal(wrap);
    reveal(signed_value);
    let bits = value.spec_bits();
    assert(0 <= bits as int % modulus(value.ty) < modulus(value.ty));
    assert(bits as int % modulus(value.ty) == bits);
}

/// The quotient of two integers, rounded toward zero.
fn div_signed(a: i64, b: i64, ty: ConstType) -> (r: ConstValue)
    requires
        b != 0,
    ensures
        r == ConstValue::spec_int(quotient(a as int, b as int), ty),
{
    proof {
        reveal(wrap);
        reveal(signed_value);
    }
    let q: u64 = abs(a) / abs(b);
    if (a < 0) == (b < 0) {
        ConstValue::integer(q, ty)
    } else {
        let bits: u64 = 0u64.wrapping_sub(q);
        proof {
            wrapped_is_congruent(-(q as int), bits, ty);
        }
        ConstValue::integer(bits, ty)
    }
}

/// The remainder of the division of two integers.
fn rem_signed(a: i64, b: i64, ty: ConstType) -> (r: ConstValue)
    requires
        b != 0,
    ensures
        r == ConstValue::spec_int(remainder(a as int, b as int), ty),
{
    proof {
        reveal(wrap);
        reveal(signed_value);
    }
    let m: u64 = abs(a) % abs(b);
    if a < 0 {
        let bits: u64 = 0u64.wrapping_sub(m);
        proof {
            wrapped_is_congruent(-(m as int), bits, ty);
        }
        ConstValue::integer(bits, ty)
    } else {
        ConstValue::integer(m, ty)
    }
}

proof fn lemma_floor_of_negative(v: int, n: nat)
    requires
        v < 0,
    ensures
        v / (pow2(n) as int) == -1 - (-1 - v) / (pow2(n) as int),
{
    vstd::arithmetic::power2::lemma_pow2_pos(n);
    let d = pow2(n) as int;
    let c = -1 - v;
    vstd::arithmetic::div_mod::lemma_fundamental_div_mod(c, d);
    let q = c / d;
    let r = c % d;
    assert(v == d * (-1 - q) + (d - 1 - r)) by (nonlinear_arith)
        requires
            c == d * q + r,
            v == -1 - c,
    ;
    vstd::arithmetic::div_mod::lemma_mod_bound(c, d);
    vstd::arithmetic::div_mod::lemma_fundamental_div_mod_converse(v, d, -1 - q, d - 1 - r);
}

/// The absolute value, which is never too large.
fn abs(v: i64) -> (r: u64)
    ensures
        r == magnitude(v as int),
{
    if v < 0 {
        (-1 - v) as u64 + 1
    } else {
        v as u64
    }
}

/// Keep the low bits of a value, as many as a type is wide.
fn normalize(bits: u64, ty: ConstType) -> (r: u64)
    ensures
        r == wrap(bits as int, ty),
{
    proof {
        reveal(wrap);
        reveal(signed_value);
    }
    let width: u64 = ty.width();
    if width == 8 {
        bits % 0x100
    } else if width == 16 {
        bits % 0x1_0000
    } else if width == 32 {
        bits % 0x1_0000_0000
    } else {
        bits
    }
}

} // verus!
