//! Scalars are loaded, stored, cast, and tested by their values.

use vstd::prelude::*;
use vstd::arithmetic::div_mod::{
    lemma_fundamental_div_mod, lemma_mod_add_multiples_vanish, lemma_mod_bound, lemma_mod_breakdown,
    lemma_mod_mod, lemma_mod_multiples_vanish, lemma_mod_twice, lemma_small_mod,
};
use crate::codegen::handover::bytes_capacity;
use crate::codegen::machine::{
    byte_count, bytes_at, capacity, group_code, machine_wf, no_code, one_more_is_run,
    one_more_is_written, read, run, signed, step, stored_at, written, Cond, Instr, Machine, Reg,
};
use crate::codegen::text::{
    compare_zero, gen_cast, load, negate, nl, number_cast, pop, push, putb, puts, set_is_nonzero,
    set_is_zero, store, store_returned, Gen, GenView, ScalarWidth,
};
use crate::types::{lookup, ArithType, Type, TypeForm, Types};

verus! {

/// An integer or a pointer: how wide it is in memory, and whether it has a sign.
pub struct Scalar {
    pub width: ScalarWidth,
    pub with_sign: bool,
    pub is_bool: bool,
}

pub open spec fn plain(width: ScalarWidth, with_sign: bool) -> Option<Scalar> {
    Some(Scalar { width, with_sign, is_bool: false })
}

/// The integers and the pointers.
pub open spec fn scalar(types: Types, ty: Type) -> Option<Scalar> {
    match ty {
        Type::Arith(ArithType::Bool) => Some(
            Scalar { width: ScalarWidth::Byte, with_sign: false, is_bool: true },
        ),
        Type::Arith(ArithType::Char) => plain(ScalarWidth::Byte, true),
        Type::Arith(ArithType::UChar) => plain(ScalarWidth::Byte, false),
        Type::Arith(ArithType::Short) => plain(ScalarWidth::Word, true),
        Type::Arith(ArithType::UShort) => plain(ScalarWidth::Word, false),
        Type::Enum | Type::Arith(ArithType::Int) => plain(ScalarWidth::Dword, true),
        Type::Arith(ArithType::UInt) => plain(ScalarWidth::Dword, false),
        Type::Arith(ArithType::Long) => plain(ScalarWidth::Qword, true),
        Type::Arith(ArithType::ULong) => plain(ScalarWidth::Qword, false),
        Type::Stored(_) => match lookup(types, ty) {
            Some(entry) => match entry.form {
                TypeForm::Ptr(_) => if entry.size == 8 {
                    plain(ScalarWidth::Qword, false)
                } else {
                    None
                },
                _ => None,
            },
            None => None,
        },
        _ => None,
    }
}

/// Whether a number is one of a scalar type.
pub open spec fn fits(s: Scalar, v: int) -> bool {
    if s.is_bool {
        v == 0 || v == 1
    } else if s.with_sign {
        -(capacity(s.width) / 2) <= v < capacity(s.width) / 2
    } else {
        0 <= v < capacity(s.width)
    }
}

/// Whether `%rax` holds a value of a scalar type: all of it for the widest and for
/// truth values, and its low half for the others, which are widened to that.
pub open spec fn has_value(m: Machine, s: Scalar, v: int) -> bool {
    &&& fits(s, v)
    &&& if s.width == ScalarWidth::Qword || s.is_bool {
        m.regs[Reg::Rax] == v % capacity(ScalarWidth::Qword)
    } else {
        read(m, Reg::Rax, ScalarWidth::Dword) == v % capacity(ScalarWidth::Dword)
    }
}

/// Whether a value of a scalar type is in memory at an address.
pub open spec fn value_at(mem: Map<int, u8>, address: int, s: Scalar, v: int) -> bool {
    fits(s, v) && bytes_at(mem, address, byte_count(s.width)) == v % capacity(s.width)
}

proof fn value_modulo(v: int, cap: int)
    requires
        cap > 0,
        -cap <= v < cap,
    ensures
        v % cap == if v < 0 {
            v + cap
        } else {
            v
        },
{
    if v < 0 {
        lemma_mod_add_multiples_vanish(v, cap);
        if v == -cap {
            lemma_small_mod(0, cap as nat);
        } else {
            lemma_small_mod((v + cap) as nat, cap as nat);
        }
    } else {
        lemma_small_mod(v as nat, cap as nat);
    }
}

/// The low bits of the low bits are the low bits.
proof fn low_of_low(x: int, small: ScalarWidth, large: ScalarWidth)
    requires
        byte_count(small) <= byte_count(large),
    ensures
        (x % capacity(large)) % capacity(small) == x % capacity(small),
{
    match (small, large) {
        (ScalarWidth::Byte, ScalarWidth::Word) => lemma_mod_mod(x, 0x100, 0x100),
        (ScalarWidth::Byte, ScalarWidth::Dword) => lemma_mod_mod(x, 0x100, 0x100_0000),
        (ScalarWidth::Byte, ScalarWidth::Qword) => lemma_mod_mod(x, 0x100, 0x100_0000_0000_0000),
        (ScalarWidth::Word, ScalarWidth::Dword) => lemma_mod_mod(x, 0x1_0000, 0x1_0000),
        (ScalarWidth::Word, ScalarWidth::Qword) => lemma_mod_mod(x, 0x1_0000, 0x1_0000_0000_0000),
        (ScalarWidth::Dword, ScalarWidth::Qword) => lemma_mod_mod(
            x,
            0x1_0000_0000,
            0x1_0000_0000,
        ),
        _ => lemma_mod_twice(x, capacity(large)),
    }
}

proof fn four_bytes_of_eight(mem: Map<int, u8>, a: int)
    ensures
        bytes_at(mem, a, 8) % 0x1_0000_0000 == bytes_at(mem, a, 4),
{
    reveal_with_fuel(bytes_at, 5);
    let rest = bytes_at(mem, a + 4, 4);
    let low = bytes_at(mem, a, 4);
    assert(bytes_at(mem, a, 8) == low + 0x1_0000_0000 * rest);
    lemma_mod_multiples_vanish(rest, low, 0x1_0000_0000);
    lemma_small_mod(low as nat, 0x1_0000_0000);
}

pub open spec fn load_instr(s: Scalar) -> Instr {
    if s.width == ScalarWidth::Dword && !s.with_sign {
        Instr::Load(ScalarWidth::Qword, false)
    } else {
        Instr::Load(s.width, s.with_sign || s.is_bool)
    }
}

/// Loading what `%rax` points to gives the value that is there.
pub proof fn loads_read_the_value(env: GenView, g: Gen, ty: Type)
    requires
        scalar(env.types, ty) is Some,
    ensures
        exists|code: Seq<Instr>|
            {
                &&& load(env, g, ty) == Ok::<Gen, crate::error::Error>(#[trigger] written(g, code))
                &&& forall|m: Machine, v: int|
                    value_at(
                        m.mem,
                        m.regs[Reg::Rax],
                        scalar(env.types, ty).unwrap(),
                        v,
                    ) && machine_wf(m) ==> (#[trigger] run(code, m)) is Some && #[trigger] has_value(
                        run(code, m).unwrap(),
                        scalar(env.types, ty).unwrap(),
                        v,
                    )
            },
{
    broadcast use group_code;

    reveal(load);
    let s = scalar(env.types, ty).unwrap();
    let i = load_instr(s);
    let code = no_code().push(i);
    assert(written(g, no_code()) == g);
    assert(load(env, g, ty) == Ok::<Gen, crate::error::Error>(written(g, code)));
    assert forall|m: Machine, v: int|
        value_at(m.mem, m.regs[Reg::Rax], s, v) && machine_wf(m) implies (
    #[trigger] run(code, m)) is Some && #[trigger] has_value(run(code, m).unwrap(), s, v) by {
        assert(run(no_code(), m) == Some(m));
        let a = m.regs[Reg::Rax];
        four_bytes_of_eight(m.mem, a);
        value_modulo(v, capacity(s.width));
        value_modulo(v, 0x1_0000_0000_0000_0000);
        if s.width != ScalarWidth::Qword {
            value_modulo(v, 0x1_0000_0000);
        }
        let r = step(i, m).unwrap();
        let x = r.regs[Reg::Rax];
        if s.width == ScalarWidth::Byte || s.width == ScalarWidth::Word {
            lemma_small_mod(x as nat, 0x1_0000_0000);
        } else if s.width == ScalarWidth::Dword && s.with_sign {
            lemma_mod_mod(v, 0x1_0000_0000, 0x1_0000_0000);
            assert(x == v % 0x1_0000_0000_0000_0000);
        }
    }
}

/// Storing touches the given number of bytes only.
pub proof fn storing_touches_its_bytes(mem: Map<int, u8>, a: int, n: int, x: int, at: int)
    ensures
        !(a <= at < a + n) ==> stored_at(mem, a, n, x)[at] == mem[at],
    decreases n,
{
    if n > 0 {
        storing_touches_its_bytes(
            mem.insert(a, (x % 0x100) as u8),
            a + 1,
            n - 1,
            x / 0x100,
            at,
        );
    }
}

proof fn capacity_is_positive(n: int)
    ensures
        bytes_capacity(n) > 0,
    decreases n,
{
    if n > 0 {
        capacity_is_positive(n - 1);
    }
}

/// Stored bytes are read back.
pub proof fn stored_number_is_read_back(mem: Map<int, u8>, a: int, n: int, x: int)
    requires
        n >= 0,
        x >= 0,
    ensures
        bytes_at(stored_at(mem, a, n, x), a, n) == x % bytes_capacity(n),
    decreases n,
{
    if n > 0 {
        let low = (x % 0x100) as u8;
        let next = mem.insert(a, low);
        let s = stored_at(next, a + 1, n - 1, x / 0x100);
        storing_touches_its_bytes(next, a + 1, n - 1, x / 0x100, a);
        stored_number_is_read_back(next, a + 1, n - 1, x / 0x100);
        capacity_is_positive(n - 1);
        lemma_mod_breakdown(x, 0x100, bytes_capacity(n - 1));
        lemma_mod_bound(x, 0x100);
        assert(s[a] == low);
    }
}

/// Whether a value was stored where the top of the temporary stack pointed, that
/// address was taken off the stack, and no other byte was changed.
pub open spec fn stores(before: Machine, after: Option<Machine>, s: Scalar, v: int) -> bool {
    let to = bytes_at(before.mem, before.regs[Reg::Rsp], 8);
    let r = after.unwrap();
    &&& after is Some
    &&& value_at(r.mem, to, s, v)
    &&& r.regs[Reg::Rsp] == before.regs[Reg::Rsp] + 8
    &&& r.regs[Reg::Rax] == before.regs[Reg::Rax]
    &&& forall|at: int|
        !(to <= at < to + byte_count(s.width)) ==> #[trigger] r.mem[at] == before.mem[at]
}

pub open spec fn store_code(s: Scalar) -> Seq<Instr> {
    no_code().push(Instr::Pop(Reg::Rdi)).push(Instr::Store(s.width))
}

/// The low bits of `%rax` are those of the value in it.
proof fn low_bits_are_those_of_the_value(m: Machine, s: Scalar, v: int, width: ScalarWidth)
    requires
        machine_wf(m),
        has_value(m, s, v),
        byte_count(width) <= byte_count(s.width),
    ensures
        read(m, Reg::Rax, width) == v % capacity(width),
        0 <= read(m, Reg::Rax, width) < capacity(width),
{
    let rax = m.regs[Reg::Rax];
    lemma_mod_bound(rax, capacity(width));
    if s.width == ScalarWidth::Qword || s.is_bool {
        low_of_low(v, width, ScalarWidth::Qword);
    } else {
        low_of_low(v, width, ScalarWidth::Dword);
        low_of_low(rax, width, ScalarWidth::Dword);
    }
}

proof fn storing_stores(m: Machine, s: Scalar, v: int)
    requires
        machine_wf(m),
        has_value(m, s, v),
    ensures
        stores(m, run(store_code(s), m), s, v),
{
    let i1 = Instr::Pop(Reg::Rdi);
    let i2 = Instr::Store(s.width);
    one_more_is_run(no_code(), i1, m);
    one_more_is_run(no_code().push(i1), i2, m);
    let to = bytes_at(m.mem, m.regs[Reg::Rsp], 8);
    let n = byte_count(s.width);
    let x = read(m, Reg::Rax, s.width);
    let m1 = step(i1, m).unwrap();
    assert(m1.mem == m.mem);
    assert(m1.regs[Reg::Rax] == m.regs[Reg::Rax]);
    assert(m1.regs[Reg::Rdi] == to);
    let m2 = Machine { mem: stored_at(m.mem, to, n, x), ..m1 };
    assert(step(i2, m1) == Some(m2));
    assert(run(store_code(s), m) == Some(m2));
    assert(bytes_capacity(n) == capacity(s.width)) by {
        reveal_with_fuel(bytes_capacity, 9);
    }
    low_bits_are_those_of_the_value(m, s, v, s.width);
    stored_number_is_read_back(m.mem, to, n, x);
    lemma_small_mod(x as nat, capacity(s.width) as nat);
    assert forall|at: int| !(to <= at < to + n) implies #[trigger] m2.mem[at] == m.mem[at] by {
        storing_touches_its_bytes(m.mem, to, n, x, at);
    }
}

proof fn storing_is_written(env: GenView, g: Gen, ty: Type)
    requires
        scalar(env.types, ty) is Some,
        store(env, g, ty) is Ok,
    ensures
        store(env, g, ty)->Ok_0.out == written(
            g,
            store_code(scalar(env.types, ty).unwrap()),
        ).out,
{
    let s = scalar(env.types, ty).unwrap();
    let i1 = Instr::Pop(Reg::Rdi);
    let i2 = Instr::Store(s.width);
    one_more_is_written(g, no_code(), i1);
    one_more_is_written(g, no_code().push(i1), i2);
    reveal(store);
    reveal(pop);
    reveal(putb);
}

/// Storing a value puts it where the top of the temporary stack points, takes that
/// address off the stack, and changes no other byte.
pub proof fn stores_write_the_value(env: GenView, g: Gen, ty: Type)
    requires
        scalar(env.types, ty) is Some,
        store(env, g, ty) is Ok,
    ensures
        exists|code: Seq<Instr>|
            {
                &&& store(env, g, ty)->Ok_0.out == (#[trigger] written(g, code)).out
                &&& forall|m: Machine, v: int|
                    #![trigger run(code, m), has_value(m, scalar(env.types, ty).unwrap(), v)]
                    has_value(m, scalar(env.types, ty).unwrap(), v) && machine_wf(m) ==> stores(
                        m,
                        run(code, m),
                        scalar(env.types, ty).unwrap(),
                        v,
                    )
            },
{
    let s = scalar(env.types, ty).unwrap();
    let code = store_code(s);
    storing_is_written(env, g, ty);
    assert(store(env, g, ty)->Ok_0.out == written(g, code).out);
    assert forall|m: Machine, v: int|
        #![trigger run(code, m), has_value(m, s, v)]
        has_value(m, s, v) && machine_wf(m) implies stores(m, run(code, m), s, v) by {
        storing_stores(m, s, v);
    }
}

/// The number of a type that a number is converted to: whether it is zero for truth
/// values, else what is left of it in the width of the type.
pub open spec fn converted(v: int, s: Scalar) -> int {
    if s.is_bool {
        if v != 0 {
            1
        } else {
            0
        }
    } else if s.with_sign {
        signed(v % capacity(s.width), s.width)
    } else {
        v % capacity(s.width)
    }
}

/// What a test against zero looks at.
pub open spec fn test_width(s: Scalar) -> ScalarWidth {
    if s.width == ScalarWidth::Qword {
        ScalarWidth::Qword
    } else {
        ScalarWidth::Dword
    }
}

pub proof fn zero_is_found(m: Machine, s: Scalar, v: int)
    requires
        machine_wf(m),
        has_value(m, s, v),
    ensures
        read(m, Reg::Rax, test_width(s)) == 0 <==> v == 0,
        0 <= read(m, Reg::Rax, test_width(s)) < capacity(test_width(s)),
{
    let cap = capacity(test_width(s));
    let rax = m.regs[Reg::Rax];
    value_modulo(v, cap);
    lemma_mod_bound(rax, cap);
    if s.is_bool {
        value_modulo(v, 0x1_0000_0000_0000_0000);
        lemma_small_mod(rax as nat, 0x1_0000_0000);
    } else if s.width == ScalarWidth::Qword {
        lemma_small_mod(rax as nat, cap as nat);
    }
}

/// Code that sets `%rax` to whether it was zero, or was not.
pub open spec fn test_code(s: Scalar, cond: Cond, last: Instr) -> Seq<Instr> {
    no_code().push(Instr::CmpZero(test_width(s))).push(Instr::SetCond(cond)).push(last)
}

proof fn tests_tell(m: Machine, s: Scalar, v: int, cond: Cond, last: Instr)
    requires
        machine_wf(m),
        has_value(m, s, v),
        cond == Cond::E || cond == Cond::Ne,
        last == Instr::MovzxQuad || last == Instr::MovzxLong,
    ensures
        run(test_code(s, cond, last), m) is Some,
        run(test_code(s, cond, last), m).unwrap().regs[Reg::Rax] == if (v == 0) == (cond
            == Cond::E) {
            1int
        } else {
            0
        },
{
    let i1 = Instr::CmpZero(test_width(s));
    let i2 = Instr::SetCond(cond);
    one_more_is_run(no_code(), i1, m);
    one_more_is_run(no_code().push(i1), i2, m);
    one_more_is_run(no_code().push(i1).push(i2), last, m);
    zero_is_found(m, s, v);
    let m1 = step(i1, m).unwrap();
    assert(m1.regs == m.regs);
    let bit: int = if (v == 0) == (cond == Cond::E) {
        1
    } else {
        0
    };
    let m2 = step(i2, m1).unwrap();
    let x = m.regs[Reg::Rax];
    assert(m2.regs[Reg::Rax] == x - x % 0x100 + bit);
    lemma_fundamental_div_mod(x, 0x100);
    lemma_mod_multiples_vanish(x / 0x100, bit, 0x100);
    lemma_small_mod(bit as nat, 0x100);
    assert(read(m2, Reg::Rax, ScalarWidth::Byte) == bit);
}

/// Testing a value for zero, as "!" does, gives 1 if it is zero and else 0.
pub proof fn negations_tell_zero(env: GenView, g: Gen, ty: Type)
    requires
        scalar(env.types, ty) is Some,
    ensures
        exists|code: Seq<Instr>|
            {
                &&& nl(puts(set_is_zero(env, compare_zero(env, g, ty), ty), "  movzx %al, %rax"))
                    == #[trigger] written(g, code)
                &&& forall|m: Machine, v: int|
                    #![trigger run(code, m), has_value(m, scalar(env.types, ty).unwrap(), v)]
                    has_value(m, scalar(env.types, ty).unwrap(), v) && machine_wf(m) ==> run(
                        code,
                        m,
                    ) is Some && run(code, m).unwrap().regs[Reg::Rax] == if v == 0 {
                        1int
                    } else {
                        0
                    }
            },
{
    broadcast use group_code;

    reveal(compare_zero);
    reveal(set_is_zero);
    let s = scalar(env.types, ty).unwrap();
    let code = test_code(s, Cond::E, Instr::MovzxQuad);
    assert(written(g, no_code()) == g);
    assert(nl(puts(set_is_zero(env, compare_zero(env, g, ty), ty), "  movzx %al, %rax")) == written(
        g,
        code,
    ));
    assert forall|m: Machine, v: int|
        #![trigger run(code, m), has_value(m, s, v)]
        has_value(m, s, v) && machine_wf(m) implies run(code, m) is Some && run(
        code,
        m,
    ).unwrap().regs[Reg::Rax] == if v == 0 {
        1int
    } else {
        0
    } by {
        tests_tell(m, s, v, Cond::E, Instr::MovzxQuad);
    }
}

/// Whether two scalars are kept in the same way.
pub open spec fn same_scalar(a: Scalar, b: Scalar) -> bool {
    a.width == b.width && a.with_sign == b.with_sign && a.is_bool == b.is_bool
}

/// The code of a cast.
pub open spec fn cast_code(from: Scalar, to: Scalar) -> Seq<Instr> {
    if to.is_bool {
        test_code(from, Cond::Ne, Instr::MovzxLong)
    } else if from.is_bool || same_scalar(from, to) {
        no_code()
    } else {
        match to.width {
            ScalarWidth::Byte => no_code().push(Instr::Extend(ScalarWidth::Byte, to.with_sign)),
            ScalarWidth::Word => if from.width == ScalarWidth::Byte && (to.with_sign
                || !from.with_sign) {
                no_code()
            } else {
                no_code().push(Instr::Extend(ScalarWidth::Word, to.with_sign))
            },
            ScalarWidth::Dword => no_code(),
            ScalarWidth::Qword => match from.width {
                ScalarWidth::Qword => no_code(),
                ScalarWidth::Dword => no_code().push(
                    if from.with_sign {
                        Instr::Movsxd
                    } else {
                        Instr::MovEaxEax
                    },
                ),
                _ => no_code().push(Instr::Movsxd),
            },
        }
    }
}

proof fn extending_converts(m: Machine, from: Scalar, to: Scalar, v: int)
    requires
        machine_wf(m),
        has_value(m, from, v),
        !from.is_bool,
        !to.is_bool,
        to.width == ScalarWidth::Byte || to.width == ScalarWidth::Word,
    ensures
        ({
            let r = step(Instr::Extend(to.width, to.with_sign), m);
            r is Some && has_value(r.unwrap(), to, converted(v, to))
        }),
{
    let cap = capacity(to.width);
    let rax = m.regs[Reg::Rax];
    let bits = read(m, Reg::Rax, to.width);
    lemma_mod_bound(rax, cap);
    if from.width == ScalarWidth::Qword {
        low_of_low(v, to.width, ScalarWidth::Qword);
    } else {
        low_of_low(v, to.width, ScalarWidth::Dword);
        low_of_low(rax, to.width, ScalarWidth::Dword);
    }
    assert(bits == v % cap);
    lemma_mod_bound(v, cap);
    let n = converted(v, to);
    value_modulo(n, 0x1_0000_0000);
    let r = step(Instr::Extend(to.width, to.with_sign), m).unwrap();
    assert(r.regs[Reg::Rax] == n % 0x1_0000_0000);
    lemma_mod_bound(n, 0x1_0000_0000);
    lemma_small_mod((n % 0x1_0000_0000) as nat, 0x1_0000_0000);
}

/// A value that stays as it is where a cast has nothing to do.
proof fn nothing_converts(m: Machine, from: Scalar, to: Scalar, v: int)
    requires
        machine_wf(m),
        has_value(m, from, v),
        !to.is_bool,
        cast_code(from, to).len() == 0,
    ensures
        has_value(m, to, converted(v, to)),
{
    let cap = capacity(to.width);
    let n = converted(v, to);
    let rax = m.regs[Reg::Rax];
    lemma_mod_bound(v, cap);
    value_modulo(n, 0x1_0000_0000_0000_0000);
    if to.width != ScalarWidth::Qword {
        value_modulo(n, 0x1_0000_0000);
        lemma_mod_mod(v, 0x1_0000_0000, 0x1_0000_0000);
        if from.width != ScalarWidth::Qword {
            value_modulo(v, 0x1_0000_0000);
        }
    }
    if from.width != ScalarWidth::Qword {
        value_modulo(v, 0x1_0000_0000_0000_0000);
    } else if to.width == ScalarWidth::Qword {
        value_modulo(v, 0x1_0000_0000_0000_0000);
    }
    if from.is_bool {
        lemma_small_mod(rax as nat, 0x1_0000_0000);
        value_modulo(v, cap);
    } else if to.width != ScalarWidth::Dword {
        value_modulo(v, cap);
    }
}

proof fn widening_converts(m: Machine, from: Scalar, to: Scalar, v: int)
    requires
        machine_wf(m),
        has_value(m, from, v),
        !from.is_bool,
        !to.is_bool,
        to.width == ScalarWidth::Qword,
        from.width != ScalarWidth::Qword,
    ensures
        ({
            let r = step(cast_code(from, to)[0], m);
            r is Some && has_value(r.unwrap(), to, converted(v, to))
        }),
{
    value_modulo(v, 0x1_0000_0000);
    value_modulo(v, 0x1_0000_0000_0000_0000);
    let n = converted(v, to);
    value_modulo(n, 0x1_0000_0000_0000_0000);
    lemma_mod_bound(m.regs[Reg::Rax], 0x1_0000_0000);
}

/// Whether a type is an integer type.
pub open spec fn is_number(ty: Type) -> bool {
    scalar(Seq::empty(), ty) is Some && !(ty is Stored)
}

proof fn cast_is_written(env: GenView, g: Gen, from: Type, to: Type)
    requires
        is_number(from),
        is_number(to),
    ensures
        gen_cast(env, g, from, to) == written(
            g,
            cast_code(scalar(env.types, from).unwrap(), scalar(env.types, to).unwrap()),
        ),
{
    reveal(gen_cast);
    let a = scalar(env.types, from).unwrap();
    let b = scalar(env.types, to).unwrap();
    let code = cast_code(a, b);
    assert(written(g, no_code()) == g);
    if b.is_bool {
        reveal(compare_zero);
        reveal(set_is_nonzero);
        let i1 = Instr::CmpZero(test_width(a));
        let i2 = Instr::SetCond(Cond::Ne);
        one_more_is_written(g, no_code(), i1);
        one_more_is_written(g, no_code().push(i1), i2);
        one_more_is_written(g, no_code().push(i1).push(i2), Instr::MovzxLong);
    } else {
        reveal(number_cast);
        if code.len() == 0 {
            assert(code =~= no_code());
        } else {
            one_more_is_written(g, no_code(), code[0]);
            assert(code =~= no_code().push(code[0]));
        }
    }
}

proof fn cast_converts(m: Machine, a: Scalar, b: Scalar, v: int)
    requires
        machine_wf(m),
        has_value(m, a, v),
    ensures
        run(cast_code(a, b), m) is Some,
        has_value(run(cast_code(a, b), m).unwrap(), b, converted(v, b)),
{
    let code = cast_code(a, b);
    assert(run(no_code(), m) == Some(m));
    if b.is_bool {
        tests_tell(m, a, v, Cond::Ne, Instr::MovzxLong);
        value_modulo(converted(v, b), 0x1_0000_0000_0000_0000);
    } else if code.len() == 0 {
        assert(code =~= no_code());
        nothing_converts(m, a, b, v);
    } else {
        one_more_is_run(no_code(), code[0], m);
        assert(code =~= no_code().push(code[0]));
        if b.width == ScalarWidth::Qword {
            widening_converts(m, a, b, v);
        } else {
            extending_converts(m, a, b, v);
        }
    }
}

/// A cast of one integer to another gives what is left of the value in the width
/// of the type, with its sign; and one to `_Bool` whether it is zero.
pub proof fn casts_convert_the_value(env: GenView, g: Gen, from: Type, to: Type)
    requires
        is_number(from),
        is_number(to),
    ensures
        exists|code: Seq<Instr>|
            {
                &&& gen_cast(env, g, from, to) == #[trigger] written(g, code)
                &&& forall|m: Machine, v: int|
                    #![trigger run(code, m), has_value(m, scalar(env.types, from).unwrap(), v)]
                    has_value(m, scalar(env.types, from).unwrap(), v) && machine_wf(m) ==> run(
                        code,
                        m,
                    ) is Some && has_value(
                        run(code, m).unwrap(),
                        scalar(env.types, to).unwrap(),
                        converted(v, scalar(env.types, to).unwrap()),
                    )
            },
{
    let a = scalar(env.types, from).unwrap();
    let b = scalar(env.types, to).unwrap();
    let code = cast_code(a, b);
    cast_is_written(env, g, from, to);
    assert(gen_cast(env, g, from, to) == written(g, code));
    assert forall|m: Machine, v: int|
        #![trigger run(code, m), has_value(m, a, v)]
        has_value(m, a, v) && machine_wf(m) implies run(code, m) is Some && has_value(
        run(code, m).unwrap(),
        b,
        converted(v, b),
    ) by {
        cast_converts(m, a, b, v);
    }
}

/// Negating an integer negates its number, as far as the type can tell.
pub proof fn negating_negates(env: GenView, g: Gen, ty: Type)
    requires
        is_number(ty),
        scalar(env.types, ty).unwrap().width == ScalarWidth::Dword || scalar(
            env.types,
            ty,
        ).unwrap().width == ScalarWidth::Qword,
    ensures
        exists|code: Seq<Instr>|
            {
                &&& negate(env, g, ty) == #[trigger] written(g, code)
                &&& forall|m: Machine, v: int|
                    #![trigger run(code, m), has_value(m, scalar(env.types, ty).unwrap(), v)]
                    has_value(m, scalar(env.types, ty).unwrap(), v) && machine_wf(m) ==> run(
                        code,
                        m,
                    ) is Some && has_value(
                        run(code, m).unwrap(),
                        scalar(env.types, ty).unwrap(),
                        converted(-v, scalar(env.types, ty).unwrap()),
                    )
            },
{
    broadcast use group_code;

    reveal(negate);
    let s = scalar(env.types, ty).unwrap();
    let code = no_code().push(Instr::Neg);
    assert(written(g, no_code()) == g);
    assert(negate(env, g, ty) == written(g, code));
    assert forall|m: Machine, v: int|
        #![trigger run(code, m), has_value(m, s, v)]
        has_value(m, s, v) && machine_wf(m) implies run(code, m) is Some && has_value(
        run(code, m).unwrap(),
        s,
        converted(-v, s),
    ) by {
        assert(run(no_code(), m) == Some(m));
        negated_value(m, s, v);
    }
}

proof fn negated_value(m: Machine, s: Scalar, v: int)
    requires
        machine_wf(m),
        has_value(m, s, v),
        !s.is_bool,
        s.width == ScalarWidth::Dword || s.width == ScalarWidth::Qword,
    ensures
        step(Instr::Neg, m) is Some,
        has_value(step(Instr::Neg, m).unwrap(), s, converted(-v, s)),
{
    let cap = capacity(s.width);
    let all = 0x1_0000_0000_0000_0000int;
    let rax = m.regs[Reg::Rax];
    let r = step(Instr::Neg, m).unwrap();
    let n = converted(-v, s);
    lemma_mod_bound(-v, cap);
    value_modulo(n, cap);
    assert(n % cap == (-v) % cap);
    let y = r.regs[Reg::Rax];
    assert(y == if rax == 0 {
        0
    } else {
        all - rax
    });
    lemma_mod_bound(rax, cap);
    lemma_mod_bound(v, cap);
    if s.width == ScalarWidth::Qword {
        lemma_small_mod(rax as nat, cap as nat);
    }
    assert(rax % cap == v % cap) by {
        lemma_small_mod((v % cap) as nat, cap as nat);
    }
    vstd::arithmetic::div_mod::lemma_sub_mod_noop(0, v, cap);
    vstd::arithmetic::div_mod::lemma_sub_mod_noop(0, rax, cap);
    assert((-v) % cap == (-rax) % cap);
    let q: int = if s.width == ScalarWidth::Qword {
        1
    } else {
        0x1_0000_0000
    };
    assert(cap * q == all);
    if rax != 0 {
        lemma_mod_multiples_vanish(q, -rax, cap);
        assert(y % cap == (-rax) % cap);
    }
    if s.width == ScalarWidth::Qword {
        lemma_small_mod(y as nat, cap as nat);
    }
}

/// The code that widens a narrow number that a function returned.
pub open spec fn widen_code(s: Scalar) -> Seq<Instr> {
    if s.is_bool {
        no_code().push(Instr::MovzxLong)
    } else if s.width == ScalarWidth::Byte || s.width == ScalarWidth::Word {
        no_code().push(Instr::Extend(s.width, s.with_sign))
    } else {
        no_code()
    }
}

proof fn narrow_is_widened(m: Machine, s: Scalar, v: int)
    requires
        fits(s, v),
        !s.is_bool,
        s.width == ScalarWidth::Byte || s.width == ScalarWidth::Word,
        read(m, Reg::Rax, s.width) == v % capacity(s.width),
    ensures
        step(Instr::Extend(s.width, s.with_sign), m) is Some,
        has_value(step(Instr::Extend(s.width, s.with_sign), m).unwrap(), s, v),
{
    let bits = read(m, Reg::Rax, s.width);
    value_modulo(v, capacity(s.width));
    value_modulo(v, 0x1_0000_0000);
    assert(s.with_sign ==> signed(bits, s.width) == v);
    assert(!s.with_sign ==> bits == v);
    let x = if v < 0 {
        v + 0x1_0000_0000
    } else {
        v
    };
    let r = step(Instr::Extend(s.width, s.with_sign), m).unwrap();
    assert(r.regs[Reg::Rax] == x);
    lemma_small_mod(x as nat, 0x1_0000_0000);
}

proof fn widening_widens(m: Machine, s: Scalar, v: int)
    requires
        machine_wf(m),
        fits(s, v),
        s.is_bool ==> s.width == ScalarWidth::Byte,
        read(m, Reg::Rax, s.width) == v % capacity(s.width),
    ensures
        run(widen_code(s), m) is Some,
        has_value(run(widen_code(s), m).unwrap(), s, v),
{
    assert(run(no_code(), m) == Some(m));
    if s.is_bool {
        one_more_is_run(no_code(), Instr::MovzxLong, m);
        lemma_small_mod(v as nat, 0x100);
        lemma_small_mod(v as nat, 0x1_0000_0000_0000_0000);
    } else if s.width == ScalarWidth::Byte || s.width == ScalarWidth::Word {
        one_more_is_run(no_code(), Instr::Extend(s.width, s.with_sign), m);
        narrow_is_widened(m, s, v);
    } else if s.width == ScalarWidth::Qword {
        lemma_small_mod(m.regs[Reg::Rax] as nat, 0x1_0000_0000_0000_0000);
    }
}

/// A number that a function returned is widened from its own width, with its sign.
pub proof fn returned_numbers_are_widened(env: GenView, g: Gen, ty: Type)
    requires
        is_number(ty),
    ensures
        exists|code: Seq<Instr>|
            {
                &&& store_returned(env, g, ty, None) == Ok::<Gen, crate::error::Error>(
                    #[trigger] written(g, code),
                )
                &&& forall|m: Machine, v: int|
                    #![trigger run(code, m), fits(scalar(env.types, ty).unwrap(), v)]
                    machine_wf(m) && fits(scalar(env.types, ty).unwrap(), v) && read(
                        m,
                        Reg::Rax,
                        scalar(env.types, ty).unwrap().width,
                    ) == v % capacity(scalar(env.types, ty).unwrap().width) ==> run(
                        code,
                        m,
                    ) is Some && has_value(
                        run(code, m).unwrap(),
                        scalar(env.types, ty).unwrap(),
                        v,
                    )
            },
{
    reveal(store_returned);
    let s = scalar(env.types, ty).unwrap();
    let code = widen_code(s);
    one_more_is_written(g, no_code(), Instr::MovzxLong);
    one_more_is_written(g, no_code(), Instr::Extend(s.width, s.with_sign));
    assert(store_returned(env, g, ty, None) == Ok::<Gen, crate::error::Error>(written(g, code)));
    assert forall|m: Machine, v: int|
        #![trigger run(code, m), fits(s, v)]
        machine_wf(m) && fits(s, v) && read(m, Reg::Rax, s.width) == v % capacity(s.width)
        implies run(code, m) is Some && has_value(run(code, m).unwrap(), s, v) by {
        widening_widens(m, s, v);
    }
}

} // verus!
