//! Generated code computes what the operations of the program mean.

use vstd::prelude::*;
use vstd::arithmetic::div_mod::{
    lemma_fundamental_div_mod, lemma_mod_add_multiples_vanish, lemma_mod_bound, lemma_mul_mod_noop,
    lemma_small_mod,
};
use vstd::arithmetic::power2::{lemma_pow2_pos, pow2};
use crate::ast::BinaryOp;
use crate::codegen::machine::{
    capacity, compared, divided, group_code, holds, machine_wf, no_code, one_more_is_run, read, run,
    shifted, signed, step, truncated, written, AluOp, Cond, Instr, Machine, Reg, ShiftOp,
};
use crate::codegen::text::{int_binary, int_compare, int_divide, Gen, GenView, ScalarWidth};
use crate::types::{lookup, ArithType, Type, TypeForm, Types};

verus! {

/// How a value of a type is kept in a register while it is computed with: in how
/// many bits, and whether they have a sign.
pub struct Kept {
    pub width: ScalarWidth,
    pub with_sign: bool,
}

/// How the integers and pointers that operations work on are kept.
pub open spec fn kept(types: Types, ty: Type) -> Option<Kept> {
    match ty {
        Type::Enum | Type::Arith(ArithType::Int) => Some(
            Kept { width: ScalarWidth::Dword, with_sign: true },
        ),
        Type::Arith(ArithType::UInt) => Some(
            Kept { width: ScalarWidth::Dword, with_sign: false },
        ),
        Type::Arith(ArithType::Long) => Some(
            Kept { width: ScalarWidth::Qword, with_sign: true },
        ),
        Type::Arith(ArithType::ULong) => Some(
            Kept { width: ScalarWidth::Qword, with_sign: false },
        ),
        Type::Stored(_) => match lookup(types, ty) {
            Some(entry) => match entry.form {
                TypeForm::Ptr(_) => Some(Kept { width: ScalarWidth::Qword, with_sign: false }),
                _ => None,
            },
            None => None,
        },
        _ => None,
    }
}

/// The number that a register holds.
pub open spec fn number(m: Machine, reg: Reg, kept: Kept) -> int {
    if kept.with_sign {
        signed(read(m, reg, kept.width), kept.width)
    } else {
        read(m, reg, kept.width)
    }
}

/// Whether a register holds a number as far as its width can tell.
pub open spec fn holds_number(m: Machine, reg: Reg, kept: Kept, n: int) -> bool {
    read(m, reg, kept.width) == n % capacity(kept.width)
}

/// Whether some bits are, one by one, a combination of those of two others.
pub open spec fn combines(r: int, a: int, b: int, rule: spec_fn(bool, bool) -> bool) -> bool {
    forall|i: u64|
        i < 64 ==> #[trigger] has_bit(r as u64, i) == rule(
            has_bit(a as u64, i),
            has_bit(b as u64, i),
        )
}

pub open spec fn has_bit(bits: u64, i: u64) -> bool {
    (bits >> i) & 1 == 1
}

/// Whether a remainder is that of a division toward zero.
pub open spec fn is_rest(rest: int, a: int, b: int) -> bool {
    &&& -b < rest < b || b < rest < -b
    &&& rest < 0 ==> a < 0
    &&& rest > 0 ==> a > 0
}

/// Whether the outcome of a comparison is in a register.
pub open spec fn tells(m: Machine, truth: bool) -> bool {
    m.regs[Reg::Rax] == if truth {
        1int
    } else {
        0
    }
}

/// What an operation on the numbers in `%rax` and `%rdi` has to leave in `%rax`,
/// wherever the program may rely on it.
pub open spec fn computes(op: BinaryOp, k: Kept, m: Machine, after: Option<Machine>) -> bool {
    let a = number(m, Reg::Rax, k);
    let b = number(m, Reg::Rdi, k);
    let bits = if k.width == ScalarWidth::Qword {
        64int
    } else {
        32
    };
    let divides = b != 0 && !(k.with_sign && a == -(capacity(k.width) / 2) && b == -1);
    let r = after.unwrap();
    match op {
        BinaryOp::Add => after is Some && holds_number(r, Reg::Rax, k, a + b),
        BinaryOp::Sub => after is Some && holds_number(r, Reg::Rax, k, a - b),
        BinaryOp::Mul => after is Some && holds_number(r, Reg::Rax, k, a * b),
        BinaryOp::Div => divides ==> after is Some && exists|rest: int|
            #[trigger] is_rest(rest, a, b) && a == number(r, Reg::Rax, k) * b + rest,
        BinaryOp::Mod => divides ==> after is Some && is_rest(
            number(r, Reg::Rax, k),
            a,
            b,
        ) && exists|q: int| a == #[trigger] (q * b) + number(r, Reg::Rax, k),
        BinaryOp::BitAnd => after is Some && combines(
            read(r, Reg::Rax, k.width),
            read(m, Reg::Rax, k.width),
            read(m, Reg::Rdi, k.width),
            |p: bool, q: bool| p && q,
        ),
        BinaryOp::BitOr => after is Some && combines(
            read(r, Reg::Rax, k.width),
            read(m, Reg::Rax, k.width),
            read(m, Reg::Rdi, k.width),
            |p: bool, q: bool| p || q,
        ),
        BinaryOp::BitXor => after is Some && combines(
            read(r, Reg::Rax, k.width),
            read(m, Reg::Rax, k.width),
            read(m, Reg::Rdi, k.width),
            |p: bool, q: bool| p != q,
        ),
        BinaryOp::BitLeftShift => 0 <= b < bits ==> after is Some && holds_number(
            r,
            Reg::Rax,
            k,
            a * pow2(b as nat),
        ),
        BinaryOp::BitRightShift => 0 <= b < bits ==> after is Some && number(
            r,
            Reg::Rax,
            k,
        ) == a / (pow2(b as nat) as int),
        BinaryOp::Eq => after is Some && tells(r, a == b),
        BinaryOp::Ne => after is Some && tells(r, a != b),
        BinaryOp::Lt => after is Some && tells(r, a < b),
        BinaryOp::Le => after is Some && tells(r, a <= b),
    }
}

pub open spec fn compare_cond(op: BinaryOp, with_sign: bool) -> Cond {
    match op {
        BinaryOp::Eq => Cond::E,
        BinaryOp::Ne => Cond::Ne,
        BinaryOp::Lt => if with_sign {
            Cond::L
        } else {
            Cond::B
        },
        _ => if with_sign {
            Cond::Le
        } else {
            Cond::Be
        },
    }
}

/// Whether a comparison holds of two numbers.
pub open spec fn compares(op: BinaryOp, a: int, b: int) -> bool {
    match op {
        BinaryOp::Eq => a == b,
        BinaryOp::Ne => a != b,
        BinaryOp::Lt => a < b,
        _ => a <= b,
    }
}

proof fn conditions_tell(op: BinaryOp, a: int, b: int, k: Kept)
    requires
        0 <= a < capacity(k.width),
        0 <= b < capacity(k.width),
        op == BinaryOp::Eq || op == BinaryOp::Ne || op == BinaryOp::Lt || op == BinaryOp::Le,
    ensures
        holds(compare_cond(op, k.with_sign), compared(a, b, k.width)) == compares(
            op,
            if k.with_sign {
                signed(a, k.width)
            } else {
                a
            },
            if k.with_sign {
                signed(b, k.width)
            } else {
                b
            },
        ),
{
}

/// Setting the low byte of a register sets it.
proof fn low_byte_is_set(x: int, v: int)
    requires
        0 <= v < 0x100,
    ensures
        (x - x % 0x100 + v) % 0x100 == v,
{
    lemma_fundamental_div_mod(x, 0x100);
    vstd::arithmetic::div_mod::lemma_mod_multiples_vanish(x / 0x100, v, 0x100);
    lemma_small_mod(v as nat, 0x100);
}

proof fn comparison_is_computed(op: BinaryOp, k: Kept, m: Machine)
    requires
        machine_wf(m),
        op == BinaryOp::Eq || op == BinaryOp::Ne || op == BinaryOp::Lt || op == BinaryOp::Le,
    ensures
        ({
            let code = no_code().push(Instr::Cmp(k.width, Reg::Rdi, Reg::Rax)).push(
                Instr::SetCond(compare_cond(op, k.with_sign)),
            ).push(Instr::Movzb);
            computes(op, k, m, run(code, m))
        }),
{
    let c0 = no_code();
    let i1 = Instr::Cmp(k.width, Reg::Rdi, Reg::Rax);
    let i2 = Instr::SetCond(compare_cond(op, k.with_sign));
    one_more_is_run(c0, i1, m);
    one_more_is_run(c0.push(i1), i2, m);
    one_more_is_run(c0.push(i1).push(i2), Instr::Movzb, m);
    assert(run(c0, m) == Some(m));
    let a = read(m, Reg::Rax, k.width);
    let b = read(m, Reg::Rdi, k.width);
    lemma_mod_bound(m.regs[Reg::Rax], capacity(k.width));
    lemma_mod_bound(m.regs[Reg::Rdi], capacity(k.width));
    conditions_tell(op, a, b, k);
    let m1 = step(i1, m).unwrap();
    let truth = holds(i2->SetCond_0, m1.flags);
    let bit: int = if truth {
        1
    } else {
        0
    };
    let m2 = step(i2, m1).unwrap();
    low_byte_is_set(m.regs[Reg::Rax], bit);
    assert(read(m2, Reg::Rax, ScalarWidth::Byte) == bit);
    let m3 = step(Instr::Movzb, m2).unwrap();
    assert(m3.regs[Reg::Rax] == bit);
}

/// The code of a comparison leaves 1 in `%rax` exactly if the numbers compare so
/// in C, by value and with their signs, else 0.
pub proof fn comparisons_compare_the_numbers(env: GenView, g: Gen, op: BinaryOp, ty: Type)
    requires
        kept(env.types, ty) is Some,
        op == BinaryOp::Eq || op == BinaryOp::Ne || op == BinaryOp::Lt || op == BinaryOp::Le,
    ensures
        exists|code: Seq<Instr>|
            {
                &&& int_compare(env, g, op, ty) == #[trigger] written(g, code)
                &&& forall|m: Machine|
                    machine_wf(m) ==> computes(
                        op,
                        kept(env.types, ty).unwrap(),
                        m,
                        #[trigger] run(code, m),
                    )
            },
{
    broadcast use group_code;

    reveal(int_compare);
    let k = kept(env.types, ty).unwrap();
    let code = no_code().push(Instr::Cmp(k.width, Reg::Rdi, Reg::Rax)).push(
        Instr::SetCond(compare_cond(op, k.with_sign)),
    ).push(Instr::Movzb);
    assert(written(g, no_code()) == g);
    assert(int_compare(env, g, op, ty) == written(g, code));
    assert forall|m: Machine| machine_wf(m) implies computes(op, k, m, #[trigger] run(code, m)) by {
        comparison_is_computed(op, k, m);
    }
}

/// The code of an operation.
pub open spec fn operation_code(op: BinaryOp, k: Kept) -> Seq<Instr> {
    let w = k.width;
    let alu = |op: AluOp| no_code().push(Instr::Alu(op, w, Reg::Rdi, Reg::Rax));
    let divide = no_code().push(
        if k.with_sign {
            Instr::Spread(w)
        } else {
            Instr::Clear(w, Reg::Rdx)
        },
    ).push(Instr::Divide(w, k.with_sign));
    let count = no_code().push(Instr::Mov(w, Reg::Rdi, Reg::Rcx));
    match op {
        BinaryOp::Add => alu(AluOp::Add),
        BinaryOp::Sub => alu(AluOp::Sub),
        BinaryOp::Mul => alu(AluOp::Imul),
        BinaryOp::BitAnd => alu(AluOp::And),
        BinaryOp::BitOr => alu(AluOp::Or),
        BinaryOp::BitXor => alu(AluOp::Xor),
        BinaryOp::Div => divide,
        BinaryOp::Mod => divide.push(Instr::Mov(w, Reg::Rdx, Reg::Rax)),
        BinaryOp::BitLeftShift => count.push(Instr::Shift(ShiftOp::Shl, w)),
        BinaryOp::BitRightShift => count.push(
            Instr::Shift(
                if k.with_sign {
                    ShiftOp::Sar
                } else {
                    ShiftOp::Shr
                },
                w,
            ),
        ),
        _ => no_code().push(Instr::Cmp(w, Reg::Rdi, Reg::Rax)).push(
            Instr::SetCond(compare_cond(op, k.with_sign)),
        ).push(Instr::Movzb),
    }
}

/// Whether operations work on a width.
pub open spec fn is_wide(k: Kept) -> bool {
    k.width == ScalarWidth::Dword || k.width == ScalarWidth::Qword
}

pub proof fn number_and_bits(m: Machine, reg: Reg, k: Kept)
    requires
        machine_wf(m),
        is_wide(k),
    ensures
        0 <= read(m, reg, k.width) < capacity(k.width),
        number(m, reg, k) % capacity(k.width) == read(m, reg, k.width),
        k.with_sign ==> -(capacity(k.width) / 2) <= number(m, reg, k) < capacity(k.width) / 2,
        !k.with_sign ==> 0 <= number(m, reg, k) < capacity(k.width),
{
    let cap = capacity(k.width);
    let bits = read(m, reg, k.width);
    lemma_mod_bound(m.regs[reg], cap);
    lemma_small_mod(bits as nat, cap as nat);
    lemma_mod_add_multiples_vanish(bits - cap, cap);
}

/// A number that fits is read back.
proof fn number_is_read_back(n: int, k: Kept)
    requires
        is_wide(k),
        k.with_sign ==> -(capacity(k.width) / 2) <= n < capacity(k.width) / 2,
        !k.with_sign ==> 0 <= n < capacity(k.width),
    ensures
        0 <= n % capacity(k.width) < capacity(k.width),
        (n % capacity(k.width)) % capacity(k.width) == n % capacity(k.width),
        n == if k.with_sign {
            signed(n % capacity(k.width), k.width)
        } else {
            n % capacity(k.width)
        },
{
    let cap = capacity(k.width);
    lemma_mod_bound(n, cap);
    lemma_small_mod((n % cap) as nat, cap as nat);
    if n < 0 {
        lemma_mod_add_multiples_vanish(n, cap);
        lemma_small_mod((n + cap) as nat, cap as nat);
    } else {
        lemma_small_mod(n as nat, cap as nat);
    }
}

proof fn sums_are_computed(op: BinaryOp, k: Kept, m: Machine)
    requires
        machine_wf(m),
        is_wide(k),
        op == BinaryOp::Add || op == BinaryOp::Sub || op == BinaryOp::Mul,
    ensures
        computes(op, k, m, run(operation_code(op, k), m)),
{
    let cap = capacity(k.width);
    let a = number(m, Reg::Rax, k);
    let b = number(m, Reg::Rdi, k);
    let x = read(m, Reg::Rax, k.width);
    let y = read(m, Reg::Rdi, k.width);
    number_and_bits(m, Reg::Rax, k);
    number_and_bits(m, Reg::Rdi, k);
    let alu = match op {
        BinaryOp::Add => AluOp::Add,
        BinaryOp::Sub => AluOp::Sub,
        _ => AluOp::Imul,
    };
    one_more_is_run(no_code(), Instr::Alu(alu, k.width, Reg::Rdi, Reg::Rax), m);
    assert(run(no_code(), m) == Some(m));
    vstd::arithmetic::div_mod::lemma_add_mod_noop(a, b, cap);
    vstd::arithmetic::div_mod::lemma_sub_mod_noop(a, b, cap);
    lemma_mul_mod_noop(a, b, cap);
    lemma_mod_bound(x + y, cap);
    lemma_mod_bound(x * y, cap);
    lemma_small_mod(((x + y) % cap) as nat, cap as nat);
    lemma_small_mod(((x * y) % cap) as nat, cap as nat);
    if x >= y {
        lemma_small_mod((x - y) as nat, cap as nat);
    } else {
        lemma_mod_add_multiples_vanish(x - y, cap);
        lemma_small_mod((x - y + cap) as nat, cap as nat);
    }
}

proof fn bits_are_computed(op: BinaryOp, k: Kept, m: Machine)
    requires
        machine_wf(m),
        is_wide(k),
        op == BinaryOp::BitAnd || op == BinaryOp::BitOr || op == BinaryOp::BitXor,
    ensures
        computes(op, k, m, run(operation_code(op, k), m)),
{
    let cap = capacity(k.width);
    number_and_bits(m, Reg::Rax, k);
    number_and_bits(m, Reg::Rdi, k);
    let a = read(m, Reg::Rax, k.width) as u64;
    let b = read(m, Reg::Rdi, k.width) as u64;
    let alu = match op {
        BinaryOp::BitAnd => AluOp::And,
        BinaryOp::BitOr => AluOp::Or,
        _ => AluOp::Xor,
    };
    one_more_is_run(no_code(), Instr::Alu(alu, k.width, Reg::Rdi, Reg::Rax), m);
    assert(run(no_code(), m) == Some(m));
    let top: u64 = (cap - 1) as u64;
    assert((a & b) <= top && (a | b) <= top && (a ^ b) <= top) by (bit_vector)
        requires
            a <= top,
            b <= top,
            top == 0xffff_ffffu64 || top == 0xffff_ffff_ffff_ffffu64,
    ;
    lemma_small_mod((a & b) as nat, cap as nat);
    lemma_small_mod((a | b) as nat, cap as nat);
    lemma_small_mod((a ^ b) as nat, cap as nat);
    assert forall|i: u64| i < 64 implies #[trigger] has_bit(a & b, i) == (has_bit(a, i) && has_bit(
        b,
        i,
    )) by {
        assert((((a & b) >> i) & 1 == 1) == (((a >> i) & 1 == 1) && ((b >> i) & 1 == 1)))
            by (bit_vector);
    }
    assert forall|i: u64| i < 64 implies #[trigger] has_bit(a | b, i) == (has_bit(a, i) || has_bit(
        b,
        i,
    )) by {
        assert((((a | b) >> i) & 1 == 1) == (((a >> i) & 1 == 1) || ((b >> i) & 1 == 1)))
            by (bit_vector);
    }
    assert forall|i: u64| i < 64 implies #[trigger] has_bit(a ^ b, i) == (has_bit(a, i) != has_bit(
        b,
        i,
    )) by {
        assert((((a ^ b) >> i) & 1 == 1) == (((a >> i) & 1 == 1) != ((b >> i) & 1 == 1)))
            by (bit_vector);
    }
}

/// Division toward zero leaves a rest, and a quotient no larger than the dividend.
proof fn truncated_leaves_a_rest(a: int, b: int)
    requires
        b != 0,
    ensures
        is_rest(a - truncated(a, b) * b, a, b),
        a >= 0 && b > 0 ==> 0 <= truncated(a, b) <= a,
        a >= 0 && b < 0 ==> -a <= truncated(a, b) <= 0,
        a < 0 && b > 0 ==> a <= truncated(a, b) <= 0,
        a < 0 && b < 0 ==> 0 <= truncated(a, b) <= -a,
        a < 0 && b < -1 ==> truncated(a, b) * 2 <= -a,
{
    let x = if a < 0 {
        -a
    } else {
        a
    };
    let y = if b < 0 {
        -b
    } else {
        b
    };
    lemma_fundamental_div_mod(x, y);
    lemma_mod_bound(x, y);
    let q = x / y;
    assert(0 <= q <= x && (y >= 2 ==> 2 * q <= x)) by (nonlinear_arith)
        requires
            x == y * q + x % y,
            0 <= x % y,
            y >= 1,
            x >= 0,
            0 <= x % y < y,
    ;
    assert(q * y == y * q && (-q) * y == -(y * q) && q * (-y) == -(y * q) && (-q) * (-y) == y * q)
        by (nonlinear_arith);
}

/// What a division divides.
pub open spec fn dividend(m: Machine, k: Kept) -> int {
    if k.with_sign {
        signed(read(m, Reg::Rdx, k.width), k.width) * capacity(k.width) + read(
            m,
            Reg::Rax,
            k.width,
        )
    } else {
        read(m, Reg::Rdx, k.width) * capacity(k.width) + read(m, Reg::Rax, k.width)
    }
}

pub open spec fn prepare_instr(k: Kept) -> Instr {
    if k.with_sign {
        Instr::Spread(k.width)
    } else {
        Instr::Clear(k.width, Reg::Rdx)
    }
}

/// Before a division, the sign of the dividend is spread.
proof fn dividend_is_prepared(m: Machine, k: Kept)
    requires
        machine_wf(m),
        is_wide(k),
    ensures
        step(prepare_instr(k), m) is Some,
        dividend(step(prepare_instr(k), m).unwrap(), k) == number(m, Reg::Rax, k),
        number(step(prepare_instr(k), m).unwrap(), Reg::Rdi, k) == number(m, Reg::Rdi, k),
{
    let w = k.width;
    let cap = capacity(w);
    number_and_bits(m, Reg::Rax, k);
    let m1 = step(prepare_instr(k), m).unwrap();
    let high = m1.regs[Reg::Rdx];
    assert(m1.regs[Reg::Rax] == m.regs[Reg::Rax]);
    assert(m1.regs[Reg::Rdi] == m.regs[Reg::Rdi]);
    assert(high == 0 || high == cap - 1);
    lemma_small_mod(high as nat, cap as nat);
    assert(read(m1, Reg::Rdx, w) == high);
    if high == 0 {
        assert(signed(high, w) == 0);
    } else {
        assert(signed(high, w) == -1);
    }
}

/// A division whose quotient fits leaves quotient and rest.
proof fn division_divides(m: Machine, k: Kept, a: int, b: int)
    requires
        is_wide(k),
        a == dividend(m, k),
        b == number(m, Reg::Rdi, k),
        b != 0,
        k.with_sign ==> -(capacity(k.width) / 2) <= truncated(a, b) < capacity(k.width) / 2,
        !k.with_sign ==> truncated(a, b) < capacity(k.width),
    ensures
        ({
            let r = step(Instr::Divide(k.width, k.with_sign), m);
            let cap = capacity(k.width);
            &&& r is Some
            &&& r.unwrap().regs[Reg::Rax] == truncated(a, b) % cap
            &&& r.unwrap().regs[Reg::Rdx] == (a - truncated(a, b) * b) % cap
        }),
{
    assert(step(Instr::Divide(k.width, k.with_sign), m) == divided(m, k.width, k.with_sign));
}

proof fn quotient_fits(a: int, b: int, k: Kept)
    requires
        is_wide(k),
        b != 0,
        k.with_sign ==> -(capacity(k.width) / 2) <= a < capacity(k.width) / 2
            && -(capacity(k.width) / 2) <= b < capacity(k.width) / 2 && !(a == -(capacity(k.width)
            / 2) && b == -1),
        !k.with_sign ==> 0 <= a < capacity(k.width) && 0 < b < capacity(k.width),
    ensures
        k.with_sign ==> -(capacity(k.width) / 2) <= truncated(a, b) < capacity(k.width) / 2,
        !k.with_sign ==> 0 <= truncated(a, b) < capacity(k.width),
        is_rest(a - truncated(a, b) * b, a, b),
        k.with_sign ==> -(capacity(k.width) / 2) <= a - truncated(a, b) * b < capacity(k.width) / 2,
        !k.with_sign ==> 0 <= a - truncated(a, b) * b < capacity(k.width),
{
    truncated_leaves_a_rest(a, b);
}

proof fn held_number(m: Machine, reg: Reg, k: Kept, n: int)
    requires
        is_wide(k),
        m.regs[reg] == n % capacity(k.width),
        k.with_sign ==> -(capacity(k.width) / 2) <= n < capacity(k.width) / 2,
        !k.with_sign ==> 0 <= n < capacity(k.width),
    ensures
        number(m, reg, k) == n,
{
    number_is_read_back(n, k);
}

proof fn divisions_are_computed(op: BinaryOp, k: Kept, m: Machine)
    requires
        machine_wf(m),
        is_wide(k),
        op == BinaryOp::Div || op == BinaryOp::Mod,
    ensures
        computes(op, k, m, run(operation_code(op, k), m)),
{
    let w = k.width;
    let cap = capacity(w);
    let a = number(m, Reg::Rax, k);
    let b = number(m, Reg::Rdi, k);
    number_and_bits(m, Reg::Rax, k);
    number_and_bits(m, Reg::Rdi, k);
    let i1 = prepare_instr(k);
    let i2 = Instr::Divide(w, k.with_sign);
    let i3 = Instr::Mov(w, Reg::Rdx, Reg::Rax);
    one_more_is_run(no_code(), i1, m);
    one_more_is_run(no_code().push(i1), i2, m);
    one_more_is_run(no_code().push(i1).push(i2), i3, m);
    assert(run(no_code(), m) == Some(m));
    if b != 0 && !(k.with_sign && a == -(cap / 2) && b == -1) {
        dividend_is_prepared(m, k);
        let m1 = step(i1, m).unwrap();
        let q = truncated(a, b);
        let rest = a - q * b;
        quotient_fits(a, b, k);
        division_divides(m1, k, a, b);
        let m2 = step(i2, m1).unwrap();
        if op == BinaryOp::Div {
            held_number(m2, Reg::Rax, k, q);
            assert(is_rest(rest, a, b));
            assert(run(operation_code(op, k), m) == Some(m2));
        } else {
            let m3 = step(i3, m2).unwrap();
            lemma_mod_bound(rest, cap);
            lemma_small_mod((rest % cap) as nat, cap as nat);
            assert(m3.regs[Reg::Rax] == rest % cap);
            held_number(m3, Reg::Rax, k, rest);
            assert(run(operation_code(op, k), m) == Some(m3));
            assert(a == (q * b) + rest);
        }
    }
}

proof fn shifts_are_computed(op: BinaryOp, k: Kept, m: Machine)
    requires
        machine_wf(m),
        is_wide(k),
        op == BinaryOp::BitLeftShift || op == BinaryOp::BitRightShift,
    ensures
        computes(op, k, m, run(operation_code(op, k), m)),
{
    let w = k.width;
    let cap = capacity(w);
    let a = number(m, Reg::Rax, k);
    let b = number(m, Reg::Rdi, k);
    let x = read(m, Reg::Rax, w);
    let y = read(m, Reg::Rdi, w);
    let bits: int = if w == ScalarWidth::Qword {
        64
    } else {
        32
    };
    number_and_bits(m, Reg::Rax, k);
    number_and_bits(m, Reg::Rdi, k);
    let i1 = Instr::Mov(w, Reg::Rdi, Reg::Rcx);
    let shift = if op == BinaryOp::BitLeftShift {
        ShiftOp::Shl
    } else if k.with_sign {
        ShiftOp::Sar
    } else {
        ShiftOp::Shr
    };
    let i2 = Instr::Shift(shift, w);
    one_more_is_run(no_code(), i1, m);
    one_more_is_run(no_code().push(i1), i2, m);
    assert(run(no_code(), m) == Some(m));
    if 0 <= b < bits {
        assert(y == b);
        lemma_small_mod(y as nat, 0x100);
        lemma_small_mod(y as nat, bits as nat);
        let m1 = step(i1, m).unwrap();
        assert(m1.regs[Reg::Rcx] == b);
        assert(read(m1, Reg::Rax, w) == x);
        let p = pow2(b as nat) as int;
        lemma_pow2_pos(b as nat);
        let m2 = step(i2, m1).unwrap();
        assert(m2.regs[Reg::Rax] == shifted(shift, x, b as nat, w));
        lemma_mul_mod_noop(a, p, cap);
        lemma_mul_mod_noop(x, p, cap);
        lemma_small_mod(x as nat, cap as nat);
        lemma_mod_bound(x * p, cap);
        lemma_small_mod(((x * p) % cap) as nat, cap as nat);
        lemma_fundamental_div_mod(a, p);
        lemma_mod_bound(a, p);
        let q = a / p;
        assert((a >= 0 ==> 0 <= q <= a) && (a < 0 ==> a <= q < 0)) by (nonlinear_arith)
            requires
                a == p * q + a % p,
                0 <= a % p < p,
                p >= 1,
        ;
        number_is_read_back(q, k);
    }
}

/// The code of a binary operation on the numbers in `%rax` and `%rdi` computes what
/// the operation means: sums, differences, and products as far as the type can
/// tell; quotients toward zero and their rests; the bits one by one; powers of two
/// times or through the number for shifts; and how the numbers compare.
pub proof fn operations_compute_the_numbers(env: GenView, g: Gen, op: BinaryOp, ty: Type)
    requires
        kept(env.types, ty) is Some,
    ensures
        exists|code: Seq<Instr>|
            {
                &&& int_binary(env, g, op, ty, ty) == #[trigger] written(g, code)
                &&& forall|m: Machine|
                    machine_wf(m) ==> computes(
                        op,
                        kept(env.types, ty).unwrap(),
                        m,
                        #[trigger] run(code, m),
                    )
            },
{
    broadcast use group_code;

    reveal(int_binary);
    reveal(int_divide);
    reveal(int_compare);
    let k = kept(env.types, ty).unwrap();
    let code = operation_code(op, k);
    assert(written(g, no_code()) == g);
    assert(int_binary(env, g, op, ty, ty) == written(g, code));
    assert forall|m: Machine| machine_wf(m) implies computes(op, k, m, #[trigger] run(code, m)) by {
        match op {
            BinaryOp::Add | BinaryOp::Sub | BinaryOp::Mul => sums_are_computed(op, k, m),
            BinaryOp::BitAnd | BinaryOp::BitOr | BinaryOp::BitXor => bits_are_computed(op, k, m),
            BinaryOp::Div | BinaryOp::Mod => divisions_are_computed(op, k, m),
            BinaryOp::BitLeftShift | BinaryOp::BitRightShift => shifts_are_computed(op, k, m),
            BinaryOp::Eq | BinaryOp::Ne | BinaryOp::Lt | BinaryOp::Le => comparison_is_computed(
                op,
                k,
                m,
            ),
        }
    }
}

} // verus!
