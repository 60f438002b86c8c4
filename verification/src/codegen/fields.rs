//! Bit-fields are read by their bits.

use vstd::prelude::*;
use vstd::arithmetic::div_mod::{
    lemma_div_denominator, lemma_div_multiples_vanish_fancy, lemma_mod_bound, lemma_mod_breakdown,
    lemma_small_mod, lemma_truncate_middle,
};
use vstd::arithmetic::power2::{lemma2_to64, lemma_pow2_adds, lemma_pow2_pos, pow2};
use crate::codegen::machine::{
    machine_wf, no_code, one_more_is_run, one_more_is_written, run, shifted, step, written, Instr,
    Machine, Reg, ShiftOp,
};
use crate::codegen::text::{read_bit_field, Gen, GenView, ScalarWidth};
use crate::error::Error;
use crate::types::{ty_is_unsigned, BitField, Member};

verus! {

/// The bits of a field in a number.
pub open spec fn field_of(x: int, field: BitField) -> int {
    (x / (pow2(field.offset as nat) as int)) % (pow2(field.width as nat) as int)
}

pub open spec fn field_code(field: BitField) -> Seq<Instr> {
    no_code().push(Instr::ShiftBy(ShiftOp::Shl, 64 - field.width - field.offset)).push(
        Instr::ShiftBy(ShiftOp::Shr, 64 - field.width),
    )
}

proof fn shifts_cut_the_field(x: int, w: nat, o: nat)
    requires
        0 <= x < 0x1_0000_0000_0000_0000,
        w > 0,
        w + o <= 64,
    ensures
        ({
            let up = (64 - w - o) as nat;
            let down = (64 - w) as nat;
            ((x * pow2(up)) % 0x1_0000_0000_0000_0000) / (pow2(down) as int) == (x / (pow2(
                o,
            ) as int)) % (pow2(w) as int)
        }),
{
    let up = (64 - w - o) as nat;
    let down = (64 - w) as nat;
    let a = pow2(up) as int;
    let b = pow2(o) as int;
    let c = pow2(w) as int;
    lemma_pow2_pos(up);
    lemma_pow2_pos(o);
    lemma_pow2_pos(w);
    lemma_pow2_adds(up, o);
    lemma_pow2_adds(w, o);
    lemma_pow2_adds(up, w + o);
    lemma2_to64();
    assert(pow2(64) == 0x1_0000_0000_0000_0000);
    assert(pow2(down) == a * b);
    assert(a * (b * c) == 0x1_0000_0000_0000_0000) by {
        assert(pow2(w + o) == c * b);
        assert(b * c == c * b) by (nonlinear_arith);
    }
    assert(b * c > 0) by (nonlinear_arith)
        requires
            b > 0,
            c > 0,
    ;
    let t = x % (b * c);
    lemma_truncate_middle(x, a, b * c);
    assert(x * a == a * x) by (nonlinear_arith);
    assert((x * a) % 0x1_0000_0000_0000_0000 == a * t);
    lemma_mod_bound(x, b * c);
    lemma_div_denominator(a * t, a, b);
    assert((a * t) / a == t) by {
        vstd::arithmetic::div_mod::lemma_div_multiples_vanish(t, a);
    }
    lemma_mod_breakdown(x, b, c);
    let z = (x / b) % c;
    lemma_mod_bound(x, b);
    assert(t == b * z + x % b);
    lemma_div_multiples_vanish_fancy(z, x % b, b);
}

/// Reading an unsigned bit-field from what holds it in `%rax` leaves its bits, and no
/// others.
pub proof fn unsigned_fields_are_their_bits(env: GenView, g: Gen, member: Member, field: BitField)
    requires
        member.bit_field == Some(field),
        ty_is_unsigned(member.ty),
        field.width > 0,
        field.width + field.offset <= 64,
    ensures
        exists|code: Seq<Instr>|
            {
                &&& read_bit_field(env, g, member) == Ok::<Gen, Error>(#[trigger] written(g, code))
                &&& forall|m: Machine|
                    machine_wf(m) ==> (#[trigger] run(code, m)) is Some && run(
                        code,
                        m,
                    ).unwrap().regs[Reg::Rax] == field_of(m.regs[Reg::Rax], field)
            },
{
    reveal(read_bit_field);
    let code = field_code(field);
    let i1 = Instr::ShiftBy(ShiftOp::Shl, 64 - field.width - field.offset);
    let i2 = Instr::ShiftBy(ShiftOp::Shr, 64 - field.width);
    one_more_is_written(g, no_code(), i1);
    one_more_is_written(g, no_code().push(i1), i2);
    assert(read_bit_field(env, g, member) == Ok::<Gen, Error>(written(g, code)));
    assert forall|m: Machine| machine_wf(m) implies (#[trigger] run(code, m)) is Some && run(
        code,
        m,
    ).unwrap().regs[Reg::Rax] == field_of(m.regs[Reg::Rax], field) by {
        one_more_is_run(no_code(), i1, m);
        one_more_is_run(no_code().push(i1), i2, m);
        let x = m.regs[Reg::Rax];
        lemma_small_mod((64 - field.width - field.offset) as nat, 64);
        lemma_small_mod((64 - field.width) as nat, 64);
        shifts_cut_the_field(x, field.width as nat, field.offset as nat);
        let m1 = step(i1, m).unwrap();
        assert(m1.regs[Reg::Rax] == shifted(
            ShiftOp::Shl,
            x,
            (64 - field.width - field.offset) as nat,
            ScalarWidth::Qword,
        ));
    }
}

} // verus!
