//! A switch goes to the case of its value.

use vstd::prelude::*;
use vstd::arithmetic::div_mod::{lemma_mod_add_multiples_vanish, lemma_mod_bound, lemma_small_mod};
use crate::ast::{node_ty, CaseList, Node, Stmt, StmtKind};
use crate::codegen::flow::{expr_ends, put_line, stmt_ends, Line, Mark, Way};
use crate::codegen::machine::{capacity, machine_wf, put_instr, step, Instr, Machine, Reg};
use crate::codegen::meaning::{kept, number, number_and_bits, Kept};
use crate::codegen::text::{
    case_bits, gen_cases, gen_expr, gen_stmt, gen_switch, gen_switch_rule, nl, putd, puts, Gen,
    GenView, ScalarWidth,
};
use crate::constexpr::{wrap, ConstValue};
use crate::constexpr::numbers::{has_number, stands_for};
use crate::error::Error;
use crate::types::{ArithType, ConstType};

verus! {

/// The constants that values kept in a register are compared with.
pub open spec fn constant_type(k: Kept) -> ConstType {
    ConstType::Arith(
        match (k.width, k.with_sign) {
            (ScalarWidth::Qword, true) => ArithType::Long,
            (ScalarWidth::Qword, false) => ArithType::ULong,
            (_, true) => ArithType::Int,
            (_, false) => ArithType::UInt,
        },
    )
}

/// The text of a jump to the label of a case if the values compared are equal.
pub open spec fn jump_text(g: Gen, label: usize) -> Gen {
    nl(putd(puts(g, "  je .L.."), label as int))
}

/// The text of the tests for the cases, one after the other.
pub open spec fn tests_text(g: Gen, cases: CaseList, width: ScalarWidth) -> Gen
    decreases cases,
{
    match cases {
        CaseList::Nil => g,
        CaseList::Cons(case, tail) => tests_text(
            jump_text(
                put_instr(g, Instr::CmpNumber(case_bits(case.value), width)),
                case.label,
            ),
            *tail,
            width,
        ),
    }
}

/// The label that the tests for the cases jump to, if they jump at all.
pub open spec fn jumped_to(cases: CaseList, m: Machine, width: ScalarWidth) -> Option<usize>
    decreases cases,
{
    match cases {
        CaseList::Nil => None,
        CaseList::Cons(case, tail) => {
            let after = step(Instr::CmpNumber(case_bits(case.value), width), m).unwrap();
            if after.flags.zero {
                Some(case.label)
            } else {
                jumped_to(*tail, after, width)
            }
        },
    }
}

/// The numbers that the cases are for, as constants of a type.
pub open spec fn are_for(cases: CaseList, numbers: Seq<int>, ty: ConstType) -> bool
    decreases cases,
{
    match cases {
        CaseList::Nil => numbers.len() == 0,
        CaseList::Cons(case, tail) => {
            &&& numbers.len() > 0
            &&& has_number(ty, numbers[0])
            &&& stands_for(case.value, numbers[0], ty)
            &&& are_for(*tail, numbers.skip(1), ty)
        },
    }
}

/// The label of the first case for a number.
pub open spec fn label_for(cases: CaseList, numbers: Seq<int>, n: int) -> Option<usize>
    decreases cases,
{
    match cases {
        CaseList::Nil => None,
        CaseList::Cons(case, tail) => if numbers[0] == n {
            Some(case.label)
        } else {
            label_for(*tail, numbers.skip(1), n)
        },
    }
}

proof fn tests_are_printed(g: Gen, cases: CaseList, k: Kept)
    requires
        k.width == ScalarWidth::Dword || k.width == ScalarWidth::Qword,
    ensures
        gen_cases(g, cases, crate::codegen::machine::reg_name(Reg::Rax, k.width)) == tests_text(
            g,
            cases,
            k.width,
        ),
    decreases cases,
{
    if let CaseList::Cons(case, tail) = cases {
        let next = jump_text(
            put_instr(g, Instr::CmpNumber(case_bits(case.value), k.width)),
            case.label,
        );
        tests_are_printed(next, *tail, k);
    }
}

proof fn test_tells_equal(m: Machine, value: ConstValue, c: int, k: Kept)
    requires
        machine_wf(m),
        k.width == ScalarWidth::Dword || k.width == ScalarWidth::Qword,
        has_number(constant_type(k), c),
        stands_for(value, c, constant_type(k)),
    ensures
        ({
            let after = step(Instr::CmpNumber(case_bits(value), k.width), m);
            &&& after is Some
            &&& after.unwrap().flags.zero <==> number(m, Reg::Rax, k) == c
            &&& after.unwrap().regs == m.regs
        }),
{
    reveal(wrap);
    let cap = capacity(k.width);
    number_and_bits(m, Reg::Rax, k);
    let bits = value.spec_bits() as int;
    lemma_mod_bound(c, cap);
    lemma_small_mod((c % cap) as nat, cap as nat);
    assert(bits == c % cap);
    let n = case_bits(value);
    assert(n % cap == c % cap) by {
        if n != bits {
            lemma_mod_add_multiples_vanish(n, cap);
        }
        lemma_small_mod(bits as nat, cap as nat);
    }
    if c < 0 {
        lemma_mod_add_multiples_vanish(c, cap);
        lemma_small_mod((c + cap) as nat, cap as nat);
    } else {
        lemma_small_mod(c as nat, cap as nat);
    }
}

proof fn tests_find_the_case(cases: CaseList, numbers: Seq<int>, m: Machine, k: Kept)
    requires
        machine_wf(m),
        k.width == ScalarWidth::Dword || k.width == ScalarWidth::Qword,
        are_for(cases, numbers, constant_type(k)),
    ensures
        jumped_to(cases, m, k.width) == label_for(cases, numbers, number(m, Reg::Rax, k)),
    decreases cases,
{
    if let CaseList::Cons(case, tail) = cases {
        test_tells_equal(m, case.value, numbers[0], k);
        let after = step(Instr::CmpNumber(case_bits(case.value), k.width), m).unwrap();
        tests_find_the_case(*tail, numbers.skip(1), after, k);
    }
}

/// The tests of a switch jump to the label of the case for the number in `%rax`, and
/// jump nowhere if there is no such case.
pub proof fn switches_find_the_case(
    env: GenView,
    g: Gen,
    cases: CaseList,
    cond: Node,
    numbers: Seq<int>,
)
    requires
        kept(env.types, node_ty(cond)) is Some,
        are_for(cases, numbers, constant_type(kept(env.types, node_ty(cond)).unwrap())),
    ensures
        ({
            let k = kept(env.types, node_ty(cond)).unwrap();
            let width = crate::codegen::text::promoted_width(env, node_ty(cond));
            &&& gen_cases(g, cases, crate::codegen::text::acc_reg(width)) == tests_text(
                g,
                cases,
                k.width,
            )
            &&& forall|m: Machine|
                machine_wf(m) ==> #[trigger] jumped_to(cases, m, k.width) == label_for(
                    cases,
                    numbers,
                    number(m, Reg::Rax, k),
                )
        }),
{
    let k = kept(env.types, node_ty(cond)).unwrap();
    tests_are_printed(g, cases, k);
    assert forall|m: Machine| machine_wf(m) implies #[trigger] jumped_to(cases, m, k.width)
        == label_for(cases, numbers, number(m, Reg::Rax, k)) by {
        tests_find_the_case(cases, numbers, m, k);
    }
}

/// The text of a switch behind its tests: a jump to the default label, if there is
/// one, and else behind the switch; then the body, and the label behind it.
pub open spec fn switch_rest(g: Gen, default: Option<usize>, brk: usize) -> Gen {
    let out = Mark { way: Way::Numbered, number: brk as int };
    let g1 = match default {
        Some(label) => put_line(
            g,
            Line::Jump(Mark { way: Way::Numbered, number: label as int }),
            Seq::empty(),
        ),
        None => g,
    };
    put_line(g1, Line::Jump(out), Seq::empty())
}

/// Whether a switch is generated from its parts: the value, the tests, the jumps
/// where none of them holds, and the body.
pub open spec fn switch_text(
    env: GenView,
    g: Gen,
    stmt: Stmt,
    cond: Node,
    body: Stmt,
    cases: CaseList,
    default: Option<usize>,
    brk: usize,
    e0: Gen,
    e1: Gen,
) -> bool {
    let tests = tests_text(e0, cases, kept(env.types, node_ty(cond)).unwrap().width);
    &&& expr_ends(env, g, cond, e0)
    &&& stmt_ends(env, switch_rest(tests, default, brk), body, e1)
    &&& gen_switch(env, g, stmt) == Ok::<Gen, Error>(
        put_line(
            e1,
            Line::Label(Mark { way: Way::Numbered, number: brk as int }),
            Seq::empty(),
        ),
    )
}

/// A switch evaluates its value, tests for its cases, and goes to its default label,
/// or behind it, where no case is found.
pub proof fn switches_fall_back_to_the_default(
    env: GenView,
    g: Gen,
    stmt: Stmt,
    cond: Node,
    body: Stmt,
    cases: CaseList,
    default: Option<usize>,
    brk: usize,
)
    requires
        stmt.kind == (StmtKind::Switch {
            cond,
            body: Box::new(body),
            cases,
            default,
            brk_label: brk,
        }),
        kept(env.types, node_ty(cond)) is Some,
        gen_switch(env, g, stmt) is Ok,
    ensures
        exists|e0: Gen, e1: Gen| #[trigger]
            switch_text(env, g, stmt, cond, body, cases, default, brk, e0, e1),
{
    assert(gen_switch(env, g, stmt) == gen_switch_rule(env, g, stmt));
    let k = kept(env.types, node_ty(cond)).unwrap();
    let e0 = gen_expr(env, g, cond)->Ok_0;
    tests_are_printed(e0, cases, k);
    let g1 = switch_rest(tests_text(e0, cases, k.width), default, brk);
    let e1 = gen_stmt(env, g1, body)->Ok_0;
    assert(expr_ends(env, g, cond, e0)) by {
        reveal(expr_ends);
    }
    assert(stmt_ends(env, g1, body, e1)) by {
        reveal(stmt_ends);
    }
    assert(switch_text(env, g, stmt, cond, body, cases, default, brk, e0, e1));
}

} // verus!
