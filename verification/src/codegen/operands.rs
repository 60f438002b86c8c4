//! Operands and arguments arrive where they are used.

use vstd::prelude::*;
use vstd::arithmetic::div_mod::{lemma_mod_bound, lemma_small_mod};
use crate::ast::{node_ty, BinaryOp, EntityRef, Node, NodeKind};
use crate::codegen::flow::expr_ends;
use crate::codegen::handover::bytes_capacity;
use crate::codegen::machine::{
    byte_count, bytes_at, capacity, machine_wf, no_code, one_more_is_run, one_more_is_written, read,
    run, written, Instr, Machine, Reg,
};
use crate::codegen::scalars::stored_number_is_read_back;
use crate::codegen::text::{
    entity_addr, gen_addr, gen_addr_rule, gen_assign, gen_assign_rule, gen_binary, gen_binary_rule,
    gen_expr, int_binary, pop, pop_reg, push, store, store_arg, width_of, ArgRegIndex, Gen, GenView,
    ScalarWidth,
};
use crate::error::Error;
use crate::types::{ty_is_flonum, Type};

verus! {

/// The text with some slots more on the temporary stack, or fewer.
pub open spec fn counted(g: Gen, slots: int) -> Gen {
    Gen { depth: g.depth + slots, ..g }
}

pub open spec fn push_code() -> Seq<Instr> {
    no_code().push(Instr::PushRax)
}

pub open spec fn pop_code(reg: Reg) -> Seq<Instr> {
    no_code().push(Instr::Pop(reg))
}

proof fn pushing_is_written(env: GenView, g: Gen)
    requires
        push(env, g) is Ok,
    ensures
        push(env, g) == Ok::<Gen, Error>(counted(written(g, push_code()), 1)),
{
    reveal(push);
    one_more_is_written(g, no_code(), Instr::PushRax);
    written_keeps_the_depth(g, push_code());
}

proof fn written_keeps_the_depth(g: Gen, code: Seq<Instr>)
    ensures
        written(g, code).depth == g.depth,
    decreases code.len(),
{
    reveal(crate::codegen::text::putb);
    if code.len() > 0 {
        written_keeps_the_depth(g, code.drop_last());
    }
}

proof fn popping_is_written(env: GenView, g: Gen)
    requires
        pop(env, g, "%rdi") is Ok,
    ensures
        pop(env, g, "%rdi") == Ok::<Gen, Error>(counted(written(g, pop_code(Reg::Rdi)), -1)),
{
    reveal(pop);
    one_more_is_written(g, no_code(), Instr::Pop(Reg::Rdi));
    written_keeps_the_depth(g, pop_code(Reg::Rdi));
}

/// Whether what was in `%rax` when it was pushed is in a register when it was
/// popped, with all else that was computed meanwhile, if that left the stack as it
/// was.
pub open spec fn delivers(push: Seq<Instr>, pop: Seq<Instr>, reg: Reg) -> bool {
    forall|m: Machine, between: Machine|
        #![trigger run(push, m), run(pop, between)]
        machine_wf(m) && run(push, m) is Some && between.regs[Reg::Rsp] == run(
            push,
            m,
        ).unwrap().regs[Reg::Rsp] && bytes_at(between.mem, between.regs[Reg::Rsp], 8) == bytes_at(
            run(push, m).unwrap().mem,
            between.regs[Reg::Rsp],
            8,
        ) ==> {
            let r = run(pop, between);
            &&& r is Some
            &&& r.unwrap().regs[reg] == m.regs[Reg::Rax]
            &&& r.unwrap().regs[Reg::Rsp] == m.regs[Reg::Rsp]
            &&& r.unwrap().mem == between.mem
            &&& forall|other: Reg|
                other != reg && other != Reg::Rsp ==> #[trigger] r.unwrap().regs[other]
                    == between.regs[other]
        }
}

/// What is pushed is what is popped.
pub proof fn pushed_values_are_popped(reg: Reg)
    requires
        reg != Reg::Rsp,
    ensures
        delivers(push_code(), pop_code(reg), reg),
        forall|m: Machine| (#[trigger] run(push_code(), m)) is Some,
{
    assert forall|m: Machine| (#[trigger] run(push_code(), m)) is Some by {
        one_more_is_run(no_code(), Instr::PushRax, m);
    }
    assert forall|m: Machine, between: Machine|
        #![trigger run(push_code(), m), run(pop_code(reg), between)]
        machine_wf(m) && run(push_code(), m) is Some && between.regs[Reg::Rsp] == run(
            push_code(),
            m,
        ).unwrap().regs[Reg::Rsp] && bytes_at(between.mem, between.regs[Reg::Rsp], 8) == bytes_at(
            run(push_code(), m).unwrap().mem,
            between.regs[Reg::Rsp],
            8,
        ) implies {
        let r = run(pop_code(reg), between);
        &&& r is Some
        &&& r.unwrap().regs[reg] == m.regs[Reg::Rax]
        &&& r.unwrap().regs[Reg::Rsp] == m.regs[Reg::Rsp]
        &&& r.unwrap().mem == between.mem
        &&& forall|other: Reg|
            other != reg && other != Reg::Rsp ==> #[trigger] r.unwrap().regs[other]
                == between.regs[other]
    } by {
        one_more_is_run(no_code(), Instr::PushRax, m);
        one_more_is_run(no_code(), Instr::Pop(reg), between);
        let v = m.regs[Reg::Rax];
        let top = m.regs[Reg::Rsp] - 8;
        stored_number_is_read_back(m.mem, top, 8, v);
        assert(bytes_capacity(8) == 0x1_0000_0000_0000_0000) by {
            reveal_with_fuel(bytes_capacity, 9);
        }
        lemma_small_mod(v as nat, 0x1_0000_0000_0000_0000);
    }
}

/// Whether a binary operation is generated from its operands: the right one, which
/// is pushed, then the left one, which stays in `%rax`, and then the operation with
/// what was pushed in `%rdi`.
pub open spec fn operand_text(
    env: GenView,
    g: Gen,
    node: Node,
    ty: Type,
    op: BinaryOp,
    lhs: Node,
    rhs: Node,
    e0: Gen,
    e1: Gen,
    push: Seq<Instr>,
    pop: Seq<Instr>,
) -> bool {
    &&& expr_ends(env, g, rhs, e0)
    &&& expr_ends(env, counted(written(e0, push), 1), lhs, e1)
    &&& gen_binary(env, g, node, ty) == Ok::<Gen, Error>(
        int_binary(env, counted(written(e1, pop), -1), op, node_ty(lhs), ty),
    )
}

/// The operation of a binary expression gets the left operand in `%rax` and the
/// right one in `%rdi`.
pub proof fn operands_are_delivered(
    env: GenView,
    g: Gen,
    node: Node,
    ty: Type,
    op: BinaryOp,
    lhs: Node,
    rhs: Node,
)
    requires
        node.kind == (NodeKind::Binary { op, lhs: Box::new(lhs), rhs: Box::new(rhs) }),
        !ty_is_flonum(node_ty(lhs)),
        gen_binary(env, g, node, ty) is Ok,
    ensures
        exists|e0: Gen, e1: Gen, push: Seq<Instr>, pop: Seq<Instr>|
            {
                &&& #[trigger] operand_text(env, g, node, ty, op, lhs, rhs, e0, e1, push, pop)
                &&& delivers(push, pop, Reg::Rdi)
                &&& forall|m: Machine| (#[trigger] run(push, m)) is Some
            },
{
    assert(gen_binary(env, g, node, ty) == gen_binary_rule(env, g, node, ty));
    let e0 = gen_expr(env, g, rhs)->Ok_0;
    pushing_is_written(env, e0);
    let g1 = push(env, e0)->Ok_0;
    let e1 = gen_expr(env, g1, lhs)->Ok_0;
    popping_is_written(env, e1);
    pushed_values_are_popped(Reg::Rdi);
    assert(expr_ends(env, g, rhs, e0)) by {
        reveal(expr_ends);
    }
    assert(expr_ends(env, g1, lhs, e1)) by {
        reveal(expr_ends);
    }
    assert(operand_text(
        env,
        g,
        node,
        ty,
        op,
        lhs,
        rhs,
        e0,
        e1,
        push_code(),
        pop_code(Reg::Rdi),
    ));
}

#[verifier::opaque]
pub open spec fn addr_ends(env: GenView, g: Gen, node: Node, end: Gen) -> bool {
    gen_addr(env, g, node) == Ok::<Gen, Error>(end)
}

/// Whether an assignment is generated from its sides: the address of the left one,
/// which is pushed, then the value of the right one, and then the store.
pub open spec fn assign_text(
    env: GenView,
    g: Gen,
    node: Node,
    lhs: Node,
    rhs: Node,
    e0: Gen,
    e1: Gen,
    push: Seq<Instr>,
) -> bool {
    &&& addr_ends(env, g, lhs, e0)
    &&& expr_ends(env, counted(written(e0, push), 1), rhs, e1)
    &&& gen_assign(env, g, node) == store(env, e1, node_ty(lhs))
}

/// An assignment stores the value of its right side at the address of its left
/// side, which is on top of the stack by then.
pub proof fn assignments_store_the_right_side(
    env: GenView,
    g: Gen,
    node: Node,
    lhs: Node,
    rhs: Node,
)
    requires
        node.kind == (NodeKind::Assign { lhs: Box::new(lhs), rhs: Box::new(rhs) }),
        lhs.kind matches NodeKind::Member { member, .. } ==> member.bit_field is None,
        gen_assign(env, g, node) is Ok,
    ensures
        exists|e0: Gen, e1: Gen, push: Seq<Instr>|
            {
                &&& #[trigger] assign_text(env, g, node, lhs, rhs, e0, e1, push)
                &&& forall|m: Machine|
                    machine_wf(m) ==> (#[trigger] run(push, m)) is Some && bytes_at(
                        run(push, m).unwrap().mem,
                        run(push, m).unwrap().regs[Reg::Rsp],
                        8,
                    ) == m.regs[Reg::Rax]
            },
{
    assert(gen_assign(env, g, node) == gen_assign_rule(env, g, node));
    let e0 = gen_addr(env, g, lhs)->Ok_0;
    pushing_is_written(env, e0);
    let g1 = push(env, e0)->Ok_0;
    let e1 = gen_expr(env, g1, rhs)->Ok_0;
    assert(addr_ends(env, g, lhs, e0)) by {
        reveal(addr_ends);
    }
    assert(expr_ends(env, g1, rhs, e1)) by {
        reveal(expr_ends);
    }
    assert(assign_text(env, g, node, lhs, rhs, e0, e1, push_code()));
    assert forall|m: Machine| machine_wf(m) implies (#[trigger] run(push_code(), m)) is Some
        && bytes_at(
        run(push_code(), m).unwrap().mem,
        run(push_code(), m).unwrap().regs[Reg::Rsp],
        8,
    ) == m.regs[Reg::Rax] by {
        one_more_is_run(no_code(), Instr::PushRax, m);
        let v = m.regs[Reg::Rax];
        stored_number_is_read_back(m.mem, m.regs[Reg::Rsp] - 8, 8, v);
        assert(bytes_capacity(8) == 0x1_0000_0000_0000_0000) by {
            reveal_with_fuel(bytes_capacity, 9);
        }
        lemma_small_mod(v as nat, 0x1_0000_0000_0000_0000);
    }
}

/// The address of a local is its offset from the base pointer, and that of a member
/// lies its offset behind that of what it is a member of.
pub proof fn addresses_are_offsets(env: GenView, g: Gen, node: Node)
    ensures
        node.kind matches NodeKind::Entity(EntityRef::Local(id)) ==> (id
            < env.function.locals.len() ==> gen_addr(env, g, node) == Ok::<Gen, Error>(
            written(
                g,
                no_code().push(Instr::Lea(env.function.locals[id as int].offset as int)),
            ),
        )),
        node.kind matches NodeKind::Member { parent, member } ==> (gen_addr(env, g, *parent)
            is Ok ==> gen_addr(env, g, node) == Ok::<Gen, Error>(
            written(
                gen_addr(env, g, *parent)->Ok_0,
                no_code().push(Instr::RaxAdd(member.offset as int)),
            ),
        )),
{
    assert(gen_addr(env, g, node) == gen_addr_rule(env, g, node));
    match node.kind {
        NodeKind::Entity(EntityRef::Local(id)) => {
            reveal(entity_addr);
            one_more_is_written(
                g,
                no_code(),
                Instr::Lea(env.function.locals[id as int].offset as int),
            );
        },
        NodeKind::Member { parent, member } => {
            one_more_is_written(
                gen_addr(env, g, *parent)->Ok_0,
                no_code(),
                Instr::RaxAdd(member.offset as int),
            );
        },
        _ => {},
    }
}

/// The register for the argument of the class for integers with the given index in
/// the calling convention.
pub open spec fn argument_reg(index: usize) -> Reg {
    match index {
        0 => Reg::Rdi,
        1 => Reg::Rsi,
        2 => Reg::Rdx,
        3 => Reg::Rcx,
        4 => Reg::R8,
        _ => Reg::R9,
    }
}

/// Whether an argument on top of the stack of a caller arrives in a local of the
/// callee, as far as the size of the local goes, whatever else the callee finds.
pub open spec fn argument_arrives(
    give: Seq<Instr>,
    take: Seq<Instr>,
    reg: Reg,
    offset: int,
    width: ScalarWidth,
) -> bool {
    forall|m: Machine, callee: Machine|
        #![trigger run(give, m), run(take, callee)]
        run(give, m) is Some && callee.regs[reg] == run(give, m).unwrap().regs[reg] ==> {
            let r = run(take, callee);
            &&& r is Some
            &&& bytes_at(
                r.unwrap().mem,
                callee.regs[Reg::Rbp] + offset,
                byte_count(width),
            ) == bytes_at(m.mem, m.regs[Reg::Rsp], 8) % capacity(width)
        }
}

proof fn bytes_are_natural(mem: Map<int, u8>, a: int, n: int)
    ensures
        bytes_at(mem, a, n) >= 0,
    decreases n,
{
    if n > 0 {
        bytes_are_natural(mem, a + 1, n - 1);
    }
}

/// An integer argument is passed in the register of the calling convention for its
/// index, and both sides count on with the next one.
pub proof fn arguments_arrive(
    env: GenView,
    g: Gen,
    h: Gen,
    index: ArgRegIndex,
    offset: int,
    size: u64,
)
    requires
        pop_reg(env, g, false, index) is Ok,
        store_arg(h, false, index, offset, size) is Ok,
        width_of(size) is Some,
    ensures
        ({
            let after = ArgRegIndex { gp: (index.gp + 1) as usize, ..index };
            let give = pop_code(argument_reg(index.gp));
            let take = no_code().push(
                Instr::StoreRbp(width_of(size).unwrap(), argument_reg(index.gp), offset),
            );
            &&& index.gp < 6
            &&& pop_reg(env, g, false, index)->Ok_0 == (counted(written(g, give), -1), after)
            &&& store_arg(h, false, index, offset, size)->Ok_0 == (written(h, take), after)
            &&& argument_arrives(
                give,
                take,
                argument_reg(index.gp),
                offset,
                width_of(size).unwrap(),
            )
            &&& forall|m: Machine| (#[trigger] run(give, m)) is Some
        }),
{
    argument_is_popped(env, g, index);
    argument_is_stored(h, index, offset, size);
    stored_arguments_arrive(argument_reg(index.gp), offset, width_of(size).unwrap());
}

proof fn argument_is_popped(env: GenView, g: Gen, index: ArgRegIndex)
    requires
        pop_reg(env, g, false, index) is Ok,
    ensures
        index.gp < 6,
        pop_reg(env, g, false, index)->Ok_0 == (
            counted(written(g, pop_code(argument_reg(index.gp))), -1),
            ArgRegIndex { gp: (index.gp + 1) as usize, ..index },
        ),
{
    reveal(pop_reg);
    reveal(pop);
    let give = pop_code(argument_reg(index.gp));
    one_more_is_written(g, no_code(), Instr::Pop(argument_reg(index.gp)));
    written_keeps_the_depth(g, give);
}

proof fn argument_is_stored(h: Gen, index: ArgRegIndex, offset: int, size: u64)
    requires
        store_arg(h, false, index, offset, size) is Ok,
        width_of(size) is Some,
    ensures
        store_arg(h, false, index, offset, size)->Ok_0 == (
            written(
                h,
                no_code().push(
                    Instr::StoreRbp(width_of(size).unwrap(), argument_reg(index.gp), offset),
                ),
            ),
            ArgRegIndex { gp: (index.gp + 1) as usize, ..index },
        ),
{
    reveal(store_arg);
    one_more_is_written(
        h,
        no_code(),
        Instr::StoreRbp(width_of(size).unwrap(), argument_reg(index.gp), offset),
    );
}

proof fn stored_argument(
    m: Machine,
    callee: Machine,
    reg: Reg,
    offset: int,
    width: ScalarWidth,
)
    requires
        reg != Reg::Rsp,
        reg != Reg::Rbp,
        callee.regs[reg] == bytes_at(m.mem, m.regs[Reg::Rsp], 8),
    ensures
        run(no_code().push(Instr::StoreRbp(width, reg, offset)), callee) is Some,
        bytes_at(
            run(no_code().push(Instr::StoreRbp(width, reg, offset)), callee).unwrap().mem,
            callee.regs[Reg::Rbp] + offset,
            byte_count(width),
        ) == bytes_at(m.mem, m.regs[Reg::Rsp], 8) % capacity(width),
{
    one_more_is_run(no_code(), Instr::StoreRbp(width, reg, offset), callee);
    let v = bytes_at(m.mem, m.regs[Reg::Rsp], 8);
    bytes_are_natural(m.mem, m.regs[Reg::Rsp], 8);
    let x = read(callee, reg, width);
    lemma_mod_bound(v, capacity(width));
    stored_number_is_read_back(callee.mem, callee.regs[Reg::Rbp] + offset, byte_count(width), x);
    assert(bytes_capacity(byte_count(width)) == capacity(width)) by {
        reveal_with_fuel(bytes_capacity, 9);
    }
    lemma_small_mod(x as nat, capacity(width) as nat);
}

proof fn stored_arguments_arrive(reg: Reg, offset: int, width: ScalarWidth)
    requires
        reg != Reg::Rsp,
        reg != Reg::Rbp,
    ensures
        argument_arrives(
            pop_code(reg),
            no_code().push(Instr::StoreRbp(width, reg, offset)),
            reg,
            offset,
            width,
        ),
        forall|m: Machine| (#[trigger] run(pop_code(reg), m)) is Some,
{
    let give = pop_code(reg);
    let take = no_code().push(Instr::StoreRbp(width, reg, offset));
    assert forall|m: Machine| (#[trigger] run(give, m)) is Some by {
        one_more_is_run(no_code(), Instr::Pop(reg), m);
    }
    assert forall|m: Machine, callee: Machine|
        #![trigger run(give, m), run(take, callee)]
        run(give, m) is Some && callee.regs[reg] == run(give, m).unwrap().regs[reg] implies {
        let r = run(take, callee);
        &&& r is Some
        &&& bytes_at(
            r.unwrap().mem,
            callee.regs[Reg::Rbp] + offset,
            byte_count(width),
        ) == bytes_at(m.mem, m.regs[Reg::Rsp], 8) % capacity(width)
    } by {
        one_more_is_run(no_code(), Instr::Pop(reg), m);
        stored_argument(m, callee, reg, offset, width);
    }
}

} // verus!
