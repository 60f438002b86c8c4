//! The temporary expression stack: whatever code pushes, it pops again.

use vstd::prelude::*;
use crate::ast::{
    node_ty, BinaryOp, CaseList, EntityRef, FunctionView, Node, NodeKind, NodeList, Stmt, StmtKind,
    StmtList,
};
use crate::codegen::text::{
    acc_reg, align_stack, arg_regs, arg_slots, args_regs, case_bits, compare_zero, copy_bytes,
    entity_addr, epilogue, fill_va_area, finish_call, first_arg_index, float_binary, float_to_int,
    frame, function_env, gather_bytes, gen_addr, gen_addr_block, gen_addr_block_rule, gen_addr_rule,
    gen_assign, gen_assign_rule, gen_binary, gen_binary_rule, gen_call, gen_call_rule, gen_cases,
    gen_cast, gen_default, gen_do, gen_do_rule, gen_expr, gen_expr_rule, gen_flonum, gen_for,
    gen_for_rule, gen_function, gen_if, gen_if_rule, gen_loc, gen_logical, gen_logical_rule,
    gen_loop_cond, gen_loop_cond_rule, gen_opt, gen_opt_rule, gen_opt_stmt, gen_opt_stmt_rule,
    gen_return, gen_return_rule, gen_stmt, gen_stmt_rule, gen_stmts, gen_stmts_rule, gen_switch,
    gen_switch_rule, gp_arg_64, gp_arg_8, gp_ret_64, gp_ret_8, int_binary, int_compare, int_divide,
    int_to_float, jump_if_nonzero, jump_if_zero, load, load_ret_chunk, memzero_local, negate, nl,
    no_regs, number_cast, peel_bytes, pop, pop_args, pop_reg, popf, prologue, promoted_width, push,
    push_args, push_args_rule, push_ret_buf, push_struct_or_union, push_value, pushf, putb, putd,
    puts, read_bit_field, reg_count, return_aggregate, save_va_area, set_is_nonzero, set_is_zero,
    spill_bytes, stack_slots, store, store_arg, store_param, store_params, store_ret_chunk,
    store_returned, take_label, write_bit_field, ArgRegIndex, ArgRegs, CastTypeId, Gen, GenView,
};
use crate::error::Error;
use crate::source::SourceSpan;
use crate::types::{chunk_in_fp, is_sou_ty, size_of, ty_is_flonum, BitField, Member, Type, Types};
use crate::utils::align_up;

verus! {

/// Whether every struct or union that is passed to a function within an
/// expression has at least one byte.
pub open spec fn passes_values(types: Types, node: Node) -> bool
    decreases node,
{
    match node.kind {
        NodeKind::Dummy | NodeKind::Num(_) | NodeKind::Flonum(_) | NodeKind::Entity(_) => true,
        NodeKind::FuncCall { callee, args, ret_buf_local: _ } => passes_values(types, *callee)
            && args_pass_values(types, args),
        NodeKind::Addr(expr) => passes_values(types, *expr),
        NodeKind::Deref(expr) => passes_values(types, *expr),
        NodeKind::Neg(expr) => passes_values(types, *expr),
        NodeKind::Not(expr) => passes_values(types, *expr),
        NodeKind::BitNot(expr) => passes_values(types, *expr),
        NodeKind::Cast(expr) => passes_values(types, *expr),
        NodeKind::Assign { lhs, rhs } => passes_values(types, *lhs) && passes_values(types, *rhs),
        NodeKind::Comma { lhs, rhs } => passes_values(types, *lhs) && passes_values(types, *rhs),
        NodeKind::LogicalAnd { lhs, rhs } => passes_values(types, *lhs) && passes_values(
            types,
            *rhs,
        ),
        NodeKind::LogicalOr { lhs, rhs } => passes_values(types, *lhs) && passes_values(
            types,
            *rhs,
        ),
        NodeKind::Binary { op: _, lhs, rhs } => passes_values(types, *lhs) && passes_values(
            types,
            *rhs,
        ),
        NodeKind::Conditional { cond, then_expr, else_expr } => passes_values(types, *cond)
            && passes_values(types, *then_expr) && passes_values(types, *else_expr),
        NodeKind::Member { parent, member: _ } => passes_values(types, *parent),
        NodeKind::StmtExpr(body) => stmts_pass_values(types, body),
    }
}

/// Whether the arguments of a call, and what is passed within them, have at
/// least one byte each.
pub open spec fn args_pass_values(types: Types, args: NodeList) -> bool
    decreases args,
{
    match args {
        NodeList::Nil => true,
        NodeList::Cons(arg, tail) => {
            &&& is_sou_ty(types, node_ty(*arg)) ==> size_of(types, node_ty(*arg)) > 0
            &&& passes_values(types, *arg)
            &&& args_pass_values(types, *tail)
        },
    }
}

/// See [`passes_values`].
pub open spec fn opt_passes_values(types: Types, expr: Option<Node>) -> bool
    decreases expr,
{
    match expr {
        None => true,
        Some(expr) => passes_values(types, expr),
    }
}

/// See [`passes_values`].
pub open spec fn stmt_passes_values(types: Types, stmt: Stmt) -> bool
    decreases stmt,
{
    match stmt.kind {
        StmtKind::Expr(expr) => passes_values(types, expr),
        StmtKind::Return(expr) => opt_passes_values(types, expr),
        StmtKind::Loop { init, cond, inc, body, .. } => {
            &&& opt_stmt_passes_values(types, init)
            &&& opt_passes_values(types, cond)
            &&& opt_passes_values(types, inc)
            &&& stmt_passes_values(types, *body)
        },
        StmtKind::If { cond, then_branch, else_branch } => {
            &&& passes_values(types, cond)
            &&& stmt_passes_values(types, *then_branch)
            &&& opt_stmt_passes_values(types, else_branch)
        },
        StmtKind::Switch { cond, body, .. } => passes_values(types, cond) && stmt_passes_values(
            types,
            *body,
        ),
        StmtKind::Block(stmts) => stmts_pass_values(types, stmts),
        StmtKind::Label { body, .. } => stmt_passes_values(types, *body),
        StmtKind::Jump { .. } | StmtKind::MemzeroLocal(_) => true,
    }
}

/// See [`passes_values`].
pub open spec fn opt_stmt_passes_values(types: Types, stmt: Option<Box<Stmt>>) -> bool
    decreases stmt,
{
    match stmt {
        None => true,
        Some(stmt) => stmt_passes_values(types, *stmt),
    }
}

/// See [`passes_values`].
pub open spec fn stmts_pass_values(types: Types, stmts: StmtList) -> bool
    decreases stmts,
{
    match stmts {
        StmtList::Nil => true,
        StmtList::Cons(stmt, tail) => stmt_passes_values(types, *stmt) && stmts_pass_values(
            types,
            *tail,
        ),
    }
}

/// Whether code that was generated leaves as many slots on the temporary stack
/// as it found, and reuses no label.
pub open spec fn keeps_depth(g: Gen, r: Result<Gen, Error>) -> bool {
    r is Ok ==> r->Ok_0.depth == g.depth && r->Ok_0.next_label >= g.next_label
}

/// The same, for code that changes the number of slots.
pub open spec fn adds_slots(g: Gen, r: Result<Gen, Error>, slots: int) -> bool {
    r is Ok ==> r->Ok_0.depth == g.depth + slots && r->Ok_0.next_label >= g.next_label
}

broadcast proof fn putb_depth(g: Gen, bytes: Seq<u8>)
    ensures
        (#[trigger] putb(g, bytes)).depth == g.depth,
        putb(g, bytes).next_label == g.next_label,
{
    reveal(putb);
}

broadcast proof fn gen_loc_depth(env: GenView, g: Gen, span: SourceSpan)
    ensures
        (#[trigger] gen_loc(env, g, span)).depth == g.depth,
        gen_loc(env, g, span).next_label == g.next_label,
{
    broadcast use putb_depth;

    reveal(gen_loc);
}

broadcast proof fn push_depth(env: GenView, g: Gen)
    ensures
        adds_slots(g, #[trigger] push(env, g), 1),
{
    broadcast use putb_depth;

    reveal(push);
}

broadcast proof fn pushf_depth(env: GenView, g: Gen)
    ensures
        adds_slots(g, #[trigger] pushf(env, g), 1),
{
    broadcast use putb_depth;

    reveal(pushf);
}

broadcast proof fn pop_depth(env: GenView, g: Gen, register: &str)
    ensures
        adds_slots(g, #[trigger] pop(env, g, register), -1),
{
    broadcast use putb_depth;

    reveal(pop);
}

broadcast proof fn popf_depth(env: GenView, g: Gen, register: usize)
    ensures
        adds_slots(g, #[trigger] popf(env, g, register), -1),
{
    broadcast use putb_depth;

    reveal(popf);
}

broadcast proof fn load_depth(env: GenView, g: Gen, ty: Type)
    ensures
        adds_slots(g, #[trigger] load(env, g, ty), 0),
{
    broadcast use putb_depth;

    reveal(load);
}

broadcast proof fn compare_zero_depth(env: GenView, g: Gen, ty: Type)
    ensures
        (#[trigger] compare_zero(env, g, ty)).depth == g.depth,
        compare_zero(env, g, ty).next_label == g.next_label,
{
    broadcast use putb_depth;

    reveal(compare_zero);
}

broadcast proof fn set_is_zero_depth(env: GenView, g: Gen, ty: Type)
    ensures
        (#[trigger] set_is_zero(env, g, ty)).depth == g.depth,
        set_is_zero(env, g, ty).next_label == g.next_label,
{
    broadcast use putb_depth;

    reveal(set_is_zero);
}

broadcast proof fn set_is_nonzero_depth(env: GenView, g: Gen, ty: Type)
    ensures
        (#[trigger] set_is_nonzero(env, g, ty)).depth == g.depth,
        set_is_nonzero(env, g, ty).next_label == g.next_label,
{
    broadcast use putb_depth;

    reveal(set_is_nonzero);
}

broadcast proof fn jump_if_zero_depth(env: GenView, g: Gen, ty: Type, prefix: &str, number: usize)
    ensures
        adds_slots(g, #[trigger] jump_if_zero(env, g, ty, prefix, number), 0),
{
    broadcast use putb_depth;

    reveal(jump_if_zero);
}

broadcast proof fn jump_if_nonzero_depth(
    env: GenView,
    g: Gen,
    ty: Type,
    prefix: &str,
    number: usize,
)
    ensures
        (#[trigger] jump_if_nonzero(env, g, ty, prefix, number)).depth == g.depth,
        jump_if_nonzero(env, g, ty, prefix, number).next_label == g.next_label,
{
    broadcast use putb_depth;

    reveal(jump_if_nonzero);
}

broadcast proof fn gen_flonum_depth(env: GenView, g: Gen, bits: u64, ty: Type)
    ensures
        adds_slots(g, #[trigger] gen_flonum(env, g, bits, ty), 0),
{
    broadcast use putb_depth;

    reveal(gen_flonum);
}

broadcast proof fn negate_depth(env: GenView, g: Gen, ty: Type)
    ensures
        (#[trigger] negate(env, g, ty)).depth == g.depth,
        negate(env, g, ty).next_label == g.next_label,
{
    broadcast use putb_depth;

    reveal(negate);
}

broadcast proof fn read_bit_field_depth(env: GenView, g: Gen, member: Member)
    ensures
        adds_slots(g, #[trigger] read_bit_field(env, g, member), 0),
{
    broadcast use putb_depth;

    reveal(read_bit_field);
}

broadcast proof fn float_binary_depth(
    env: GenView,
    g: Gen,
    op: BinaryOp,
    lhs_ty: Type,
    span: SourceSpan,
)
    ensures
        adds_slots(g, #[trigger] float_binary(env, g, op, lhs_ty, span), 0),
{
    broadcast use putb_depth;

    reveal(float_binary);
}

broadcast proof fn int_divide_depth(env: GenView, g: Gen, is_mod: bool, lhs_ty: Type, ty: Type)
    ensures
        (#[trigger] int_divide(env, g, is_mod, lhs_ty, ty)).depth == g.depth,
        int_divide(env, g, is_mod, lhs_ty, ty).next_label == g.next_label,
{
    broadcast use putb_depth;

    reveal(int_divide);
}

broadcast proof fn int_compare_depth(env: GenView, g: Gen, op: BinaryOp, lhs_ty: Type)
    ensures
        (#[trigger] int_compare(env, g, op, lhs_ty)).depth == g.depth,
        int_compare(env, g, op, lhs_ty).next_label == g.next_label,
{
    broadcast use putb_depth;

    reveal(int_compare);
}

broadcast proof fn number_cast_depth(g: Gen, from: Type, to: Type, f: CastTypeId, t: CastTypeId)
    ensures
        (#[trigger] number_cast(g, from, to, f, t)).depth == g.depth,
        number_cast(g, from, to, f, t).next_label == g.next_label,
{
    broadcast use putb_depth;

    reveal(number_cast);
    reveal(float_to_int);
    reveal(int_to_float);
}

broadcast proof fn entity_addr_depth(env: GenView, g: Gen, entity: EntityRef)
    ensures
        adds_slots(g, #[trigger] entity_addr(env, g, entity), 0),
{
    broadcast use putb_depth;

    reveal(entity_addr);
}

broadcast proof fn memzero_local_depth(env: GenView, g: Gen, id: usize)
    ensures
        adds_slots(g, #[trigger] memzero_local(env, g, id), 0),
{
    broadcast use putb_depth;

    reveal(memzero_local);
}

proof fn expr_keeps_depth(env: GenView, g: Gen, node: Node)
    requires
        passes_values(env.types, node),
    ensures
        keeps_depth(g, gen_expr(env, g, node)),
    decreases node, 13int,
{
    broadcast use group_depth;

    assert(gen_expr(env, g, node) == gen_expr_rule(env, g, node));
    let g = gen_loc(env, g, node.span);
    let ty = node_ty(node);
    match node.kind {
        NodeKind::Num(value) => {},
        NodeKind::Flonum(bits) => {},
        NodeKind::FuncCall { .. } => {
            call_keeps_depth(env, g, node);
        },
        NodeKind::Addr(expr) => {
            addr_keeps_depth(env, g, *expr);
        },
        NodeKind::Deref(expr) => {
            expr_keeps_depth(env, g, *expr);
        },
        NodeKind::Neg(expr) => {
            expr_keeps_depth(env, g, *expr);
        },
        NodeKind::Not(expr) => {
            expr_keeps_depth(env, g, *expr);
        },
        NodeKind::BitNot(expr) => {
            expr_keeps_depth(env, g, *expr);
        },
        NodeKind::Entity(_) => {
            addr_keeps_depth(env, g, node);
        },
        NodeKind::Assign { .. } => {
            assign_keeps_depth(env, g, node);
        },
        NodeKind::Comma { lhs, rhs } => {
            expr_keeps_depth(env, g, *lhs);
            match gen_expr(env, g, *lhs) {
                Err(e) => {},
                Ok(g) => {
                    expr_keeps_depth(env, g, *rhs);
                },
            }
        },
        NodeKind::LogicalAnd { .. } | NodeKind::LogicalOr { .. } => {
            logical_keeps_depth(env, g, node);
        },
        NodeKind::Binary { .. } => {
            binary_keeps_depth(env, g, node, ty);
        },
        NodeKind::Conditional { cond, then_expr, else_expr } => {
            let ty = node_ty(*cond);
            match take_label(g) {
                Err(e) => {},
                Ok((g, label)) => {
                    expr_keeps_depth(env, g, *cond);
                    match gen_expr(env, g, *cond) {
                        Err(e) => {},
                        Ok(g) => {
                            let g = compare_zero(env, g, ty);
                            match jump_if_zero(env, g, ty, ".L.else.", label) {
                                Err(e) => {},
                                Ok(g) => {
                                    expr_keeps_depth(env, g, *then_expr);
                                    match gen_expr(env, g, *then_expr) {
                                        Err(e) => {},
                                        Ok(g) => {
                                            let g = nl(putd(puts(g, "  jmp .L.end."), label as int));
                                            let g = nl(puts(putd(puts(g, ".L.else."), label as int), ":"));
                                            expr_keeps_depth(env, g, *else_expr);
                                        },
                                    }
                                },
                            }
                        },
                    }
                },
            }
        },
        NodeKind::Member { parent: _, member } => {
            addr_keeps_depth(env, g, node);
        },
        NodeKind::StmtExpr(body) => {
            stmts_keeps_depth(env, g, body);
        },
        NodeKind::Cast(expr) => {
            expr_keeps_depth(env, g, *expr);
        },
        NodeKind::Dummy => {},
    }
}

proof fn addr_keeps_depth(env: GenView, g: Gen, node: Node)
    requires
        passes_values(env.types, node),
    ensures
        keeps_depth(g, gen_addr(env, g, node)),
    decreases node, 9int,
{
    broadcast use group_depth;

    assert(gen_addr(env, g, node) == gen_addr_rule(env, g, node));
    match node.kind {
        NodeKind::Entity(entity) => {},
        NodeKind::Deref(expr) => {
            expr_keeps_depth(env, g, *expr);
        },
        NodeKind::Comma { lhs, rhs } => {
            expr_keeps_depth(env, g, *lhs);
            match gen_expr(env, g, *lhs) {
                Err(e) => {},
                Ok(g) => {
                    addr_keeps_depth(env, g, *rhs);
                },
            }
        },
        NodeKind::StmtExpr(body) => {
            addr_block_keeps_depth(env, g, body, node.span);
        },
        NodeKind::Member { parent, member } => {
            addr_keeps_depth(env, g, *parent);
        },
        NodeKind::FuncCall { ret_buf_local: Some(_), .. } => {
            call_keeps_depth(env, gen_loc(env, g, node.span), node);
        },
        _ => {},
    }
}

proof fn addr_block_keeps_depth(env: GenView, g: Gen, stmts: StmtList, span: SourceSpan)
    requires
        stmts_pass_values(env.types, stmts),
    ensures
        keeps_depth(g, gen_addr_block(env, g, stmts, span)),
    decreases stmts, 9int,
{
    broadcast use group_depth;

    assert(gen_addr_block(env, g, stmts, span) == gen_addr_block_rule(env, g, stmts, span));
    match stmts {
        StmtList::Nil => {},
        StmtList::Cons(stmt, tail) => {
            match *tail {
                StmtList::Nil => {
                    match stmt.kind {
                        StmtKind::Expr(expr) => {
                            assert(stmt_passes_values(env.types, *stmt));
                            addr_keeps_depth(env, g, expr);
                        },
                        _ => {},
                    }
                },
                _ => {
                    stmt_keeps_depth(env, g, *stmt);
                    match gen_stmt(env, g, *stmt) {
                        Err(e) => {},
                        Ok(g) => {
                            addr_block_keeps_depth(env, g, *tail, span);
                        },
                    }
                },
            }
        },
    }
}

proof fn assign_keeps_depth(env: GenView, g: Gen, node: Node)
    requires
        passes_values(env.types, node),
    ensures
        keeps_depth(g, gen_assign(env, g, node)),
    decreases node, 1int,
{
    broadcast use group_depth;

    assert(gen_assign(env, g, node) == gen_assign_rule(env, g, node));
    match node.kind {
        NodeKind::Assign { lhs, rhs } => {
            addr_keeps_depth(env, g, *lhs);
            match gen_addr(env, g, *lhs) {
                Err(e) => {},
                Ok(g) => {
                    match push(env, g) {
                        Err(e) => {},
                        Ok(g) => {
                            expr_keeps_depth(env, g, *rhs);
                        },
                    }
                },
            }
        },
        _ => {},
    }
}

proof fn logical_keeps_depth(env: GenView, g: Gen, node: Node)
    requires
        passes_values(env.types, node),
    ensures
        keeps_depth(g, gen_logical(env, g, node)),
    decreases node, 1int,
{
    broadcast use group_depth;

    assert(gen_logical(env, g, node) == gen_logical_rule(env, g, node));
    match node.kind {
        NodeKind::LogicalAnd { lhs, rhs } => {
            let lhs_ty = node_ty(*lhs);
            let rhs_ty = node_ty(*rhs);
            match take_label(g) {
                Err(e) => {},
                Ok((g, label)) => {
                    expr_keeps_depth(env, g, *lhs);
                    match gen_expr(env, g, *lhs) {
                        Err(e) => {},
                        Ok(g) => {
                            let g = compare_zero(env, g, lhs_ty);
                            match jump_if_zero(env, g, lhs_ty, ".L.false.", label) {
                                Err(e) => {},
                                Ok(g) => {
                                    expr_keeps_depth(env, g, *rhs);
                                },
                            }
                        },
                    }
                },
            }
        },
        NodeKind::LogicalOr { lhs, rhs } => {
            let lhs_ty = node_ty(*lhs);
            let rhs_ty = node_ty(*rhs);
            match take_label(g) {
                Err(e) => {},
                Ok((g, label)) => {
                    expr_keeps_depth(env, g, *lhs);
                    match gen_expr(env, g, *lhs) {
                        Err(e) => {},
                        Ok(g) => {
                            let g = compare_zero(env, g, lhs_ty);
                            let g = jump_if_nonzero(env, g, lhs_ty, ".L.true.", label);
                            expr_keeps_depth(env, g, *rhs);
                        },
                    }
                },
            }
        },
        _ => {},
    }
}

proof fn binary_keeps_depth(env: GenView, g: Gen, node: Node, ty: Type)
    requires
        passes_values(env.types, node),
    ensures
        keeps_depth(g, gen_binary(env, g, node, ty)),
    decreases node, 1int,
{
    broadcast use group_depth;

    assert(gen_binary(env, g, node, ty) == gen_binary_rule(env, g, node, ty));
    match node.kind {
        NodeKind::Binary { op, lhs, rhs } => {
            if ty_is_flonum(node_ty(*lhs)) {
                expr_keeps_depth(env, g, *rhs);
                match gen_expr(env, g, *rhs) {
                    Err(e) => {},
                    Ok(g) => {
                        match pushf(env, g) {
                            Err(e) => {},
                            Ok(g) => {
                                expr_keeps_depth(env, g, *lhs);
                            },
                        }
                    },
                }
            } else {
                expr_keeps_depth(env, g, *rhs);
                match gen_expr(env, g, *rhs) {
                    Err(e) => {},
                    Ok(g) => {
                        match push(env, g) {
                            Err(e) => {},
                            Ok(g) => {
                                expr_keeps_depth(env, g, *lhs);
                            },
                        }
                    },
                }
            }
        },
        _ => {},
    }
}

proof fn stmt_keeps_depth(env: GenView, g: Gen, stmt: Stmt)
    requires
        stmt_passes_values(env.types, stmt),
    ensures
        keeps_depth(g, gen_stmt(env, g, stmt)),
    decreases stmt, 9int,
{
    broadcast use group_depth;

    assert(gen_stmt(env, g, stmt) == gen_stmt_rule(env, g, stmt));
    let g = gen_loc(env, g, stmt.span);
    match stmt.kind {
        StmtKind::Expr(expr) => {
            expr_keeps_depth(env, g, expr);
        },
        StmtKind::Return(expr) => {
            return_keeps_depth(env, g, expr);
        },
        StmtKind::Loop { do_while, .. } => {
            if do_while {
                do_keeps_depth(env, g, stmt);
            } else {
                for_keeps_depth(env, g, stmt);
            }
        },
        StmtKind::If { .. } => {
            if_keeps_depth(env, g, stmt);
        },
        StmtKind::Switch { .. } => {
            switch_keeps_depth(env, g, stmt);
        },
        StmtKind::Block(stmts) => {
            stmts_keeps_depth(env, g, stmts);
        },
        StmtKind::Jump { label: Some(label), .. } => {},
        StmtKind::Jump { label: None, .. } => {},
        StmtKind::Label { label, body, .. } => {
            stmt_keeps_depth(env, nl(puts(putd(puts(g, ".L.."), label as int), ":")), *body);
        },
        StmtKind::MemzeroLocal(id) => {},
    }
}

proof fn stmts_keeps_depth(env: GenView, g: Gen, stmts: StmtList)
    requires
        stmts_pass_values(env.types, stmts),
    ensures
        keeps_depth(g, gen_stmts(env, g, stmts)),
    decreases stmts, 5int,
{
    broadcast use group_depth;

    assert(gen_stmts(env, g, stmts) == gen_stmts_rule(env, g, stmts));
    match stmts {
        StmtList::Nil => {},
        StmtList::Cons(stmt, tail) => {
            stmt_keeps_depth(env, g, *stmt);
            match gen_stmt(env, g, *stmt) {
                Err(e) => {},
                Ok(g) => {
                    stmts_keeps_depth(env, g, *tail);
                },
            }
        },
    }
}

proof fn return_keeps_depth(env: GenView, g: Gen, expr: Option<Node>)
    requires
        opt_passes_values(env.types, expr),
    ensures
        keeps_depth(g, gen_return(env, g, expr)),
    decreases expr, 5int,
{
    broadcast use group_depth;

    assert(gen_return(env, g, expr) == gen_return_rule(env, g, expr));
    match expr {
        None => {},
        Some(expr) => {
            expr_keeps_depth(env, g, expr);
        },
    }
}

proof fn opt_keeps_depth(env: GenView, g: Gen, expr: Option<Node>)
    requires
        opt_passes_values(env.types, expr),
    ensures
        keeps_depth(g, gen_opt(env, g, expr)),
    decreases expr, 3int,
{
    broadcast use group_depth;

    assert(gen_opt(env, g, expr) == gen_opt_rule(env, g, expr));
    match expr {
        None => {},
        Some(expr) => {
            expr_keeps_depth(env, g, expr);
        },
    }
}

proof fn opt_stmt_keeps_depth(env: GenView, g: Gen, stmt: Option<Box<Stmt>>)
    requires
        opt_stmt_passes_values(env.types, stmt),
    ensures
        keeps_depth(g, gen_opt_stmt(env, g, stmt)),
    decreases stmt, 3int,
{
    broadcast use group_depth;

    assert(gen_opt_stmt(env, g, stmt) == gen_opt_stmt_rule(env, g, stmt));
    match stmt {
        None => {},
        Some(stmt) => {
            stmt_keeps_depth(env, g, *stmt);
        },
    }
}

proof fn loop_cond_keeps_depth(env: GenView, g: Gen, cond: Option<Node>, brk_label: usize)
    requires
        opt_passes_values(env.types, cond),
    ensures
        keeps_depth(g, gen_loop_cond(env, g, cond, brk_label)),
    decreases cond, 3int,
{
    broadcast use group_depth;

    assert(gen_loop_cond(env, g, cond, brk_label) == gen_loop_cond_rule(env, g, cond, brk_label));
    match cond {
        None => {},
        Some(cond) => {
            expr_keeps_depth(env, g, cond);
        },
    }
}

proof fn for_keeps_depth(env: GenView, g: Gen, stmt: Stmt)
    requires
        stmt_passes_values(env.types, stmt),
    ensures
        keeps_depth(g, gen_for(env, g, stmt)),
    decreases stmt, 3int,
{
    broadcast use group_depth;

    assert(gen_for(env, g, stmt) == gen_for_rule(env, g, stmt));
    match stmt.kind {
        StmtKind::Loop { init, cond, inc, body, do_while: _, brk_label, cont_label } => {
            match take_label(g) {
                Err(e) => {},
                Ok((g, label)) => {
                    opt_stmt_keeps_depth(env, g, init);
                    match gen_opt_stmt(env, g, init) {
                        Err(e) => {},
                        Ok(g) => {
                            let g = nl(puts(putd(puts(g, ".L.begin."), label as int), ":"));
                            loop_cond_keeps_depth(env, g, cond, brk_label);
                            match gen_loop_cond(env, g, cond, brk_label) {
                                Err(e) => {},
                                Ok(g) => {
                                    stmt_keeps_depth(env, g, *body);
                                    match gen_stmt(env, g, *body) {
                                        Err(e) => {},
                                        Ok(g) => {
                                            let g = nl(puts(putd(puts(g, ".L.."), cont_label as int), ":"));
                                            opt_keeps_depth(env, g, inc);
                                        },
                                    }
                                },
                            }
                        },
                    }
                },
            }
        },
        _ => {},
    }
}

proof fn do_keeps_depth(env: GenView, g: Gen, stmt: Stmt)
    requires
        stmt_passes_values(env.types, stmt),
    ensures
        keeps_depth(g, gen_do(env, g, stmt)),
    decreases stmt, 3int,
{
    broadcast use group_depth;

    assert(gen_do(env, g, stmt) == gen_do_rule(env, g, stmt));
    match stmt.kind {
        StmtKind::Loop { init: _, cond: Some(cond), inc: _, body, do_while: _, brk_label, cont_label } => {
            match take_label(g) {
                Err(e) => {},
                Ok((g, label)) => {
                    let g = nl(puts(putd(puts(g, ".L.begin."), label as int), ":"));
                    stmt_keeps_depth(env, g, *body);
                    match gen_stmt(env, g, *body) {
                        Err(e) => {},
                        Ok(g) => {
                            let g = nl(puts(putd(puts(g, ".L.."), cont_label as int), ":"));
                            assert(opt_passes_values(env.types, Some(cond)));
                            expr_keeps_depth(env, g, cond);
                        },
                    }
                },
            }
        },
        _ => {},
    }
}

proof fn if_keeps_depth(env: GenView, g: Gen, stmt: Stmt)
    requires
        stmt_passes_values(env.types, stmt),
    ensures
        keeps_depth(g, gen_if(env, g, stmt)),
    decreases stmt, 3int,
{
    broadcast use group_depth;

    assert(gen_if(env, g, stmt) == gen_if_rule(env, g, stmt));
    match stmt.kind {
        StmtKind::If { cond, then_branch, else_branch } => {
            match take_label(g) {
                Err(e) => {},
                Ok((g, label)) => {
                    expr_keeps_depth(env, g, cond);
                    match gen_expr(env, g, cond) {
                        Err(e) => {},
                        Ok(g) => {
                            let g = compare_zero(env, g, node_ty(cond));
                            match jump_if_zero(env, g, node_ty(cond), ".L.else.", label) {
                                Err(e) => {},
                                Ok(g) => {
                                    stmt_keeps_depth(env, g, *then_branch);
                                    match gen_stmt(env, g, *then_branch) {
                                        Err(e) => {},
                                        Ok(g) => {
                                            let g = nl(putd(puts(g, "  jmp .L.end."), label as int));
                                            let g = nl(puts(putd(puts(g, ".L.else."), label as int), ":"));
                                            opt_stmt_keeps_depth(env, g, else_branch);
                                        },
                                    }
                                },
                            }
                        },
                    }
                },
            }
        },
        _ => {},
    }
}

proof fn switch_keeps_depth(env: GenView, g: Gen, stmt: Stmt)
    requires
        stmt_passes_values(env.types, stmt),
    ensures
        keeps_depth(g, gen_switch(env, g, stmt)),
    decreases stmt, 3int,
{
    broadcast use group_depth;

    assert(gen_switch(env, g, stmt) == gen_switch_rule(env, g, stmt));
    match stmt.kind {
        StmtKind::Switch { cond, body, cases, default, brk_label } => {
            expr_keeps_depth(env, g, cond);
            match gen_expr(env, g, cond) {
                Err(e) => {},
                Ok(g) => {
                    let g = gen_cases(g, cases, acc_reg(promoted_width(env, node_ty(cond))));
                    let g = gen_default(g, default);
                    let g = nl(putd(puts(g, "  jmp .L.."), brk_label as int));
                    stmt_keeps_depth(env, g, *body);
                },
            }
        },
        _ => {},
    }
}

broadcast proof fn copy_bytes_depth(g: Gen, i: int, size: int, via: &str, to: &str)
    ensures
        (#[trigger] copy_bytes(g, i, size, via, to)).depth == g.depth,
        copy_bytes(g, i, size, via, to).next_label == g.next_label,
    decreases size - i,
{
    broadcast use putb_depth;

    if i < size {
        copy_bytes_depth(
            nl(
                puts(
                    puts(
                        puts(
                            putd(
                                puts(
                                    puts(
                                        puts(
                                            nl(
                                                puts(
                                                    puts(putd(puts(g, "  mov "), i), "(%rax), "),
                                                    via,
                                                ),
                                            ),
                                            "  mov ",
                                        ),
                                        via,
                                    ),
                                    ", ",
                                ),
                                i,
                            ),
                            "(",
                        ),
                        to,
                    ),
                    ")",
                ),
            ),
            i + 1,
            size,
            via,
            to,
        );
    }
}

broadcast proof fn peel_bytes_depth(g: Gen, i: int, size: int, index: usize, dst: int)
    ensures
        (#[trigger] peel_bytes(g, i, size, index, dst)).depth == g.depth,
        peel_bytes(g, i, size, index, dst).next_label == g.next_label,
    decreases size - i,
{
    broadcast use putb_depth;

    if i < size {
        let a = nl(
            puts(
                putd(puts(puts(puts(g, "  mov "), gp_ret_8(index)), ", "), dst + i),
                "(%rbp)",
            ),
        );
        peel_bytes_depth(
            nl(puts(puts(a, "  shr $8, "), gp_ret_64(index))),
            i + 1,
            size,
            index,
            dst,
        );
    }
}

broadcast proof fn gather_bytes_depth(g: Gen, i: int, index: usize, lo: int)
    ensures
        (#[trigger] gather_bytes(g, i, index, lo)).depth == g.depth,
        gather_bytes(g, i, index, lo).next_label == g.next_label,
    decreases i,
{
    broadcast use putb_depth;

    if i > 0 {
        let a = nl(puts(puts(g, "  shl $8, "), gp_ret_64(index)));
        gather_bytes_depth(
            nl(puts(puts(putd(puts(a, "  mov "), lo + i - 1), "(%rdi), "), gp_ret_8(index))),
            i - 1,
            index,
            lo,
        );
    }
}

broadcast proof fn gen_cases_depth(g: Gen, cases: CaseList, acc: &str)
    ensures
        (#[trigger] gen_cases(g, cases, acc)).depth == g.depth,
        gen_cases(g, cases, acc).next_label == g.next_label,
    decreases cases,
{
    broadcast use putb_depth;

    match cases {
        CaseList::Nil => {},
        CaseList::Cons(case, tail) => {
            let a = nl(puts(puts(putd(puts(g, "  cmp $"), case_bits(case.value)), ", "), acc));
            gen_cases_depth(nl(putd(puts(a, "  je .L.."), case.label as int)), *tail, acc);
        },
    }
}

broadcast proof fn push_struct_or_union_depth(env: GenView, g: Gen, ty: Type)
    ensures
        adds_slots(
            g,
            #[trigger] push_struct_or_union(env, g, ty),
            align_up(size_of(env.types, ty) as int, 8) / 8,
        ),
{
    broadcast use {putb_depth, copy_bytes_depth};

    reveal(push_struct_or_union);
}

broadcast proof fn store_depth(env: GenView, g: Gen, ty: Type)
    ensures
        adds_slots(g, #[trigger] store(env, g, ty), -1),
{
    broadcast use {putb_depth, pop_depth, copy_bytes_depth};

    reveal(store);
}

broadcast proof fn write_bit_field_depth(
    env: GenView,
    g: Gen,
    member: Member,
    field: BitField,
    ty: Type,
)
    ensures
        adds_slots(g, #[trigger] write_bit_field(env, g, member, field, ty), -1),
{
    broadcast use {putb_depth, load_depth, store_depth};

    reveal(write_bit_field);
}

broadcast proof fn int_binary_depth(env: GenView, g: Gen, op: BinaryOp, lhs_ty: Type, ty: Type)
    ensures
        (#[trigger] int_binary(env, g, op, lhs_ty, ty)).depth == g.depth,
        int_binary(env, g, op, lhs_ty, ty).next_label == g.next_label,
{
    broadcast use {putb_depth, int_divide_depth, int_compare_depth};

    reveal(int_binary);
}

broadcast proof fn gen_cast_depth(env: GenView, g: Gen, from: Type, to: Type)
    ensures
        (#[trigger] gen_cast(env, g, from, to)).depth == g.depth,
        gen_cast(env, g, from, to).next_label == g.next_label,
{
    broadcast use {putb_depth, compare_zero_depth, set_is_nonzero_depth, number_cast_depth};

    reveal(gen_cast);
}

broadcast proof fn store_returned_depth(env: GenView, g: Gen, ty: Type, ret_buf: Option<usize>)
    ensures
        adds_slots(g, #[trigger] store_returned(env, g, ty, ret_buf), 0),
{
    broadcast use {putb_depth, peel_bytes_depth};

    reveal(store_returned);
    reveal(store_ret_chunk);
}

broadcast proof fn return_aggregate_depth(env: GenView, g: Gen, ty: Type)
    ensures
        adds_slots(g, #[trigger] return_aggregate(env, g, ty), 0),
{
    broadcast use {putb_depth, gather_bytes_depth, copy_bytes_depth};

    reveal(return_aggregate);
    reveal(load_ret_chunk);
}

broadcast proof fn push_value_depth(env: GenView, g: Gen, ty: Type)
    ensures
        adds_slots(g, #[trigger] push_value(env, g, ty), arg_slots(env.types, ty)),
{
    broadcast use {push_struct_or_union_depth, push_depth, pushf_depth};

    reveal(push_value);
}

broadcast proof fn push_ret_buf_depth(env: GenView, g: Gen, ret_buf: Option<usize>)
    ensures
        adds_slots(g, #[trigger] push_ret_buf(env, g, ret_buf), if ret_buf is Some {
            1
        } else {
            0
        }),
{
    broadcast use {putb_depth, push_depth};

    reveal(push_ret_buf);
}

broadcast group group_depth {
    putb_depth,
    gen_loc_depth,
    push_depth,
    pushf_depth,
    pop_depth,
    popf_depth,
    load_depth,
    compare_zero_depth,
    set_is_zero_depth,
    set_is_nonzero_depth,
    jump_if_zero_depth,
    jump_if_nonzero_depth,
    gen_flonum_depth,
    negate_depth,
    read_bit_field_depth,
    float_binary_depth,
    entity_addr_depth,
    memzero_local_depth,
    gen_cases_depth,
    store_depth,
    write_bit_field_depth,
    int_binary_depth,
    gen_cast_depth,
    store_returned_depth,
    return_aggregate_depth,
    push_value_depth,
    push_ret_buf_depth,
}

/// The number of registers that the arguments from `k` on are passed in.
spec fn reg_slots(places: Seq<ArgRegs>, k: int) -> int
    decreases places.len() - k,
{
    if k >= places.len() {
        0
    } else {
        reg_count(places[k]) + reg_slots(places, k + 1)
    }
}

proof fn pop_reg_depth(env: GenView, g: Gen, is_fp: bool, rindex: ArgRegIndex)
    ensures
        pop_reg(env, g, is_fp, rindex) is Ok ==> {
            let h = pop_reg(env, g, is_fp, rindex)->Ok_0.0;
            h.depth == g.depth - 1 && h.next_label >= g.next_label
        },
{
    broadcast use {pop_depth, popf_depth};

    reveal(pop_reg);
}

proof fn pop_args_depth(env: GenView, g: Gen, places: Seq<ArgRegs>, k: int, rindex: ArgRegIndex)
    ensures
        pop_args(env, g, places, k, rindex) is Ok ==> {
            let h = pop_args(env, g, places, k, rindex)->Ok_0.0;
            h.depth == g.depth - reg_slots(places, k) && h.next_label >= g.next_label
        },
    decreases places.len() - k,
{
    if k < places.len() {
        match places[k] {
            ArgRegs::Stack => pop_args_depth(env, g, places, k + 1, rindex),
            ArgRegs::One(a) => {
                pop_reg_depth(env, g, a, rindex);
                if let Ok((g, rindex)) = pop_reg(env, g, a, rindex) {
                    pop_args_depth(env, g, places, k + 1, rindex);
                }
            },
            ArgRegs::Two(a, b) => {
                pop_reg_depth(env, g, a, rindex);
                if let Ok((g, rindex)) = pop_reg(env, g, a, rindex) {
                    pop_reg_depth(env, g, b, rindex);
                    if let Ok((g, rindex)) = pop_reg(env, g, b, rindex) {
                        pop_args_depth(env, g, places, k + 1, rindex);
                    }
                }
            },
        }
    }
}

proof fn finish_call_depth(
    env: GenView,
    g: Gen,
    places: Seq<ArgRegs>,
    slots: int,
    ret_buf: Option<usize>,
)
    requires
        slots >= 0,
    ensures
        adds_slots(
            g,
            finish_call(env, g, places, slots, ret_buf),
            -slots - reg_slots(places, 0) - (if ret_buf is Some {
                1int
            } else {
                0
            }),
        ),
{
    broadcast use putb_depth;

    reveal(finish_call);
    pop_reg_depth(env, g, false, no_regs());
    let first = if ret_buf is Some {
        pop_reg(env, g, false, no_regs())
    } else {
        Ok((g, no_regs()))
    };
    if let Ok((g, rindex)) = first {
        pop_args_depth(env, g, places, 0, rindex);
    }
}

proof fn stack_slots_are_counted(types: Types, args: NodeList, places: Seq<ArgRegs>, k: int)
    ensures
        stack_slots(types, args, places, k) >= 0,
    decreases args,
{
    match args {
        NodeList::Nil => {},
        NodeList::Cons(_, tail) => stack_slots_are_counted(types, *tail, places, k + 1),
    }
}

/// A value that is passed in registers takes as many slots as registers.
proof fn register_values_fill_their_slots(types: Types, ty: Type, rindex: ArgRegIndex)
    requires
        is_sou_ty(types, ty) ==> size_of(types, ty) > 0,
        arg_regs(types, ty, rindex).0 != ArgRegs::Stack,
    ensures
        arg_slots(types, ty) == reg_count(arg_regs(types, ty, rindex).0),
{
}

proof fn push_args_depth(
    env: GenView,
    g: Gen,
    args: NodeList,
    places: Seq<ArgRegs>,
    k: int,
    by_stack: bool,
    rindex: ArgRegIndex,
)
    requires
        args_pass_values(env.types, args),
        0 <= k <= places.len(),
        places.skip(k) == args_regs(env.types, args, rindex),
    ensures
        adds_slots(
            g,
            push_args(env, g, args, places, k, by_stack),
            if by_stack {
                stack_slots(env.types, args, places, k)
            } else {
                reg_slots(places, k)
            },
        ),
    decreases args, 1int,
{
    broadcast use group_depth;

    assert(push_args(env, g, args, places, k, by_stack) == push_args_rule(
        env,
        g,
        args,
        places,
        k,
        by_stack,
    ));
    match args {
        NodeList::Nil => {
            assert(places.skip(k).len() == 0);
        },
        NodeList::Cons(arg, tail) => {
            let (regs, next) = arg_regs(env.types, node_ty(*arg), rindex);
            let rest = args_regs(env.types, *tail, next);
            assert(places.skip(k) == seq![regs] + rest);
            assert(places.skip(k).len() == 1 + rest.len());
            assert(places[k] == places.skip(k)[0]);
            assert(places.skip(k + 1) =~= places.skip(k).skip(1));
            assert((seq![regs] + rest).skip(1) =~= rest);
            push_args_depth(env, g, *tail, places, k + 1, by_stack, next);
            if let Ok(g) = push_args(env, g, *tail, places, k + 1, by_stack) {
                if (places[k] == ArgRegs::Stack) == by_stack {
                    expr_keeps_depth(env, g, *arg);
                    if !by_stack {
                        register_values_fill_their_slots(env.types, node_ty(*arg), rindex);
                    }
                }
            }
        },
    }
}

proof fn call_keeps_depth(env: GenView, g: Gen, node: Node)
    requires
        passes_values(env.types, node),
    ensures
        keeps_depth(g, gen_call(env, g, node)),
    decreases node, 1int,
{
    broadcast use group_depth;

    assert(gen_call(env, g, node) == gen_call_rule(env, g, node));
    if let NodeKind::FuncCall { callee, args, ret_buf_local } = node.kind {
        let first = first_arg_index(ret_buf_local);
        let places = args_regs(env.types, args, first);
        assert(places.skip(0) =~= places);
        let wanted = stack_slots(env.types, args, places, 0);
        stack_slots_are_counted(env.types, args, places, 0);
        reveal(align_stack);
        if let Ok((g, slots)) = align_stack(env, g, wanted) {
            push_args_depth(env, g, args, places, 0, true, first);
            if let Ok(g) = push_args(env, g, args, places, 0, true) {
                push_args_depth(env, g, args, places, 0, false, first);
                if let Ok(g) = push_args(env, g, args, places, 0, false) {
                    if let Ok(g) = push_ret_buf(env, g, ret_buf_local) {
                        expr_keeps_depth(env, g, *callee);
                        if let Ok(g) = gen_expr(env, g, *callee) {
                            finish_call_depth(env, g, places, slots, ret_buf_local);
                        }
                    }
                }
            }
        }
    }
}

proof fn spill_bytes_depth(g: Gen, off: int, end: int, index: usize)
    ensures
        spill_bytes(g, off, end, index).depth == g.depth,
    decreases end - off,
{
    broadcast use putb_depth;

    if off < end {
        let a = nl(
            puts(putd(puts(puts(puts(g, "  mov "), gp_arg_8(index)), ", "), off), "(%rbp)"),
        );
        spill_bytes_depth(
            nl(puts(puts(a, "  shr $8, "), gp_arg_64(index))),
            off + 1,
            end,
            index,
        );
    }
}

proof fn store_arg_depth(g: Gen, is_fp: bool, rindex: ArgRegIndex, offset: int, size: u64)
    ensures
        store_arg(g, is_fp, rindex, offset, size) is Ok ==> store_arg(
            g,
            is_fp,
            rindex,
            offset,
            size,
        )->Ok_0.0.depth == g.depth,
{
    broadcast use putb_depth;

    reveal(store_arg);
    spill_bytes_depth(g, offset, offset + size, rindex.gp);
}

proof fn store_params_depth(
    env: GenView,
    g: Gen,
    params: Seq<usize>,
    k: int,
    rindex: ArgRegIndex,
)
    ensures
        store_params(env, g, params, k, rindex) is Ok ==> store_params(
            env,
            g,
            params,
            k,
            rindex,
        )->Ok_0.depth == g.depth,
    decreases params.len() - k,
{
    if k < params.len() && params[k] < env.function.locals.len() {
        let local = env.function.locals[params[k] as int];
        let size = size_of(env.types, local.ty);
        let first = if size < 8 {
            size
        } else {
            8
        };
        reveal(store_param);
        store_arg_depth(g, ty_is_flonum(local.ty), rindex, local.offset as int, size);
        let in_fp = chunk_in_fp(env.types, local.ty, 0, 8);
        store_arg_depth(g, in_fp, rindex, local.offset as int, first);
        if let Ok((g, rindex)) = store_arg(g, in_fp, rindex, local.offset as int, first) {
            store_arg_depth(
                g,
                chunk_in_fp(env.types, local.ty, 8, 16),
                rindex,
                local.offset + 8,
                (size - 8) as u64,
            );
        }
        if let Ok((g, rindex)) = store_param(env, g, local, rindex) {
            store_params_depth(env, g, params, k + 1, rindex);
        }
    }
}

/// At the end of a function there are no slots left on the temporary stack, so
/// that a function is generated whenever its parts are.
pub proof fn functions_leave_no_slots(env: GenView, g: Gen, f: FunctionView, body: Stmt)
    requires
        f.body == Some(body),
        stmt_passes_values(env.types, body),
    ensures
        match frame(env.types, f.locals, f.param_locals) {
            Err(e) => gen_function(env, g, f) == Err::<Gen, Error>(e),
            Ok((locals, stack_size)) => {
                let inner = function_env(env, f, locals);
                let start = Gen { depth: 0, ..g };
                let a = prologue(inner, start, f.name, f.is_static, stack_size);
                match save_va_area(inner, a, f) {
                    Err(e) => gen_function(env, g, f) == Err::<Gen, Error>(e),
                    Ok(b) => match store_params(inner, b, f.param_locals, 0, no_regs()) {
                        Err(e) => gen_function(env, g, f) == Err::<Gen, Error>(e),
                        Ok(c) => match gen_stmt(inner, c, body) {
                            Err(e) => gen_function(env, g, f) == Err::<Gen, Error>(e),
                            Ok(d) => gen_function(env, g, f) == Ok::<Gen, Error>(
                                epilogue(inner, d, f.name),
                            ),
                        },
                    },
                }
            },
        },
{
    broadcast use putb_depth;

    reveal(gen_function);
    if let Ok((locals, stack_size)) = frame(env.types, f.locals, f.param_locals) {
        let inner = function_env(env, f, locals);
        let start = Gen { depth: 0, ..g };
        let a = prologue(inner, start, f.name, f.is_static, stack_size);
        reveal(prologue);
        assert(a.depth == 0);
        reveal(fill_va_area);
        if let Ok(b) = save_va_area(inner, a, f) {
            assert(b.depth == 0);
            store_params_depth(inner, b, f.param_locals, 0, no_regs());
            if let Ok(c) = store_params(inner, b, f.param_locals, 0, no_regs()) {
                stmt_keeps_depth(inner, c, body);
            }
        }
    }
}

/// The code of an expression leaves as many slots on the temporary stack as it
/// found, and never reuses a label, unless a struct or union without any bytes
/// is passed to a function.
pub proof fn expressions_keep_the_stack(env: GenView, g: Gen, node: Node)
    requires
        passes_values(env.types, node),
    ensures
        keeps_depth(g, gen_expr(env, g, node)),
{
    expr_keeps_depth(env, g, node);
}

/// The code of a statement leaves as many slots on the temporary stack as it
/// found, and never reuses a label, unless a struct or union without any bytes
/// is passed to a function.
pub proof fn statements_keep_the_stack(env: GenView, g: Gen, stmt: Stmt)
    requires
        stmt_passes_values(env.types, stmt),
    ensures
        keeps_depth(g, gen_stmt(env, g, stmt)),
{
    stmt_keeps_depth(env, g, stmt);
}

} // verus!
