//! What constant expressions are worth.

use vstd::prelude::*;
use vstd::arithmetic::power2::pow2;
use crate::ast::{node_ty, BinaryOp, Node, NodeKind};
use crate::constexpr::ConstValue;
use crate::constexpr::numbers::{
    arithmetic_agrees_with_the_numbers, casts_keep_the_number, comparisons_agree_with_the_numbers,
    division_agrees_with_the_numbers, has_number, is_whole, made_constants_stand_for_their_bits,
    shifts_agree_with_the_numbers, stands_for,
};
use crate::error::{Error, Message};
use crate::parse::eval::{eval_kind, eval_typed, truth};
use crate::parse::state::ParserState;
use crate::types::{const_of, ArithType, ConstType};

verus! {

/// Whether an expression is a constant of an integer type, and worth a number.
pub open spec fn is_worth(st: ParserState, node: Node, ty: ConstType, n: int) -> bool {
    &&& const_of(st.types, node_ty(node)) == Some(ty)
    &&& has_number(ty, n)
    &&& eval_typed(st, node) is Ok
    &&& stands_for(eval_typed(st, node)->Ok_0, n, ty)
}

/// Whether an expression has the compile-time type of an integer.
pub open spec fn has_type(st: ParserState, node: Node, ty: ConstType) -> bool {
    const_of(st.types, node_ty(node)) == Some(ty) && is_whole(ty)
}

/// Whether an expression gives a number, as far as its type can tell.
pub open spec fn gives(st: ParserState, node: Node, ty: ConstType, n: int) -> bool {
    eval_typed(st, node) is Ok && stands_for(eval_typed(st, node)->Ok_0, n, ty)
}

pub open spec fn as_number(truth: bool) -> int {
    if truth {
        1
    } else {
        0
    }
}

/// A number is worth what it says, and so is the last of two expressions.
pub proof fn numbers_and_commas_are_worth(st: ParserState, node: Node, ty: ConstType)
    requires
        has_type(st, node, ty),
    ensures
        node.kind matches NodeKind::Num(value) ==> gives(st, node, ty, value as int),
        node.kind matches NodeKind::Comma { lhs, rhs } ==> eval_typed(st, node) == eval_typed(
            st,
            *rhs,
        ),
{
    if let NodeKind::Num(value) = node.kind {
        made_constants_stand_for_their_bits(value, ty);
    }
}

/// The operators on one constant negate it, complement it, tell whether it is zero,
/// or convert it.
pub proof fn unary_constants_are_worth(
    st: ParserState,
    node: Node,
    expr: Node,
    ty: ConstType,
    of: ConstType,
    a: int,
)
    requires
        has_type(st, node, ty),
        is_worth(st, expr, of, a),
    ensures
        node.kind == NodeKind::Neg(Box::new(expr)) && of == ty ==> gives(st, node, ty, -a),
        node.kind == NodeKind::BitNot(Box::new(expr)) && of == ty ==> gives(st, node, ty, -a - 1),
        node.kind == NodeKind::Not(Box::new(expr)) ==> gives(st, node, ty, as_number(a == 0)),
        node.kind == NodeKind::Cast(Box::new(expr)) ==> gives(
            st,
            node,
            ty,
            if ty == ConstType::Arith(ArithType::Bool) {
                as_number(a != 0)
            } else {
                a
            },
        ),
{
    let fp = st.input.floats;
    let x = eval_typed(st, expr)->Ok_0;
    if of == ty {
        arithmetic_agrees_with_the_numbers(x, x, a, a, ty, fp);
    }
    casts_keep_the_number(x, a, of, ty, fp);
    assert(eval_typed(st, node) == eval_kind(st, node, ty));
}

/// The operators on two constants of a type give sums, differences, and products;
/// quotients toward zero and their rests, or an error if the divisor is zero;
/// shifted numbers; and how the numbers compare.
pub proof fn binary_constants_are_worth(
    st: ParserState,
    node: Node,
    op: BinaryOp,
    lhs: Node,
    rhs: Node,
    ty: ConstType,
    of: ConstType,
    a: int,
    b: int,
)
    requires
        node.kind == (NodeKind::Binary { op, lhs: Box::new(lhs), rhs: Box::new(rhs) }),
        has_type(st, node, ty),
        is_worth(st, lhs, of, a),
        is_worth(st, rhs, of, b),
    ensures
        of == ty ==> match op {
            BinaryOp::Add => gives(st, node, ty, a + b),
            BinaryOp::Sub => gives(st, node, ty, a - b),
            BinaryOp::Mul => gives(st, node, ty, a * b),
            BinaryOp::Div | BinaryOp::Mod => b == 0 ==> eval_typed(st, node) == Err::<
                ConstValue,
                Error,
            >(Error::Terminate(node.span, Message::DivisionByZero)),
            BinaryOp::BitLeftShift => 0 <= b < 64 ==> gives(st, node, ty, a * pow2(b as nat)),
            BinaryOp::BitRightShift => 0 <= b < 64 ==> gives(
                st,
                node,
                ty,
                a / (pow2(b as nat) as int),
            ),
            _ => true,
        },
        of == ty && b != 0 && op == BinaryOp::Div ==> exists|q: int, rest: int|
            #[trigger] gives(
                st,
                node,
                ty,
                q,
            ) && #[trigger] is_rest(rest, a, b) && a == q * b + rest,
        of == ty && b != 0 && op == BinaryOp::Mod ==> exists|q: int, rest: int|
            #[trigger] gives(st, node, ty, rest) && is_rest(rest, a, b) && a == #[trigger] (q * b)
                + rest,
        op == BinaryOp::Eq ==> gives(st, node, ty, as_number(a == b)),
        op == BinaryOp::Ne ==> gives(st, node, ty, as_number(a != b)),
        op == BinaryOp::Lt ==> gives(st, node, ty, as_number(a < b)),
        op == BinaryOp::Le ==> gives(st, node, ty, as_number(a <= b)),
{
    let fp = st.input.floats;
    let x = eval_typed(st, lhs)->Ok_0;
    let y = eval_typed(st, rhs)->Ok_0;
    assert(eval_typed(st, node) == eval_kind(st, node, ty));
    comparisons_agree_with_the_numbers(x, y, a, b, of, ty, fp);
    if of == ty {
        arithmetic_agrees_with_the_numbers(x, y, a, b, ty, fp);
        if 0 <= b < 64 {
            shifts_agree_with_the_numbers(x, y, a, b, ty, ty);
        }
        division_agrees_with_the_numbers(x, y, a, b, ty, fp);
        if b != 0 {
            let q = x.spec_div(y, ty, fp)->Ok_0.unwrap();
            let r = x.spec_rem(y, ty).unwrap();
            let (quot, rest) = choose|quot: int, rest: int|
                {
                    &&& #[trigger] stands_for(q, quot, ty)
                    &&& #[trigger] stands_for(r, rest, ty)
                    &&& a == quot * b + rest
                    &&& -b < rest < b || b < rest < -b
                    &&& rest < 0 ==> a < 0
                    &&& rest > 0 ==> a > 0
                };
            assert(is_rest(rest, a, b));
            if op == BinaryOp::Div {
                assert(gives(st, node, ty, quot));
            }
            if op == BinaryOp::Mod {
                assert(gives(st, node, ty, rest));
                assert(a == (quot * b) + rest);
            }
        }
    }
}

/// Whether a remainder is that of a division toward zero.
pub open spec fn is_rest(rest: int, a: int, b: int) -> bool {
    &&& -b < rest < b || b < rest < -b
    &&& rest < 0 ==> a < 0
    &&& rest > 0 ==> a > 0
}

/// A conditional constant is worth what stands behind "?" if its condition is not
/// zero, and else what stands behind ":", whatever the other one is.
pub proof fn conditional_constants_choose(
    st: ParserState,
    node: Node,
    cond: Node,
    then_expr: Node,
    else_expr: Node,
    ty: ConstType,
    of: ConstType,
    a: int,
)
    requires
        node.kind == (NodeKind::Conditional {
            cond: Box::new(cond),
            then_expr: Box::new(then_expr),
            else_expr: Box::new(else_expr),
        }),
        has_type(st, node, ty),
        is_worth(st, cond, of, a),
    ensures
        eval_typed(st, node) == eval_typed(
            st,
            if a != 0 {
                then_expr
            } else {
                else_expr
            },
        ),
{
    assert(eval_typed(st, node) == eval_kind(st, node, ty));
    casts_keep_the_number(eval_typed(st, cond)->Ok_0, a, of, of, st.input.floats);
    assert(truth(st, cond) == Ok::<bool, Error>(a != 0));
}

/// "&&" and "||" of constants look at the right one only where the left one does
/// not decide, and are worth 1 or 0.
pub proof fn logical_constants_decide(
    st: ParserState,
    node: Node,
    lhs: Node,
    rhs: Node,
    ty: ConstType,
    of: ConstType,
    by_type: ConstType,
    a: int,
    b: int,
)
    requires
        node.kind == (NodeKind::LogicalAnd { lhs: Box::new(lhs), rhs: Box::new(rhs) }) || node.kind
            == (NodeKind::LogicalOr { lhs: Box::new(lhs), rhs: Box::new(rhs) }),
        has_type(st, node, ty),
        is_worth(st, lhs, of, a),
    ensures
        node.kind is LogicalAnd && a == 0 ==> gives(st, node, ty, 0),
        node.kind is LogicalOr && a != 0 ==> gives(st, node, ty, 1),
        (a == 0) != (node.kind is LogicalAnd) && is_worth(st, rhs, by_type, b) ==> gives(
            st,
            node,
            ty,
            as_number(b != 0),
        ),
{
    assert(eval_typed(st, node) == eval_kind(st, node, ty));
    let fp = st.input.floats;
    casts_keep_the_number(eval_typed(st, lhs)->Ok_0, a, of, of, fp);
    assert(truth(st, lhs) == Ok::<bool, Error>(a != 0));
    made_constants_stand_for_their_bits(0, ty);
    if is_worth(st, rhs, by_type, b) {
        casts_keep_the_number(eval_typed(st, rhs)->Ok_0, b, by_type, by_type, fp);
        assert(truth(st, rhs) == Ok::<bool, Error>(b != 0));
    }
}

} // verus!
