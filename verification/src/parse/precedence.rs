//! How binary operators group their operands.

use vstd::prelude::*;
use crate::ast::{node_ty, BinaryOp, Node, NodeKind};
use crate::parse::construct::{new_add, new_compound_assign, new_sub};
use crate::parse::grammar::{
    and_expr, and_expr_rule, and_tail, and_tail_rule, assign, assign_op, assign_rule, at_postfix,
    binary, binary_op, binary_rule, binary_tail, binary_tail_rule, cast, cast_rule, conditional,
    conditional_rule, expr, expr_rule, operation, or_expr, or_expr_rule, or_tail, or_tail_rule,
    postfix, postfix_rule, postfix_tail, postfix_tail_rule, primary, primary_postfix,
    primary_postfix_rule, primary_rule, unary, unary_rule,
};
use crate::parse::infer::infer;
use crate::parse::place::{new_add_keeps_its_place, new_sub_keeps_its_place, same_place};
use crate::parse::state::{adv, at, cur, done, here, rem, skip_punct, Out, ParserState};
use crate::source::SourceSpan;
use crate::tokenize::{Punct, TokenKind};
use crate::types::{base_of, size_of, ty_is_arith, ty_is_integer, ArithType, Type};

verus! {

/// How loosely a binary operator binds: "*", "/", and "%" bind the tightest, and
/// "||" the loosest. Other punctuators have no rank.
pub open spec fn rank(punct: Punct) -> int {
    match punct {
        Punct::Star | Punct::Slash | Punct::Percent => 1,
        Punct::Plus | Punct::Minus => 2,
        Punct::Shl | Punct::Shr => 3,
        Punct::Lt | Punct::Le | Punct::Gt | Punct::Ge => 4,
        Punct::EqEq | Punct::Ne => 5,
        Punct::Amp => 6,
        Punct::Caret => 7,
        Punct::Pipe => 8,
        Punct::AndAnd => 9,
        Punct::OrOr => 10,
        _ => 0,
    }
}

/// The rank of the current token, 0 if it is no binary operator.
pub open spec fn rank_here(st: ParserState) -> int {
    match cur(st) {
        TokenKind::Punct(punct) => rank(punct),
        _ => 0,
    }
}

pub open spec fn node_of(kind: NodeKind, span: SourceSpan) -> Node {
    Node { kind, span, ty: None }
}

pub open spec fn applied(op: BinaryOp, lhs: Node, rhs: Node, span: SourceSpan) -> Node {
    node_of(NodeKind::Binary { op, lhs: Box::new(lhs), rhs: Box::new(rhs) }, span)
}

/// The operation that an operator stands for on its two operands. A "greater" is
/// a "less" the other way round.
pub open spec fn joined(
    st: ParserState,
    punct: Punct,
    lhs: Node,
    rhs: Node,
    span: SourceSpan,
) -> Out<Node> {
    match punct {
        Punct::Plus => new_add(st, lhs, rhs, span),
        Punct::Minus => new_sub(st, lhs, rhs, span),
        Punct::Star => done(st, applied(BinaryOp::Mul, lhs, rhs, span)),
        Punct::Slash => done(st, applied(BinaryOp::Div, lhs, rhs, span)),
        Punct::Percent => done(st, applied(BinaryOp::Mod, lhs, rhs, span)),
        Punct::Shl => done(st, applied(BinaryOp::BitLeftShift, lhs, rhs, span)),
        Punct::Shr => done(st, applied(BinaryOp::BitRightShift, lhs, rhs, span)),
        Punct::Lt => done(st, applied(BinaryOp::Lt, lhs, rhs, span)),
        Punct::Le => done(st, applied(BinaryOp::Le, lhs, rhs, span)),
        Punct::Gt => done(st, applied(BinaryOp::Lt, rhs, lhs, span)),
        Punct::Ge => done(st, applied(BinaryOp::Le, rhs, lhs, span)),
        Punct::EqEq => done(st, applied(BinaryOp::Eq, lhs, rhs, span)),
        Punct::Ne => done(st, applied(BinaryOp::Ne, lhs, rhs, span)),
        Punct::Amp => done(st, applied(BinaryOp::BitAnd, lhs, rhs, span)),
        Punct::Caret => done(st, applied(BinaryOp::BitXor, lhs, rhs, span)),
        Punct::Pipe => done(st, applied(BinaryOp::BitOr, lhs, rhs, span)),
        Punct::AndAnd => done(
            st,
            node_of(NodeKind::LogicalAnd { lhs: Box::new(lhs), rhs: Box::new(rhs) }, span),
        ),
        _ => done(
            st,
            node_of(NodeKind::LogicalOr { lhs: Box::new(lhs), rhs: Box::new(rhs) }, span),
        ),
    }
}

proof fn joining_takes_no_token(
    st: ParserState,
    punct: Punct,
    lhs: Node,
    rhs: Node,
    span: SourceSpan,
)
    ensures
        same_place(st, joined(st, punct, lhs, rhs, span).st),
{
    new_add_keeps_its_place(st, lhs, rhs, span);
    new_sub_keeps_its_place(st, lhs, rhs, span);
}

/// Whether one state follows another after some tokens of the same input.
pub open spec fn follows(before: ParserState, after: ParserState) -> bool {
    after.input == before.input && rem(after) < rem(before)
}

/// Whether an operand stands here: a cast, a unary expression, or anything
/// tighter, which takes tokens.
pub open spec fn operand_here(st: ParserState) -> bool {
    cast(st).r is Ok && follows(st, cast(st).st)
}

/// An expression whose operators have at most the given rank.
#[verifier::opaque]
pub open spec fn ranked(st: ParserState, r: int) -> Out<Node> {
    if r <= 0 {
        cast(st)
    } else if r <= 8 {
        binary(st, (r + 7) as u8)
    } else if r == 9 {
        and_expr(st)
    } else {
        or_expr(st)
    }
}

/// The operators of exactly the given rank behind an operand.
#[verifier::opaque]
pub open spec fn ranked_tail(st: ParserState, node: Node, r: int) -> Out<Node> {
    if r <= 8 {
        binary_tail(st, node, (r + 7) as u8)
    } else if r == 9 {
        and_tail(st, node)
    } else {
        or_tail(st, node)
    }
}

proof fn ranked_starts(st: ParserState, r: int)
    requires
        1 <= r <= 10,
        ranked(st, r - 1).r is Ok,
        follows(st, ranked(st, r - 1).st),
    ensures
        ranked(st, r) == ranked_tail(ranked(st, r - 1).st, ranked(st, r - 1).val(), r),
{
    reveal(ranked);
    reveal(ranked_tail);
    if r <= 8 {
        assert(binary(st, (r + 7) as u8) == binary_rule(st, (r + 7) as u8));
    } else if r == 9 {
        assert(and_expr(st) == and_expr_rule(st));
    } else {
        assert(or_expr(st) == or_expr_rule(st));
    }
}

proof fn ranked_ends(st: ParserState, node: Node, r: int)
    requires
        1 <= r <= 10,
        rank_here(st) != r,
    ensures
        ranked_tail(st, node, r) == done(st, node),
{
    reveal(ranked_tail);
    if r <= 8 {
        assert(binary_op(cur(st), (r + 7) as u8) is None);
        assert(binary_tail(st, node, (r + 7) as u8) == binary_tail_rule(st, node, (r + 7) as u8));
    } else if r == 9 {
        assert(and_tail(st, node) == and_tail_rule(st, node));
    } else {
        assert(or_tail(st, node) == or_tail_rule(st, node));
    }
}

proof fn ranked_goes_on(st: ParserState, node: Node, punct: Punct)
    requires
        at(st, punct),
        rank(punct) > 0,
        ({
            let o = ranked(adv(st), rank(punct) - 1);
            &&& o.r is Ok
            &&& follows(adv(st), o.st)
            &&& joined(o.st, punct, node, o.val(), here(st)).r is Ok
        }),
    ensures
        ({
            let o = ranked(adv(st), rank(punct) - 1);
            let j = joined(o.st, punct, node, o.val(), here(st));
            &&& ranked_tail(st, node, rank(punct)) == ranked_tail(j.st, j.val(), rank(punct))
            &&& follows(st, j.st)
            &&& same_place(o.st, j.st)
        }),
{
    let r = rank(punct);
    let o = ranked(adv(st), r - 1);
    let j = joined(o.st, punct, node, o.val(), here(st));
    joining_takes_no_token(o.st, punct, node, o.val(), here(st));
    assert(rem(adv(st)) < rem(st));
    reveal(ranked);
    reveal(ranked_tail);
    if r <= 8 {
        let level = (r + 7) as u8;
        assert(binary_tail(st, node, level) == binary_tail_rule(st, node, level));
        assert(binary_op(cur(st), level) is Some);
        let (op, swapped) = binary_op(cur(st), level).unwrap();
        assert(j == if swapped {
            operation(o.st, op, o.val(), node, here(st))
        } else {
            operation(o.st, op, node, o.val(), here(st))
        });
    } else if r == 9 {
        assert(and_tail(st, node) == and_tail_rule(st, node));
    } else {
        assert(or_tail(st, node) == or_tail_rule(st, node));
    }
}

/// What stands between operators of a rank is not split by tighter ones.
proof fn ranks_without_operators(st: ParserState, from: int, to: int)
    requires
        0 <= from <= to <= 10,
        ranked(st, from).r is Ok,
        follows(st, ranked(st, from).st),
        !(from < rank_here(ranked(st, from).st) <= to),
    ensures
        ranked(st, to) == ranked(st, from),
    decreases to - from,
{
    if from < to {
        ranks_without_operators(st, from, to - 1);
        ranked_starts(st, to);
        let o = ranked(st, from);
        ranked_ends(o.st, o.val(), to);
    }
}

proof fn operands_are_ranked(st: ParserState, to: int)
    requires
        operand_here(st),
        0 <= to <= 10,
        !(0 < rank_here(cast(st).st) <= to),
    ensures
        ranked(st, to) == cast(st),
{
    reveal(ranked);
    ranks_without_operators(st, 0, to);
}

/// One operator between two operands, with none of its rank or a tighter one
/// behind them.
proof fn pair_is_joined(st: ParserState, punct: Punct, to: int)
    requires
        operand_here(st),
        at(cast(st).st, punct),
        0 < rank(punct) <= to <= 10,
        operand_here(adv(cast(st).st)),
        !(0 < rank_here(cast(adv(cast(st).st)).st) <= to),
        ({
            let a = cast(st);
            let b = cast(adv(a.st));
            joined(b.st, punct, a.val(), b.val(), here(a.st)).r is Ok
        }),
    ensures
        ({
            let a = cast(st);
            let b = cast(adv(a.st));
            ranked(st, to) == joined(b.st, punct, a.val(), b.val(), here(a.st))
        }),
{
    let a = cast(st);
    let b = cast(adv(a.st));
    let r = rank(punct);
    let j = joined(b.st, punct, a.val(), b.val(), here(a.st));
    operands_are_ranked(st, r - 1);
    operands_are_ranked(adv(a.st), r - 1);
    ranked_starts(st, r);
    ranked_goes_on(a.st, a.val(), punct);
    joining_takes_no_token(b.st, punct, a.val(), b.val(), here(a.st));
    ranked_ends(j.st, j.val(), r);
    assert(ranked(st, r) == j);
    ranks_without_operators(st, r, to);
}

/// Of two operators between three operands, the one that binds tighter is applied
/// first, and the left one if they bind alike. The ranks decide that, and nothing
/// else.
pub proof fn operators_group_by_rank(st: ParserState, first: Punct, second: Punct)
    requires
        rank(first) > 0,
        rank(second) > 0,
        operand_here(st),
        at(cast(st).st, first),
        operand_here(adv(cast(st).st)),
        at(cast(adv(cast(st).st)).st, second),
    ensures
        ({
            let a = cast(st);
            let b = cast(adv(a.st));
            if rank(first) <= rank(second) {
                let l = joined(b.st, first, a.val(), b.val(), here(a.st));
                let c = cast(adv(l.st));
                let whole = joined(c.st, second, l.val(), c.val(), here(l.st));
                l.r is Ok && operand_here(adv(l.st)) && rank_here(c.st) == 0 && whole.r is Ok
                    ==> or_expr(st) == whole
            } else {
                let c = cast(adv(b.st));
                let r = joined(c.st, second, b.val(), c.val(), here(b.st));
                let whole = joined(r.st, first, a.val(), r.val(), here(a.st));
                operand_here(adv(b.st)) && rank_here(c.st) == 0 && r.r is Ok && whole.r is Ok
                    ==> or_expr(st) == whole
            }
        }),
{
    let a = cast(st);
    let b = cast(adv(a.st));
    let p = rank(first);
    let q = rank(second);
    assert(ranked(st, 10) == or_expr(st)) by {
        reveal(ranked);
    }
    if p <= q {
        let l = joined(b.st, first, a.val(), b.val(), here(a.st));
        let c = cast(adv(l.st));
        let whole = joined(c.st, second, l.val(), c.val(), here(l.st));
        if l.r is Ok && operand_here(adv(l.st)) && rank_here(c.st) == 0 && whole.r is Ok {
            joining_takes_no_token(b.st, first, a.val(), b.val(), here(a.st));
            joining_takes_no_token(c.st, second, l.val(), c.val(), here(l.st));
            operands_are_ranked(st, p - 1);
            operands_are_ranked(adv(a.st), p - 1);
            ranked_starts(st, p);
            ranked_goes_on(a.st, a.val(), first);
            assert(ranked(st, p) == ranked_tail(l.st, l.val(), p));
            operands_are_ranked(adv(l.st), q - 1);
            ranked_goes_on(l.st, l.val(), second);
            ranked_ends(whole.st, whole.val(), q);
            if p < q {
                ranked_ends(l.st, l.val(), p);
                assert(ranked(st, p) == l);
                ranks_without_operators(st, p, q - 1);
                ranked_starts(st, q);
            }
            assert(ranked(st, q) == whole);
            ranks_without_operators(st, q, 10);
        }
    } else {
        let c = cast(adv(b.st));
        let r = joined(c.st, second, b.val(), c.val(), here(b.st));
        let whole = joined(r.st, first, a.val(), r.val(), here(a.st));
        if operand_here(adv(b.st)) && rank_here(c.st) == 0 && r.r is Ok && whole.r is Ok {
            joining_takes_no_token(c.st, second, b.val(), c.val(), here(b.st));
            joining_takes_no_token(r.st, first, a.val(), r.val(), here(a.st));
            pair_is_joined(adv(a.st), second, p - 1);
            operands_are_ranked(st, p - 1);
            ranked_starts(st, p);
            ranked_goes_on(a.st, a.val(), first);
            ranked_ends(whole.st, whole.val(), p);
            assert(ranked(st, p) == whole);
            ranks_without_operators(st, p, 10);
        }
    }
}

/// One operator between two operands stands for its operation on them.
pub proof fn operators_join_their_operands(st: ParserState, punct: Punct)
    requires
        rank(punct) > 0,
        operand_here(st),
        at(cast(st).st, punct),
        operand_here(adv(cast(st).st)),
    ensures
        ({
            let a = cast(st);
            let b = cast(adv(a.st));
            let whole = joined(b.st, punct, a.val(), b.val(), here(a.st));
            rank_here(b.st) == 0 && whole.r is Ok ==> or_expr(st) == whole
        }),
{
    let a = cast(st);
    let b = cast(adv(a.st));
    let whole = joined(b.st, punct, a.val(), b.val(), here(a.st));
    if rank_here(b.st) == 0 && whole.r is Ok {
        pair_is_joined(st, punct, 10);
        reveal(ranked);
    }
}

/// A number is an operand, unless a postfix operator follows it.
pub proof fn numbers_are_operands(st: ParserState, value: u64, ty: Type)
    requires
        cur(st) == TokenKind::Num(value, ty),
        !at_postfix(adv(st)),
    ensures
        operand_here(st),
        cast(st) == done(
            adv(st),
            Node { kind: NodeKind::Num(value), span: here(st), ty: Some(ty) },
        ),
{
    assert(cast(st) == cast_rule(st));
    assert(unary(st) == unary_rule(st));
    assert(primary(st) == primary_rule(st));
    assert(rem(adv(st)) < rem(st));
    if !st.input.preprocess {
        assert(postfix(st) == postfix_rule(st));
        assert(primary_postfix(st) == primary_postfix_rule(st));
        let o = primary(st);
        assert(postfix_tail(o.st, o.val()) == postfix_tail_rule(o.st, o.val()));
    }
}

/// The operation of a prefix operator.
pub open spec fn prefixed(punct: Punct, node: Node) -> NodeKind {
    match punct {
        Punct::Minus => NodeKind::Neg(Box::new(node)),
        Punct::Not => NodeKind::Not(Box::new(node)),
        Punct::Tilde => NodeKind::BitNot(Box::new(node)),
        Punct::Amp => NodeKind::Addr(Box::new(node)),
        Punct::Star => NodeKind::Deref(Box::new(node)),
        _ => node.kind,
    }
}

/// A prefix operator applies to all of the operand behind it, before any binary
/// operator does, and a "+" leaves it as it is.
pub proof fn prefix_operators_bind_tightest(st: ParserState, punct: Punct)
    requires
        at(st, punct),
        punct == Punct::Plus || punct == Punct::Minus || punct == Punct::Not || punct
            == Punct::Tilde || punct == Punct::Amp || punct == Punct::Star,
        !st.input.preprocess || punct != Punct::Amp && punct != Punct::Star,
        cast(adv(st)).r is Ok,
    ensures
        ({
            let o = cast(adv(st));
            if punct == Punct::Plus {
                cast(st) == o
            } else {
                cast(st) == done(o.st, node_of(prefixed(punct, o.val()), here(st)))
            }
        }),
{
    assert(cast(st) == cast_rule(st));
    assert(unary(st) == unary_rule(st));
}

/// The binary operator in a compound assignment.
pub open spec fn operator_of(punct: Punct) -> Option<Punct> {
    match punct {
        Punct::PlusEq => Some(Punct::Plus),
        Punct::MinusEq => Some(Punct::Minus),
        Punct::StarEq => Some(Punct::Star),
        Punct::SlashEq => Some(Punct::Slash),
        Punct::PercentEq => Some(Punct::Percent),
        Punct::AmpEq => Some(Punct::Amp),
        Punct::PipeEq => Some(Punct::Pipe),
        Punct::CaretEq => Some(Punct::Caret),
        Punct::ShlEq => Some(Punct::Shl),
        Punct::ShrEq => Some(Punct::Shr),
        _ => None,
    }
}

/// An assignment stores the whole assignment to its right; a compound one stores
/// what the operator in it gives for both sides.
pub proof fn assignments_group_to_the_right(st: ParserState, punct: Punct)
    requires
        conditional(st).r is Ok,
        follows(st, conditional(st).st),
        at(conditional(st).st, punct),
        assign(adv(conditional(st).st)).r is Ok,
    ensures
        ({
            let o = conditional(st);
            let r = assign(adv(o.st));
            let span = here(o.st);
            &&& punct == Punct::Assign ==> assign(st) == done(
                r.st,
                node_of(
                    NodeKind::Assign { lhs: Box::new(o.val()), rhs: Box::new(r.val()) },
                    span,
                ),
            )
            &&& operator_of(punct) is Some ==> {
                let b = joined(r.st, operator_of(punct).unwrap(), o.val(), r.val(), span);
                b.r is Ok ==> assign(st) == new_compound_assign(b.st, b.val(), span)
            }
        }),
{
    let o = conditional(st);
    let r = assign(adv(o.st));
    assert(assign(st) == assign_rule(st));
    if let Some(operator) = operator_of(punct) {
        assert(assign_op(cur(o.st)) is Some);
        let op = assign_op(cur(o.st)).unwrap();
        assert(operation(r.st, op, o.val(), r.val(), here(o.st)) == joined(
            r.st,
            operator,
            o.val(),
            r.val(),
            here(o.st),
        ));
    }
}

/// Between "?" and ":" stands what is taken if the condition holds, and behind ":"
/// what is taken otherwise, up to the end of another conditional.
pub proof fn conditionals_group_to_the_right(st: ParserState)
    requires
        or_expr(st).r is Ok,
        follows(st, or_expr(st).st),
        at(or_expr(st).st, Punct::Question),
        expr(adv(or_expr(st).st)).r is Ok,
        follows(st, expr(adv(or_expr(st).st)).st),
        at(expr(adv(or_expr(st).st)).st, Punct::Colon),
        conditional(adv(expr(adv(or_expr(st).st)).st)).r is Ok,
    ensures
        ({
            let c = or_expr(st);
            let t = expr(adv(c.st));
            let e = conditional(adv(t.st));
            conditional(st) == done(
                e.st,
                node_of(
                    NodeKind::Conditional {
                        cond: Box::new(c.val()),
                        then_expr: Box::new(t.val()),
                        else_expr: Box::new(e.val()),
                    },
                    here(c.st),
                ),
            )
        }),
{
    reveal(skip_punct);
    assert(conditional(st) == conditional_rule(st));
}

/// A "," evaluates what is left of it first, and has the value of what is right of
/// it.
pub proof fn commas_have_the_last_value(st: ParserState)
    requires
        assign(st).r is Ok,
        follows(st, assign(st).st),
        at(assign(st).st, Punct::Comma),
        expr(adv(assign(st).st)).r is Ok,
    ensures
        ({
            let l = assign(st);
            let r = expr(adv(l.st));
            expr(st) == done(
                r.st,
                node_of(
                    NodeKind::Comma { lhs: Box::new(l.val()), rhs: Box::new(r.val()) },
                    here(l.st),
                ),
            )
        }),
{
    assert(expr(st) == expr_rule(st));
}

/// A number of elements as a number of bytes.
pub open spec fn in_bytes(st: ParserState, count: Node, base: Type, span: SourceSpan) -> Node {
    applied(
        BinaryOp::Mul,
        count,
        Node {
            kind: NodeKind::Num(size_of(st.types, base)),
            span,
            ty: Some(Type::Arith(ArithType::Long)),
        },
        span,
    )
}

/// Adding an integer to a pointer, from either side, moves it by as many elements as
/// the integer says, and so does subtracting one, backwards; the difference of two
/// pointers counts elements; and two numbers are added and subtracted as they are.
pub proof fn pointers_move_by_elements(st: ParserState, lhs: Node, rhs: Node, span: SourceSpan)
    requires
        infer(st, lhs).r is Ok,
        infer(infer(st, lhs).st, rhs).r is Ok,
    ensures
        ({
            let l = infer(st, lhs);
            let r = infer(l.st, rhs);
            let a = node_ty(l.val());
            let b = node_ty(r.val());
            let add = new_add(st, lhs, rhs, span);
            let sub = new_sub(st, lhs, rhs, span);
            let p = base_of(r.st.types, a);
            let q = base_of(r.st.types, b);
            &&& ty_is_arith(a) && ty_is_arith(b) ==> {
                &&& add == done(r.st, applied(BinaryOp::Add, l.val(), r.val(), span))
                &&& sub == done(r.st, applied(BinaryOp::Sub, l.val(), r.val(), span))
            }
            &&& !ty_is_arith(a) && p is Some && q is None ==> add == done(
                r.st,
                applied(
                    BinaryOp::Add,
                    l.val(),
                    in_bytes(r.st, r.val(), p.unwrap(), span),
                    span,
                ),
            )
            &&& !ty_is_arith(b) && p is None && q is Some ==> add == done(
                r.st,
                applied(
                    BinaryOp::Add,
                    r.val(),
                    in_bytes(r.st, l.val(), q.unwrap(), span),
                    span,
                ),
            )
            &&& !ty_is_arith(a) && p is Some && ty_is_integer(b) ==> sub == done(
                r.st,
                applied(
                    BinaryOp::Sub,
                    l.val(),
                    in_bytes(r.st, r.val(), p.unwrap(), span),
                    span,
                ),
            )
            &&& !ty_is_arith(a) && p is Some && !ty_is_integer(b) && q is Some ==> sub == done(
                r.st,
                applied(
                    BinaryOp::Div,
                    Node {
                        ty: Some(Type::Arith(ArithType::Long)),
                        ..applied(BinaryOp::Sub, l.val(), r.val(), span)
                    },
                    Node {
                        kind: NodeKind::Num(size_of(r.st.types, p.unwrap())),
                        span,
                        ty: Some(Type::Arith(ArithType::Long)),
                    },
                    span,
                ),
            )
        }),
{
    reveal(new_add);
    reveal(new_sub);
}

} // verus!
