//! Giving expressions their types takes no token.

use vstd::prelude::*;
use crate::ast::{BinaryOp, Node, NodeKind, NodeList, Stmt, StmtKind, StmtList};
use crate::parse::construct::{new_add, new_sub};
use crate::parse::infer::{
    infer, infer_binary, infer_list, infer_opt, infer_opt_stmt, infer_stmt, infer_stmt_kind,
    infer_stmts, infer_untyped,
};
use crate::parse::state::{Out, ParserState};
use crate::source::SourceSpan;

verus! {

/// Whether two states stand at the same token of the same input.
pub open spec fn same_place(before: ParserState, after: ParserState) -> bool {
    after.input == before.input && after.pos == before.pos
}

/// A step that takes no token.
pub open spec fn keeps_its_place<T>(before: ParserState, o: Out<T>) -> bool {
    same_place(before, o.st)
}

pub proof fn infer_binary_keeps_its_place(
    st: ParserState,
    node: Node,
    op: BinaryOp,
    lhs: Node,
    rhs: Node,
)
    ensures
        keeps_its_place(st, infer_binary(st, node, op, lhs, rhs)),
{
    reveal(infer_binary);
}

pub proof fn infer_keeps_its_place(st: ParserState, node: Node)
    ensures
        keeps_its_place(st, infer(st, node)),
    decreases node, 2int,
{
    reveal(infer);
    if node.ty is None {
        infer_untyped_keeps_its_place(st, node);
    }
}

proof fn call_keeps_its_place(st: ParserState, node: Node)
    requires
        node.kind is FuncCall,
    ensures
        keeps_its_place(st, infer_untyped(st, node)),
    decreases node, 0int,
{
    reveal(infer);
    reveal(infer_list);
    if let NodeKind::FuncCall { callee, args, .. } = node.kind {
        infer_keeps_its_place(st, *callee);
        infer_list_keeps_its_place(infer(st, *callee).st, args);
    }
}

proof fn unary_keeps_its_place(st: ParserState, node: Node)
    requires
        node.kind is Addr || node.kind is Deref || node.kind is Neg || node.kind is Not || node.kind is BitNot,
    ensures
        keeps_its_place(st, infer_untyped(st, node)),
    decreases node, 0int,
{
    reveal(infer);
    match node.kind {
        NodeKind::Addr(expr) => {
            infer_keeps_its_place(st, *expr);
        },
        NodeKind::Deref(expr) => {
            infer_keeps_its_place(st, *expr);
        },
        NodeKind::Neg(expr) => {
            infer_keeps_its_place(st, *expr);
        },
        NodeKind::Not(expr) => {
            infer_keeps_its_place(st, *expr);
        },
        NodeKind::BitNot(expr) => {
            infer_keeps_its_place(st, *expr);
        },
        _ => {},
    }
}

proof fn assign_keeps_its_place(st: ParserState, node: Node)
    requires
        node.kind is Assign || node.kind is Comma,
    ensures
        keeps_its_place(st, infer_untyped(st, node)),
    decreases node, 0int,
{
    reveal(infer);
    match node.kind {
        NodeKind::Assign { lhs, rhs } => {
            infer_keeps_its_place(st, *lhs);
            let l = infer(st, *lhs);
            if l.r is Ok {
                infer_keeps_its_place(l.st, *rhs);
            }
        },
        NodeKind::Comma { lhs, rhs } => {
            infer_keeps_its_place(st, *lhs);
            let l = infer(st, *lhs);
            if l.r is Ok {
                infer_keeps_its_place(l.st, *rhs);
            }
        },
        _ => {},
    }
}

proof fn logical_keeps_its_place(st: ParserState, node: Node)
    requires
        node.kind is LogicalAnd || node.kind is LogicalOr,
    ensures
        keeps_its_place(st, infer_untyped(st, node)),
    decreases node, 0int,
{
    reveal(infer);
    match node.kind {
        NodeKind::LogicalAnd { lhs, rhs } => {
            infer_keeps_its_place(st, *lhs);
            let l = infer(st, *lhs);
            if l.r is Ok {
                infer_keeps_its_place(l.st, *rhs);
            }
        },
        NodeKind::LogicalOr { lhs, rhs } => {
            infer_keeps_its_place(st, *lhs);
            let l = infer(st, *lhs);
            if l.r is Ok {
                infer_keeps_its_place(l.st, *rhs);
            }
        },
        _ => {},
    }
}

proof fn binary_keeps_its_place(st: ParserState, node: Node)
    requires
        node.kind is Binary,
    ensures
        keeps_its_place(st, infer_untyped(st, node)),
    decreases node, 0int,
{
    reveal(infer);
    if let NodeKind::Binary { op, lhs, rhs } = node.kind {
        infer_keeps_its_place(st, *lhs);
        let l = infer(st, *lhs);
        if l.r is Ok {
            infer_keeps_its_place(l.st, *rhs);
            let r = infer(l.st, *rhs);
            if r.r is Ok {
                infer_binary_keeps_its_place(r.st, node, op, l.val(), r.val());
            }
        }
    }
}

proof fn conditional_keeps_its_place(st: ParserState, node: Node)
    requires
        node.kind is Conditional,
    ensures
        keeps_its_place(st, infer_untyped(st, node)),
    decreases node, 0int,
{
    reveal(infer);
    if let NodeKind::Conditional { cond, then_expr, else_expr } = node.kind {
        infer_keeps_its_place(st, *cond);
        let c = infer(st, *cond);
        if c.r is Ok {
            infer_keeps_its_place(c.st, *then_expr);
            let t = infer(c.st, *then_expr);
            if t.r is Ok {
                infer_keeps_its_place(t.st, *else_expr);
            }
        }
    }
}

proof fn stmt_expr_keeps_its_place(st: ParserState, node: Node)
    requires
        node.kind is StmtExpr,
    ensures
        keeps_its_place(st, infer_untyped(st, node)),
    decreases node, 0int,
{
    reveal(infer_stmts);
    if let NodeKind::StmtExpr(body) = node.kind {
        infer_stmts_keeps_its_place(st, body);
    }
}

pub proof fn infer_untyped_keeps_its_place(st: ParserState, node: Node)
    ensures
        keeps_its_place(st, infer_untyped(st, node)),
    decreases node, 1int,
{
    match node.kind {
        NodeKind::FuncCall { .. } => call_keeps_its_place(st, node),
        NodeKind::Addr(_) | NodeKind::Deref(_) | NodeKind::Neg(_) | NodeKind::Not(_)
        | NodeKind::BitNot(_) => unary_keeps_its_place(st, node),
        NodeKind::Assign { .. } | NodeKind::Comma { .. } => assign_keeps_its_place(st, node),
        NodeKind::LogicalAnd { .. } | NodeKind::LogicalOr { .. } => logical_keeps_its_place(
            st,
            node,
        ),
        NodeKind::Binary { .. } => binary_keeps_its_place(st, node),
        NodeKind::Conditional { .. } => conditional_keeps_its_place(st, node),
        NodeKind::StmtExpr(_) => stmt_expr_keeps_its_place(st, node),
        NodeKind::Entity(_) | NodeKind::Member { .. } | NodeKind::Num(_) | NodeKind::Flonum(_)
        | NodeKind::Cast(_) | NodeKind::Dummy => {},
    }
}

pub proof fn infer_list_keeps_its_place(st: ParserState, nodes: NodeList)
    ensures
        keeps_its_place(st, infer_list(st, nodes)),
    decreases nodes, 2int,
{
    reveal(infer);
    reveal(infer_list);
    if let NodeList::Cons(head, tail) = nodes {
        infer_keeps_its_place(st, *head);
        let h = infer(st, *head);
        if h.r is Ok {
            infer_list_keeps_its_place(h.st, *tail);
        }
    }
}

pub proof fn infer_stmts_keeps_its_place(st: ParserState, stmts: StmtList)
    ensures
        keeps_its_place(st, infer_stmts(st, stmts)),
    decreases stmts, 2int,
{
    reveal(infer_stmts);
    reveal(infer_stmt);
    if let StmtList::Cons(head, tail) = stmts {
        infer_stmt_keeps_its_place(st, *head);
        let h = infer_stmt(st, *head);
        if h.r is Ok {
            infer_stmts_keeps_its_place(h.st, *tail);
        }
    }
}

pub proof fn infer_opt_keeps_its_place(st: ParserState, node: Option<Node>)
    ensures
        keeps_its_place(st, infer_opt(st, node)),
    decreases node, 1int,
{
    reveal(infer);
    reveal(infer_opt);
    if let Some(node) = node {
        infer_keeps_its_place(st, node);
    }
}

pub proof fn infer_opt_stmt_keeps_its_place(st: ParserState, stmt: Option<Box<Stmt>>)
    ensures
        keeps_its_place(st, infer_opt_stmt(st, stmt)),
    decreases stmt, 2int,
{
    reveal(infer_opt_stmt);
    reveal(infer_stmt);
    if let Some(stmt) = stmt {
        infer_stmt_keeps_its_place(st, *stmt);
    }
}

pub proof fn infer_stmt_keeps_its_place(st: ParserState, stmt: Stmt)
    ensures
        keeps_its_place(st, infer_stmt(st, stmt)),
    decreases stmt, 2int,
{
    reveal(infer_stmt);
    infer_stmt_kind_keeps_its_place(st, stmt.kind);
}

pub proof fn infer_stmt_kind_keeps_its_place(st: ParserState, kind: StmtKind)
    ensures
        keeps_its_place(st, infer_stmt_kind(st, kind)),
    decreases kind, 2int,
{
    reveal(infer);
    reveal(infer_stmts);
    reveal(infer_opt);
    reveal(infer_opt_stmt);
    reveal(infer_stmt);
    match kind {
        StmtKind::Expr(expr) => {
            infer_keeps_its_place(st, expr);
        },
        StmtKind::Return(expr) => {
            infer_opt_keeps_its_place(st, expr);
        },
        StmtKind::Loop { init, cond, inc, body, do_while, brk_label, cont_label } => {
            infer_opt_stmt_keeps_its_place(st, init);
            let i = infer_opt_stmt(st, init);
            if i.r is Ok {
                infer_opt_keeps_its_place(i.st, cond);
                let c = infer_opt(i.st, cond);
                if c.r is Ok {
                    infer_opt_keeps_its_place(c.st, inc);
                    let n = infer_opt(c.st, inc);
                    if n.r is Ok {
                        infer_stmt_keeps_its_place(n.st, *body);
                    }
                }
            }
        },
        StmtKind::If { cond, then_branch, else_branch } => {
            infer_keeps_its_place(st, cond);
            let c = infer(st, cond);
            if c.r is Ok {
                infer_stmt_keeps_its_place(c.st, *then_branch);
                let t = infer_stmt(c.st, *then_branch);
                if t.r is Ok {
                    infer_opt_stmt_keeps_its_place(t.st, else_branch);
                }
            }
        },
        StmtKind::Switch { cond, body, cases, default, brk_label } => {
            infer_keeps_its_place(st, cond);
            let c = infer(st, cond);
            if c.r is Ok {
                infer_stmt_keeps_its_place(c.st, *body);
            }
        },
        StmtKind::Block(stmts) => {
            infer_stmts_keeps_its_place(st, stmts);
        },
        StmtKind::Label { label, body, name } => {
            infer_stmt_keeps_its_place(st, *body);
        },
        StmtKind::Jump { .. } | StmtKind::MemzeroLocal(_) => {},
    }
}

pub proof fn new_add_keeps_its_place(st: ParserState, lhs: Node, rhs: Node, span: SourceSpan)
    ensures
        keeps_its_place(st, new_add(st, lhs, rhs, span)),
{
    reveal(new_add);
    infer_keeps_its_place(st, lhs);
    let l = infer(st, lhs);
    if l.r is Ok {
        infer_keeps_its_place(l.st, rhs);
    }
}

pub proof fn new_sub_keeps_its_place(st: ParserState, lhs: Node, rhs: Node, span: SourceSpan)
    ensures
        keeps_its_place(st, new_sub(st, lhs, rhs, span)),
{
    reveal(new_sub);
    infer_keeps_its_place(st, lhs);
    let l = infer(st, lhs);
    if l.r is Ok {
        infer_keeps_its_place(l.st, rhs);
    }
}

} // verus!
