//! Jumps have targets: once the gotos of a function are resolved, every jump in
//! it knows its label.

use vstd::prelude::*;
use crate::ast::{Node, NodeKind, NodeList, Stmt, StmtKind, StmtList};
use crate::parse::labels::{
    resolved, resolved_kind, resolved_list, resolved_opt, resolved_opt_stmt, resolved_stmt,
    resolved_stmt_kind, resolved_stmts, Labels,
};
use crate::source::SourceSpan;

verus! {

/// Whether every jump in an expression has a label, where gotos need none unless
/// `all` is true.
pub open spec fn jumps_are_set(node: Node, all: bool) -> bool
    decreases node,
{
    jumps_in_kind_are_set(node.kind, all)
}

/// See [`jumps_are_set`].
pub open spec fn jumps_in_kind_are_set(kind: NodeKind, all: bool) -> bool
    decreases kind,
{
    match kind {
        NodeKind::Dummy | NodeKind::Num(_) | NodeKind::Flonum(_) | NodeKind::Entity(_) => true,
        NodeKind::Addr(expr) => jumps_are_set(*expr, all),
        NodeKind::Deref(expr) => jumps_are_set(*expr, all),
        NodeKind::Neg(expr) => jumps_are_set(*expr, all),
        NodeKind::BitNot(expr) => jumps_are_set(*expr, all),
        NodeKind::Not(expr) => jumps_are_set(*expr, all),
        NodeKind::Cast(expr) => jumps_are_set(*expr, all),
        NodeKind::Assign { lhs, rhs } => {
            &&& jumps_are_set(*lhs, all)
            &&& jumps_are_set(*rhs, all)
        },
        NodeKind::Comma { lhs, rhs } => {
            &&& jumps_are_set(*lhs, all)
            &&& jumps_are_set(*rhs, all)
        },
        NodeKind::LogicalAnd { lhs, rhs } => {
            &&& jumps_are_set(*lhs, all)
            &&& jumps_are_set(*rhs, all)
        },
        NodeKind::LogicalOr { lhs, rhs } => {
            &&& jumps_are_set(*lhs, all)
            &&& jumps_are_set(*rhs, all)
        },
        NodeKind::Binary { op: _, lhs, rhs } => {
            &&& jumps_are_set(*lhs, all)
            &&& jumps_are_set(*rhs, all)
        },
        NodeKind::Member { parent, member: _ } => jumps_are_set(*parent, all),
        NodeKind::FuncCall { callee, args, ret_buf_local: _ } => {
            &&& jumps_are_set(*callee, all)
            &&& jumps_in_list_are_set(args, all)
        },
        NodeKind::Conditional { cond, then_expr, else_expr } => {
            &&& jumps_are_set(*cond, all)
            &&& jumps_are_set(*then_expr, all)
            &&& jumps_are_set(*else_expr, all)
        },
        NodeKind::StmtExpr(body) => jumps_in_stmts_are_set(body, all),
    }
}

/// See [`jumps_are_set`].
pub open spec fn jumps_in_list_are_set(nodes: NodeList, all: bool) -> bool
    decreases nodes,
{
    match nodes {
        NodeList::Nil => true,
        NodeList::Cons(head, tail) => jumps_are_set(*head, all) && jumps_in_list_are_set(
            *tail,
            all,
        ),
    }
}

/// See [`jumps_are_set`].
pub open spec fn jumps_in_opt_are_set(node: Option<Node>, all: bool) -> bool
    decreases node,
{
    match node {
        None => true,
        Some(node) => jumps_are_set(node, all),
    }
}

/// See [`jumps_are_set`].
pub open spec fn jumps_in_stmts_are_set(stmts: StmtList, all: bool) -> bool
    decreases stmts,
{
    match stmts {
        StmtList::Nil => true,
        StmtList::Cons(head, tail) => jumps_in_stmt_are_set(*head, all) && jumps_in_stmts_are_set(
            *tail,
            all,
        ),
    }
}

/// See [`jumps_are_set`].
pub open spec fn jumps_in_opt_stmt_are_set(stmt: Option<Box<Stmt>>, all: bool) -> bool
    decreases stmt,
{
    match stmt {
        None => true,
        Some(stmt) => jumps_in_stmt_are_set(*stmt, all),
    }
}

/// Whether every jump in a statement has a label, where gotos need none unless
/// `all` is true.
pub open spec fn jumps_in_stmt_are_set(stmt: Stmt, all: bool) -> bool
    decreases stmt,
{
    jumps_in_stmt_kind_are_set(stmt.kind, all)
}

/// See [`jumps_in_stmt_are_set`].
pub open spec fn jumps_in_stmt_kind_are_set(kind: StmtKind, all: bool) -> bool
    decreases kind,
{
    match kind {
        StmtKind::Expr(node) => jumps_are_set(node, all),
        StmtKind::Return(node) => jumps_in_opt_are_set(node, all),
        StmtKind::Loop { init, cond, inc, body, .. } => {
            &&& jumps_in_opt_stmt_are_set(init, all)
            &&& jumps_in_opt_are_set(cond, all)
            &&& jumps_in_opt_are_set(inc, all)
            &&& jumps_in_stmt_are_set(*body, all)
        },
        StmtKind::If { cond, then_branch, else_branch } => {
            &&& jumps_are_set(cond, all)
            &&& jumps_in_stmt_are_set(*then_branch, all)
            &&& jumps_in_opt_stmt_are_set(else_branch, all)
        },
        StmtKind::Switch { cond, body, .. } => {
            &&& jumps_are_set(cond, all)
            &&& jumps_in_stmt_are_set(*body, all)
        },
        StmtKind::Block(stmts) => jumps_in_stmts_are_set(stmts, all),
        StmtKind::Label { body, .. } => jumps_in_stmt_are_set(*body, all),
        StmtKind::Jump { label, label_name } => label is Some || (!all && label_name is Some),
        StmtKind::MemzeroLocal(_) => true,
    }
}

proof fn resolving_sets_jumps(node: Node, labels: Labels)
    requires
        jumps_are_set(node, false),
        resolved(node, labels) is Ok,
    ensures
        jumps_are_set(resolved(node, labels)->Ok_0, true),
    decreases node,
{
    kind_sets_jumps(node.kind, labels);
}

proof fn kind_sets_jumps(kind: NodeKind, labels: Labels)
    requires
        jumps_in_kind_are_set(kind, false),
        resolved_kind(kind, labels) is Ok,
    ensures
        jumps_in_kind_are_set(resolved_kind(kind, labels)->Ok_0, true),
    decreases kind,
{
    match kind {
        NodeKind::Dummy | NodeKind::Num(_) | NodeKind::Flonum(_) | NodeKind::Entity(_) => {},
        NodeKind::Addr(expr) => resolving_sets_jumps(*expr, labels),
        NodeKind::Deref(expr) => resolving_sets_jumps(*expr, labels),
        NodeKind::Neg(expr) => resolving_sets_jumps(*expr, labels),
        NodeKind::BitNot(expr) => resolving_sets_jumps(*expr, labels),
        NodeKind::Not(expr) => resolving_sets_jumps(*expr, labels),
        NodeKind::Cast(expr) => resolving_sets_jumps(*expr, labels),
        NodeKind::Assign { lhs, rhs } => {
            resolving_sets_jumps(*lhs, labels);
            resolving_sets_jumps(*rhs, labels);
        },
        NodeKind::Comma { lhs, rhs } => {
            resolving_sets_jumps(*lhs, labels);
            resolving_sets_jumps(*rhs, labels);
        },
        NodeKind::LogicalAnd { lhs, rhs } => {
            resolving_sets_jumps(*lhs, labels);
            resolving_sets_jumps(*rhs, labels);
        },
        NodeKind::LogicalOr { lhs, rhs } => {
            resolving_sets_jumps(*lhs, labels);
            resolving_sets_jumps(*rhs, labels);
        },
        NodeKind::Binary { op: _, lhs, rhs } => {
            resolving_sets_jumps(*lhs, labels);
            resolving_sets_jumps(*rhs, labels);
        },
        NodeKind::Member { parent, member: _ } => resolving_sets_jumps(*parent, labels),
        NodeKind::FuncCall { callee, args, ret_buf_local: _ } => {
            resolving_sets_jumps(*callee, labels);
            list_sets_jumps(args, labels);
        },
        NodeKind::Conditional { cond, then_expr, else_expr } => {
            resolving_sets_jumps(*cond, labels);
            resolving_sets_jumps(*then_expr, labels);
            resolving_sets_jumps(*else_expr, labels);
        },
        NodeKind::StmtExpr(body) => stmts_set_jumps(body, labels),
    }
}

proof fn list_sets_jumps(nodes: NodeList, labels: Labels)
    requires
        jumps_in_list_are_set(nodes, false),
        resolved_list(nodes, labels) is Ok,
    ensures
        jumps_in_list_are_set(resolved_list(nodes, labels)->Ok_0, true),
    decreases nodes,
{
    if let NodeList::Cons(head, tail) = nodes {
        resolving_sets_jumps(*head, labels);
        list_sets_jumps(*tail, labels);
    }
}

proof fn stmts_set_jumps(stmts: StmtList, labels: Labels)
    requires
        jumps_in_stmts_are_set(stmts, false),
        resolved_stmts(stmts, labels) is Ok,
    ensures
        jumps_in_stmts_are_set(resolved_stmts(stmts, labels)->Ok_0, true),
    decreases stmts,
{
    if let StmtList::Cons(head, tail) = stmts {
        stmt_sets_jumps(*head, labels);
        stmts_set_jumps(*tail, labels);
    }
}

proof fn opt_sets_jumps(node: Option<Node>, labels: Labels)
    requires
        jumps_in_opt_are_set(node, false),
        resolved_opt(node, labels) is Ok,
    ensures
        jumps_in_opt_are_set(resolved_opt(node, labels)->Ok_0, true),
    decreases node,
{
    if let Some(node) = node {
        resolving_sets_jumps(node, labels);
    }
}

proof fn opt_stmt_sets_jumps(stmt: Option<Box<Stmt>>, labels: Labels)
    requires
        jumps_in_opt_stmt_are_set(stmt, false),
        resolved_opt_stmt(stmt, labels) is Ok,
    ensures
        jumps_in_opt_stmt_are_set(resolved_opt_stmt(stmt, labels)->Ok_0, true),
    decreases stmt,
{
    if let Some(stmt) = stmt {
        stmt_sets_jumps(*stmt, labels);
    }
}

proof fn stmt_sets_jumps(stmt: Stmt, labels: Labels)
    requires
        jumps_in_stmt_are_set(stmt, false),
        resolved_stmt(stmt, labels) is Ok,
    ensures
        jumps_in_stmt_are_set(resolved_stmt(stmt, labels)->Ok_0, true),
    decreases stmt,
{
    stmt_kind_sets_jumps(stmt.kind, labels, stmt.span);
}

proof fn stmt_kind_sets_jumps(kind: StmtKind, labels: Labels, span: SourceSpan)
    requires
        jumps_in_stmt_kind_are_set(kind, false),
        resolved_stmt_kind(kind, labels, span) is Ok,
    ensures
        jumps_in_stmt_kind_are_set(resolved_stmt_kind(kind, labels, span)->Ok_0, true),
    decreases kind,
{
    match kind {
        StmtKind::Expr(node) => resolving_sets_jumps(node, labels),
        StmtKind::Return(node) => opt_sets_jumps(node, labels),
        StmtKind::Loop { init, cond, inc, body, .. } => {
            opt_stmt_sets_jumps(init, labels);
            opt_sets_jumps(cond, labels);
            opt_sets_jumps(inc, labels);
            stmt_sets_jumps(*body, labels);
        },
        StmtKind::If { cond, then_branch, else_branch } => {
            resolving_sets_jumps(cond, labels);
            stmt_sets_jumps(*then_branch, labels);
            opt_stmt_sets_jumps(else_branch, labels);
        },
        StmtKind::Switch { cond, body, .. } => {
            resolving_sets_jumps(cond, labels);
            stmt_sets_jumps(*body, labels);
        },
        StmtKind::Block(stmts) => stmts_set_jumps(stmts, labels),
        StmtKind::Label { body, .. } => stmt_sets_jumps(*body, labels),
        StmtKind::Jump { .. } | StmtKind::MemzeroLocal(_) => {},
    }
}

/// Once the gotos of a statement are resolved, every jump in it has a label, if
/// the other jumps had theirs from the start.
pub proof fn resolved_jumps_have_labels(stmt: Stmt, labels: Labels)
    requires
        jumps_in_stmt_are_set(stmt, false),
        resolved_stmt(stmt, labels) is Ok,
    ensures
        jumps_in_stmt_are_set(resolved_stmt(stmt, labels)->Ok_0, true),
{
    stmt_sets_jumps(stmt, labels);
}

} // verus!
