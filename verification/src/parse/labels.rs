//! Labels and the jumps to them.

use vstd::prelude::*;
use rustc_hash::FxHashMap;
use crate::ast::{Node, NodeKind, NodeList, Stmt, StmtKind, StmtList};
use crate::error::{Error, Message};
use crate::maps::{map_get, map_insert};
use crate::source::SourceSpan;

verus! {

/// The numbers of labels by their names.
pub type Labels = Map<usize, usize>;

/// The labels, with those in an expression added.
pub open spec fn labels_of(node: Node, labels: Labels) -> Result<Labels, Error>
    decreases node,
{
    labels_of_kind(node.kind, labels)
}

/// The labels, with those in the parts of an expression added.
pub open spec fn labels_of_kind(kind: NodeKind, labels: Labels) -> Result<Labels, Error>
    decreases kind,
{
    match kind {
        NodeKind::Addr(expr) => labels_of(*expr, labels),
        NodeKind::Deref(expr) => labels_of(*expr, labels),
        NodeKind::Neg(expr) => labels_of(*expr, labels),
        NodeKind::BitNot(expr) => labels_of(*expr, labels),
        NodeKind::Not(expr) => labels_of(*expr, labels),
        NodeKind::Cast(expr) => labels_of(*expr, labels),
        NodeKind::Member { parent, .. } => labels_of(*parent, labels),
        NodeKind::Assign { lhs, rhs } => match labels_of(*lhs, labels) {
            Ok(l1) => labels_of(*rhs, l1),
            Err(e) => Err(e),
        },
        NodeKind::Comma { lhs, rhs } => match labels_of(*lhs, labels) {
            Ok(l1) => labels_of(*rhs, l1),
            Err(e) => Err(e),
        },
        NodeKind::LogicalAnd { lhs, rhs } => match labels_of(*lhs, labels) {
            Ok(l1) => labels_of(*rhs, l1),
            Err(e) => Err(e),
        },
        NodeKind::LogicalOr { lhs, rhs } => match labels_of(*lhs, labels) {
            Ok(l1) => labels_of(*rhs, l1),
            Err(e) => Err(e),
        },
        NodeKind::Binary { op: _, lhs, rhs } => match labels_of(*lhs, labels) {
            Ok(l1) => labels_of(*rhs, l1),
            Err(e) => Err(e),
        },
        NodeKind::FuncCall { callee, args, .. } => match labels_of(*callee, labels) {
            Ok(l1) => labels_of_list(args, l1),
            Err(e) => Err(e),
        },
        NodeKind::Conditional { cond, then_expr, else_expr } => match labels_of(*cond, labels) {
            Ok(l1) => match labels_of(*then_expr, l1) {
                Ok(l2) => labels_of(*else_expr, l2),
                Err(e) => Err(e),
            },
            Err(e) => Err(e),
        },
        NodeKind::StmtExpr(body) => labels_of_stmts(body, labels),
        NodeKind::Entity(_) | NodeKind::Num(_) | NodeKind::Flonum(_) | NodeKind::Dummy => Ok(labels),
    }
}

/// The labels, with those in a list of expressions added.
pub open spec fn labels_of_list(nodes: NodeList, labels: Labels) -> Result<Labels, Error>
    decreases nodes,
{
    match nodes {
        NodeList::Nil => Ok(labels),
        NodeList::Cons(head, tail) => match labels_of(*head, labels) {
            Ok(l1) => labels_of_list(*tail, l1),
            Err(e) => Err(e),
        },
    }
}

/// The labels, with those in a list of statements added.
pub open spec fn labels_of_stmts(stmts: StmtList, labels: Labels) -> Result<Labels, Error>
    decreases stmts,
{
    match stmts {
        StmtList::Nil => Ok(labels),
        StmtList::Cons(head, tail) => match labels_of_stmt(*head, labels) {
            Ok(l1) => labels_of_stmts(*tail, l1),
            Err(e) => Err(e),
        },
    }
}

pub open spec fn labels_of_opt(node: Option<Node>, labels: Labels) -> Result<Labels, Error>
    decreases node,
{
    match node {
        None => Ok(labels),
        Some(node) => labels_of(node, labels),
    }
}

pub open spec fn labels_of_opt_stmt(stmt: Option<Box<Stmt>>, labels: Labels) -> Result<
    Labels,
    Error,
>
    decreases stmt,
{
    match stmt {
        None => Ok(labels),
        Some(stmt) => labels_of_stmt(*stmt, labels),
    }
}

/// The labels, with those in a statement added. No name may come twice.
pub open spec fn labels_of_stmt(stmt: Stmt, labels: Labels) -> Result<Labels, Error>
    decreases stmt,
{
    labels_of_stmt_kind(stmt.kind, labels, stmt.span)
}

/// The labels, with those in the parts of a statement added.
pub open spec fn labels_of_stmt_kind(kind: StmtKind, labels: Labels, span: SourceSpan) -> Result<
    Labels,
    Error,
>
    decreases kind,
{
    match kind {
        StmtKind::Expr(node) => labels_of(node, labels),
        StmtKind::Return(node) => labels_of_opt(node, labels),
        StmtKind::Loop { init, cond, inc, body, .. } => match labels_of_opt_stmt(init, labels) {
            Ok(l1) => match labels_of_opt(cond, l1) {
                Ok(l2) => match labels_of_opt(inc, l2) {
                    Ok(l3) => labels_of_stmt(*body, l3),
                    Err(e) => Err(e),
                },
                Err(e) => Err(e),
            },
            Err(e) => Err(e),
        },
        StmtKind::If { cond, then_branch, else_branch } => match labels_of(cond, labels) {
            Ok(l1) => match labels_of_stmt(*then_branch, l1) {
                Ok(l2) => labels_of_opt_stmt(else_branch, l2),
                Err(e) => Err(e),
            },
            Err(e) => Err(e),
        },
        StmtKind::Switch { cond, body, .. } => match labels_of(cond, labels) {
            Ok(l1) => labels_of_stmt(*body, l1),
            Err(e) => Err(e),
        },
        StmtKind::Block(stmts) => labels_of_stmts(stmts, labels),
        StmtKind::Label { label, body, name } => match name {
            Some(name) => if labels.contains_key(name.0) {
                Err(Error::Terminate(span, Message::DuplicateLabel))
            } else {
                labels_of_stmt(*body, labels.insert(name.0, label))
            },
            None => labels_of_stmt(*body, labels),
        },
        StmtKind::Jump { .. } | StmtKind::MemzeroLocal(_) => Ok(labels),
    }
}

/// Collect labels from an expression subtree.
pub fn collect_labels(node: &Node, labels: &mut FxHashMap<usize, usize>) -> (r: Result<(), Error>)
    ensures
        labels_of(*node, old(labels)@) == (match r {
            Ok(_) => Ok::<Labels, Error>(final(labels)@),
            Err(e) => Err(e),
        }),
    decreases node,
{
    collect_labels_kind(&node.kind, labels)
}

fn collect_labels_kind(kind: &NodeKind, labels: &mut FxHashMap<usize, usize>) -> (r: Result<
    (),
    Error,
>)
    ensures
        labels_of_kind(*kind, old(labels)@) == (match r {
            Ok(_) => Ok::<Labels, Error>(final(labels)@),
            Err(e) => Err(e),
        }),
    decreases kind,
{
    match kind {
        NodeKind::Addr(expr) => collect_labels(expr, labels),
        NodeKind::Deref(expr) => collect_labels(expr, labels),
        NodeKind::Neg(expr) => collect_labels(expr, labels),
        NodeKind::BitNot(expr) => collect_labels(expr, labels),
        NodeKind::Not(expr) => collect_labels(expr, labels),
        NodeKind::Cast(expr) => collect_labels(expr, labels),
        NodeKind::Member { parent, .. } => collect_labels(parent, labels),
        NodeKind::Assign { lhs, rhs } => {
            collect_labels(lhs, labels)?;
            collect_labels(rhs, labels)
        },
        NodeKind::Comma { lhs, rhs } => {
            collect_labels(lhs, labels)?;
            collect_labels(rhs, labels)
        },
        NodeKind::LogicalAnd { lhs, rhs } => {
            collect_labels(lhs, labels)?;
            collect_labels(rhs, labels)
        },
        NodeKind::LogicalOr { lhs, rhs } => {
            collect_labels(lhs, labels)?;
            collect_labels(rhs, labels)
        },
        NodeKind::Binary { op: _, lhs, rhs } => {
            collect_labels(lhs, labels)?;
            collect_labels(rhs, labels)
        },
        NodeKind::FuncCall { callee, args, .. } => {
            collect_labels(callee, labels)?;
            collect_labels_list(args, labels)
        },
        NodeKind::Conditional { cond, then_expr, else_expr } => {
            collect_labels(cond, labels)?;
            collect_labels(then_expr, labels)?;
            collect_labels(else_expr, labels)
        },
        NodeKind::StmtExpr(body) => collect_labels_stmts(body, labels),
        NodeKind::Entity(_) | NodeKind::Num(_) | NodeKind::Flonum(_) | NodeKind::Dummy => Ok(()),
    }
}

fn collect_labels_list(
    nodes: &NodeList,
    labels: &mut FxHashMap<usize, usize>,
) -> (r: Result<(), Error>)
    ensures
        labels_of_list(*nodes, old(labels)@) == (match r {
            Ok(_) => Ok::<Labels, Error>(final(labels)@),
            Err(e) => Err(e),
        }),
    decreases nodes,
{
    match nodes {
        NodeList::Nil => Ok(()),
        NodeList::Cons(head, tail) => {
            collect_labels(head, labels)?;
            collect_labels_list(tail, labels)
        },
    }
}

fn collect_labels_stmts(
    stmts: &StmtList,
    labels: &mut FxHashMap<usize, usize>,
) -> (r: Result<(), Error>)
    ensures
        labels_of_stmts(*stmts, old(labels)@) == (match r {
            Ok(_) => Ok::<Labels, Error>(final(labels)@),
            Err(e) => Err(e),
        }),
    decreases stmts,
{
    match stmts {
        StmtList::Nil => Ok(()),
        StmtList::Cons(head, tail) => {
            collect_labels_stmt(head, labels)?;
            collect_labels_stmts(tail, labels)
        },
    }
}

fn collect_labels_opt(node: &Option<Node>, labels: &mut FxHashMap<usize, usize>) -> (r: Result<
    (),
    Error,
>)
    ensures
        labels_of_opt(*node, old(labels)@) == (match r {
            Ok(_) => Ok::<Labels, Error>(final(labels)@),
            Err(e) => Err(e),
        }),
    decreases node,
{
    match node {
        None => Ok(()),
        Some(node) => collect_labels(node, labels),
    }
}

fn collect_labels_opt_stmt(stmt: &Option<Box<Stmt>>, labels: &mut FxHashMap<usize, usize>) -> (r:
    Result<(), Error>)
    ensures
        labels_of_opt_stmt(*stmt, old(labels)@) == (match r {
            Ok(_) => Ok::<Labels, Error>(final(labels)@),
            Err(e) => Err(e),
        }),
    decreases stmt,
{
    match stmt {
        None => Ok(()),
        Some(stmt) => collect_labels_stmt(stmt, labels),
    }
}

/// Collect labels from a statement subtree.
pub fn collect_labels_stmt(stmt: &Stmt, labels: &mut FxHashMap<usize, usize>) -> (r: Result<
    (),
    Error,
>)
    ensures
        labels_of_stmt(*stmt, old(labels)@) == (match r {
            Ok(_) => Ok::<Labels, Error>(final(labels)@),
            Err(e) => Err(e),
        }),
    decreases stmt,
{
    collect_labels_stmt_kind(&stmt.kind, labels, stmt.span)
}

fn collect_labels_stmt_kind(
    kind: &StmtKind,
    labels: &mut FxHashMap<usize, usize>,
    span: SourceSpan,
) -> (r: Result<(), Error>)
    ensures
        labels_of_stmt_kind(*kind, old(labels)@, span) == (match r {
            Ok(_) => Ok::<Labels, Error>(final(labels)@),
            Err(e) => Err(e),
        }),
    decreases kind,
{
    match kind {
        StmtKind::Expr(node) => collect_labels(node, labels),
        StmtKind::Return(node) => collect_labels_opt(node, labels),
        StmtKind::Loop { init, cond, inc, body, .. } => {
            collect_labels_opt_stmt(init, labels)?;
            collect_labels_opt(cond, labels)?;
            collect_labels_opt(inc, labels)?;
            collect_labels_stmt(body, labels)
        },
        StmtKind::If { cond, then_branch, else_branch } => {
            collect_labels(cond, labels)?;
            collect_labels_stmt(then_branch, labels)?;
            collect_labels_opt_stmt(else_branch, labels)
        },
        StmtKind::Switch { cond, body, .. } => {
            collect_labels(cond, labels)?;
            collect_labels_stmt(body, labels)
        },
        StmtKind::Block(stmts) => collect_labels_stmts(stmts, labels),
        StmtKind::Label { label, body, name } => {
            if let Some(name) = name {
                if map_get(labels, name.0).is_some() {
                    return Err(Error::Terminate(span, Message::DuplicateLabel));
                }
                let _ = map_insert(labels, name.0, *label);
            }
            collect_labels_stmt(body, labels)
        },
        StmtKind::Jump { .. } | StmtKind::MemzeroLocal(_) => Ok(()),
    }
}

/// An expression in which every goto has the label it names.
pub open spec fn resolved(node: Node, labels: Labels) -> Result<Node, Error>
    decreases node,
{
    match resolved_kind(node.kind, labels) {
        Ok(kind) => Ok(Node { kind, span: node.span, ty: node.ty }),
        Err(e) => Err(e),
    }
}

pub open spec fn resolved_kind(kind: NodeKind, labels: Labels) -> Result<NodeKind, Error>
    decreases kind,
{
    match kind {
        NodeKind::Addr(expr) => match resolved(*expr, labels) {
            Ok(x) => Ok(NodeKind::Addr(Box::new(x))),
            Err(e) => Err(e),
        },
        NodeKind::Deref(expr) => match resolved(*expr, labels) {
            Ok(x) => Ok(NodeKind::Deref(Box::new(x))),
            Err(e) => Err(e),
        },
        NodeKind::Neg(expr) => match resolved(*expr, labels) {
            Ok(x) => Ok(NodeKind::Neg(Box::new(x))),
            Err(e) => Err(e),
        },
        NodeKind::BitNot(expr) => match resolved(*expr, labels) {
            Ok(x) => Ok(NodeKind::BitNot(Box::new(x))),
            Err(e) => Err(e),
        },
        NodeKind::Not(expr) => match resolved(*expr, labels) {
            Ok(x) => Ok(NodeKind::Not(Box::new(x))),
            Err(e) => Err(e),
        },
        NodeKind::Cast(expr) => match resolved(*expr, labels) {
            Ok(x) => Ok(NodeKind::Cast(Box::new(x))),
            Err(e) => Err(e),
        },
        NodeKind::Member { parent, member } => match resolved(*parent, labels) {
            Ok(x) => Ok(NodeKind::Member { parent: Box::new(x), member }),
            Err(e) => Err(e),
        },
        NodeKind::Assign { lhs, rhs } => match resolved(*lhs, labels) {
            Ok(x) => match resolved(*rhs, labels) {
                Ok(y) => Ok(NodeKind::Assign { lhs: Box::new(x), rhs: Box::new(y) }),
                Err(e) => Err(e),
            },
            Err(e) => Err(e),
        },
        NodeKind::Comma { lhs, rhs } => match resolved(*lhs, labels) {
            Ok(x) => match resolved(*rhs, labels) {
                Ok(y) => Ok(NodeKind::Comma { lhs: Box::new(x), rhs: Box::new(y) }),
                Err(e) => Err(e),
            },
            Err(e) => Err(e),
        },
        NodeKind::LogicalAnd { lhs, rhs } => match resolved(*lhs, labels) {
            Ok(x) => match resolved(*rhs, labels) {
                Ok(y) => Ok(NodeKind::LogicalAnd { lhs: Box::new(x), rhs: Box::new(y) }),
                Err(e) => Err(e),
            },
            Err(e) => Err(e),
        },
        NodeKind::LogicalOr { lhs, rhs } => match resolved(*lhs, labels) {
            Ok(x) => match resolved(*rhs, labels) {
                Ok(y) => Ok(NodeKind::LogicalOr { lhs: Box::new(x), rhs: Box::new(y) }),
                Err(e) => Err(e),
            },
            Err(e) => Err(e),
        },
        NodeKind::Binary { op, lhs, rhs } => match resolved(*lhs, labels) {
            Ok(x) => match resolved(*rhs, labels) {
                Ok(y) => Ok(NodeKind::Binary { op, lhs: Box::new(x), rhs: Box::new(y) }),
                Err(e) => Err(e),
            },
            Err(e) => Err(e),
        },
        NodeKind::FuncCall { callee, args, ret_buf_local } => match resolved(*callee, labels) {
            Ok(x) => match resolved_list(args, labels) {
                Ok(y) => Ok(NodeKind::FuncCall { callee: Box::new(x), args: y, ret_buf_local }),
                Err(e) => Err(e),
            },
            Err(e) => Err(e),
        },
        NodeKind::Conditional { cond, then_expr, else_expr } => match resolved(*cond, labels) {
            Ok(x) => match resolved(*then_expr, labels) {
                Ok(y) => match resolved(*else_expr, labels) {
                    Ok(z) => Ok(NodeKind::Conditional {
                        cond: Box::new(x),
                        then_expr: Box::new(y),
                        else_expr: Box::new(z),
                    }),
                    Err(e) => Err(e),
                },
                Err(e) => Err(e),
            },
            Err(e) => Err(e),
        },
        NodeKind::StmtExpr(body) => match resolved_stmts(body, labels) {
            Ok(x) => Ok(NodeKind::StmtExpr(x)),
            Err(e) => Err(e),
        },
        NodeKind::Entity(_) | NodeKind::Num(_) | NodeKind::Flonum(_) | NodeKind::Dummy => Ok(kind),
    }
}

pub open spec fn resolved_list(nodes: NodeList, labels: Labels) -> Result<NodeList, Error>
    decreases nodes,
{
    match nodes {
        NodeList::Nil => Ok(NodeList::Nil),
        NodeList::Cons(head, tail) => match resolved(*head, labels) {
            Ok(x) => match resolved_list(*tail, labels) {
                Ok(y) => Ok(NodeList::Cons(Box::new(x), Box::new(y))),
                Err(e) => Err(e),
            },
            Err(e) => Err(e),
        },
    }
}

pub open spec fn resolved_stmts(stmts: StmtList, labels: Labels) -> Result<StmtList, Error>
    decreases stmts,
{
    match stmts {
        StmtList::Nil => Ok(StmtList::Nil),
        StmtList::Cons(head, tail) => match resolved_stmt(*head, labels) {
            Ok(x) => match resolved_stmts(*tail, labels) {
                Ok(y) => Ok(StmtList::Cons(Box::new(x), Box::new(y))),
                Err(e) => Err(e),
            },
            Err(e) => Err(e),
        },
    }
}

pub open spec fn resolved_opt(node: Option<Node>, labels: Labels) -> Result<Option<Node>, Error>
    decreases node,
{
    match node {
        None => Ok(None),
        Some(node) => match resolved(node, labels) {
            Ok(x) => Ok(Some(x)),
            Err(e) => Err(e),
        },
    }
}

pub open spec fn resolved_opt_stmt(stmt: Option<Box<Stmt>>, labels: Labels) -> Result<
    Option<Box<Stmt>>,
    Error,
>
    decreases stmt,
{
    match stmt {
        None => Ok(None),
        Some(stmt) => match resolved_stmt(*stmt, labels) {
            Ok(x) => Ok(Some(Box::new(x))),
            Err(e) => Err(e),
        },
    }
}

/// A statement in which every goto has the label it names.
pub open spec fn resolved_stmt(stmt: Stmt, labels: Labels) -> Result<Stmt, Error>
    decreases stmt,
{
    match resolved_stmt_kind(stmt.kind, labels, stmt.span) {
        Ok(kind) => Ok(Stmt { kind, span: stmt.span }),
        Err(e) => Err(e),
    }
}

pub open spec fn resolved_stmt_kind(kind: StmtKind, labels: Labels, span: SourceSpan) -> Result<
    StmtKind,
    Error,
>
    decreases kind,
{
    match kind {
        StmtKind::Expr(node) => match resolved(node, labels) {
            Ok(x) => Ok(StmtKind::Expr(x)),
            Err(e) => Err(e),
        },
        StmtKind::Return(node) => match resolved_opt(node, labels) {
            Ok(x) => Ok(StmtKind::Return(x)),
            Err(e) => Err(e),
        },
        StmtKind::Loop { init, cond, inc, body, do_while, brk_label, cont_label } => match resolved_opt_stmt(init, labels) {
            Ok(x) => match resolved_opt(cond, labels) {
                Ok(y) => match resolved_opt(inc, labels) {
                    Ok(z) => match resolved_stmt(*body, labels) {
                        Ok(w) => Ok(StmtKind::Loop {
                            init: x,
                            cond: y,
                            inc: z,
                            body: Box::new(w),
                            do_while,
                            brk_label,
                            cont_label,
                        }),
                        Err(e) => Err(e),
                    },
                    Err(e) => Err(e),
                },
                Err(e) => Err(e),
            },
            Err(e) => Err(e),
        },
        StmtKind::If { cond, then_branch, else_branch } => match resolved(cond, labels) {
            Ok(x) => match resolved_stmt(*then_branch, labels) {
                Ok(y) => match resolved_opt_stmt(else_branch, labels) {
                    Ok(z) => Ok(StmtKind::If { cond: x, then_branch: Box::new(y), else_branch: z }),
                    Err(e) => Err(e),
                },
                Err(e) => Err(e),
            },
            Err(e) => Err(e),
        },
        StmtKind::Switch { cond, body, cases, default, brk_label } => match resolved(cond, labels) {
            Ok(x) => match resolved_stmt(*body, labels) {
                Ok(y) => Ok(StmtKind::Switch { cond: x, body: Box::new(y), cases, default, brk_label }),
                Err(e) => Err(e),
            },
            Err(e) => Err(e),
        },
        StmtKind::Block(stmts) => match resolved_stmts(stmts, labels) {
            Ok(x) => Ok(StmtKind::Block(x)),
            Err(e) => Err(e),
        },
        StmtKind::Label { label, body, name } => match resolved_stmt(*body, labels) {
            Ok(x) => Ok(StmtKind::Label { label, body: Box::new(x), name }),
            Err(e) => Err(e),
        },
        StmtKind::Jump { label: _, label_name: Some(name) } => if labels.contains_key(name.0) {
            Ok(StmtKind::Jump { label: Some(labels[name.0]), label_name: Some(name) })
        } else {
            Err(Error::Terminate(span, Message::UndeclaredLabel))
        },
        StmtKind::Jump { label: _, label_name: None } | StmtKind::MemzeroLocal(_) => Ok(kind),
    }
}

/// Resolve gotos from an expression subtree.
pub fn resolve_gotos(node: Node, labels: &FxHashMap<usize, usize>) -> (r: Result<Node, Error>)
    ensures
        r == resolved(node, labels@),
    decreases node,
{
    let kind = resolve_gotos_kind(node.kind, labels)?;
    Ok(Node { kind, span: node.span, ty: node.ty })
}

fn resolve_gotos_kind(kind: NodeKind, labels: &FxHashMap<usize, usize>) -> (r: Result<
    NodeKind,
    Error,
>)
    ensures
        r == resolved_kind(kind, labels@),
    decreases kind,
{
    match kind {
        NodeKind::Addr(expr) => Ok(NodeKind::Addr(Box::new(resolve_gotos(*expr, labels)?))),
        NodeKind::Deref(expr) => Ok(NodeKind::Deref(Box::new(resolve_gotos(*expr, labels)?))),
        NodeKind::Neg(expr) => Ok(NodeKind::Neg(Box::new(resolve_gotos(*expr, labels)?))),
        NodeKind::BitNot(expr) => Ok(NodeKind::BitNot(Box::new(resolve_gotos(*expr, labels)?))),
        NodeKind::Not(expr) => Ok(NodeKind::Not(Box::new(resolve_gotos(*expr, labels)?))),
        NodeKind::Cast(expr) => Ok(NodeKind::Cast(Box::new(resolve_gotos(*expr, labels)?))),
        NodeKind::Member { parent, member } => {
            let parent = Box::new(resolve_gotos(*parent, labels)?);
            Ok(NodeKind::Member { parent, member })
        },
        NodeKind::Assign { lhs, rhs } => {
            let lhs = Box::new(resolve_gotos(*lhs, labels)?);
            let rhs = Box::new(resolve_gotos(*rhs, labels)?);
            Ok(NodeKind::Assign { lhs, rhs })
        },
        NodeKind::Comma { lhs, rhs } => {
            let lhs = Box::new(resolve_gotos(*lhs, labels)?);
            let rhs = Box::new(resolve_gotos(*rhs, labels)?);
            Ok(NodeKind::Comma { lhs, rhs })
        },
        NodeKind::LogicalAnd { lhs, rhs } => {
            let lhs = Box::new(resolve_gotos(*lhs, labels)?);
            let rhs = Box::new(resolve_gotos(*rhs, labels)?);
            Ok(NodeKind::LogicalAnd { lhs, rhs })
        },
        NodeKind::LogicalOr { lhs, rhs } => {
            let lhs = Box::new(resolve_gotos(*lhs, labels)?);
            let rhs = Box::new(resolve_gotos(*rhs, labels)?);
            Ok(NodeKind::LogicalOr { lhs, rhs })
        },
        NodeKind::Binary { op, lhs, rhs } => {
            let lhs = Box::new(resolve_gotos(*lhs, labels)?);
            let rhs = Box::new(resolve_gotos(*rhs, labels)?);
            Ok(NodeKind::Binary { op, lhs, rhs })
        },
        NodeKind::FuncCall { callee, args, ret_buf_local } => {
            let callee = Box::new(resolve_gotos(*callee, labels)?);
            let args = resolve_gotos_list(args, labels)?;
            Ok(NodeKind::FuncCall { callee, args, ret_buf_local })
        },
        NodeKind::Conditional { cond, then_expr, else_expr } => {
            let cond = Box::new(resolve_gotos(*cond, labels)?);
            let then_expr = Box::new(resolve_gotos(*then_expr, labels)?);
            let else_expr = Box::new(resolve_gotos(*else_expr, labels)?);
            Ok(NodeKind::Conditional { cond, then_expr, else_expr })
        },
        NodeKind::StmtExpr(body) => Ok(NodeKind::StmtExpr(resolve_gotos_stmts(body, labels)?)),
        kind => Ok(kind),
    }
}

fn resolve_gotos_list(
    nodes: NodeList,
    labels: &FxHashMap<usize, usize>,
) -> (r: Result<NodeList, Error>)
    ensures
        r == resolved_list(nodes, labels@),
    decreases nodes,
{
    match nodes {
        NodeList::Nil => Ok(NodeList::Nil),
        NodeList::Cons(head, tail) => {
            let head = resolve_gotos(*head, labels)?;
            let tail = resolve_gotos_list(*tail, labels)?;
            Ok(NodeList::Cons(Box::new(head), Box::new(tail)))
        },
    }
}

fn resolve_gotos_stmts(
    stmts: StmtList,
    labels: &FxHashMap<usize, usize>,
) -> (r: Result<StmtList, Error>)
    ensures
        r == resolved_stmts(stmts, labels@),
    decreases stmts,
{
    match stmts {
        StmtList::Nil => Ok(StmtList::Nil),
        StmtList::Cons(head, tail) => {
            let head = resolve_gotos_stmt(*head, labels)?;
            let tail = resolve_gotos_stmts(*tail, labels)?;
            Ok(StmtList::Cons(Box::new(head), Box::new(tail)))
        },
    }
}

fn resolve_gotos_opt(node: Option<Node>, labels: &FxHashMap<usize, usize>) -> (r: Result<
    Option<Node>,
    Error,
>)
    ensures
        r == resolved_opt(node, labels@),
    decreases node,
{
    match node {
        None => Ok(None),
        Some(node) => Ok(Some(resolve_gotos(node, labels)?)),
    }
}

fn resolve_gotos_opt_stmt(stmt: Option<Box<Stmt>>, labels: &FxHashMap<usize, usize>) -> (r: Result<
    Option<Box<Stmt>>,
    Error,
>)
    ensures
        r == resolved_opt_stmt(stmt, labels@),
    decreases stmt,
{
    match stmt {
        None => Ok(None),
        Some(stmt) => Ok(Some(Box::new(resolve_gotos_stmt(*stmt, labels)?))),
    }
}

/// Resolve gotos from a statement subtree.
pub fn resolve_gotos_stmt(stmt: Stmt, labels: &FxHashMap<usize, usize>) -> (r: Result<Stmt, Error>)
    ensures
        r == resolved_stmt(stmt, labels@),
    decreases stmt,
{
    let kind = resolve_gotos_stmt_kind(stmt.kind, labels, stmt.span)?;
    Ok(Stmt { kind, span: stmt.span })
}

fn resolve_gotos_stmt_kind(
    kind: StmtKind,
    labels: &FxHashMap<usize, usize>,
    span: SourceSpan,
) -> (r: Result<StmtKind, Error>)
    ensures
        r == resolved_stmt_kind(kind, labels@, span),
    decreases kind,
{
    match kind {
        StmtKind::Expr(node) => Ok(StmtKind::Expr(resolve_gotos(node, labels)?)),
        StmtKind::Return(node) => Ok(StmtKind::Return(resolve_gotos_opt(node, labels)?)),
        StmtKind::Loop { init, cond, inc, body, do_while, brk_label, cont_label } => {
            let init = resolve_gotos_opt_stmt(init, labels)?;
            let cond = resolve_gotos_opt(cond, labels)?;
            let inc = resolve_gotos_opt(inc, labels)?;
            let body = Box::new(resolve_gotos_stmt(*body, labels)?);
            Ok(StmtKind::Loop { init, cond, inc, body, do_while, brk_label, cont_label })
        },
        StmtKind::If { cond, then_branch, else_branch } => {
            let cond = resolve_gotos(cond, labels)?;
            let then_branch = Box::new(resolve_gotos_stmt(*then_branch, labels)?);
            let else_branch = resolve_gotos_opt_stmt(else_branch, labels)?;
            Ok(StmtKind::If { cond, then_branch, else_branch })
        },
        StmtKind::Switch { cond, body, cases, default, brk_label } => {
            let cond = resolve_gotos(cond, labels)?;
            let body = Box::new(resolve_gotos_stmt(*body, labels)?);
            Ok(StmtKind::Switch { cond, body, cases, default, brk_label })
        },
        StmtKind::Block(stmts) => Ok(StmtKind::Block(resolve_gotos_stmts(stmts, labels)?)),
        StmtKind::Label { label, body, name } => {
            let body = Box::new(resolve_gotos_stmt(*body, labels)?);
            Ok(StmtKind::Label { label, body, name })
        },
        StmtKind::Jump { label: _, label_name: Some(name) } => {
            let Some(label) = map_get(labels, name.0) else {
                return Err(Error::Terminate(span, Message::UndeclaredLabel));
            };
            Ok(StmtKind::Jump { label: Some(label), label_name: Some(name) })
        },
        kind => Ok(kind),
    }
}

} // verus!
