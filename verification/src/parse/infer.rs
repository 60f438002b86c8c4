//! Types of expressions.

use vstd::prelude::*;
use crate::ast::{node_ty, BinaryOp, EntityRef, Node, NodeKind, NodeList, Stmt, StmtKind, StmtList};
use crate::error::{Error, Message};
use crate::parse::state::{
    done, function_ty, global_ty, local_ty, pauses, return_of, with_types, wrong, Out, Parser,
    ParserState,
};
use crate::types::{
    array_of, base_of, coerced, is_sou_ty, next_type, ty_is_arith, ty_is_flonum, ty_is_integer,
    ty_promote, with_ptr, ArithType, Type,
};

verus! {

/// An expression cast to a type.
pub open spec fn cast_node(node: Node, ty: Type) -> Node {
    Node { kind: NodeKind::Cast(Box::new(node)), span: node.span, ty: Some(ty) }
}

/// An expression of the given type.
pub open spec fn typed(node: Node, kind: NodeKind, ty: Type) -> Node {
    Node { kind, span: node.span, ty: Some(ty) }
}

/// The type of a named entity.
pub open spec fn entity_ty(st: ParserState, entity: EntityRef) -> Type {
    match entity {
        EntityRef::Local(id) => local_ty(st, id),
        EntityRef::Global(id) => global_ty(st, id),
        EntityRef::Function(id) => function_ty(st, id),
    }
}

/// The type of the last statement of a statement expression, if it has one.
pub open spec fn value_ty(stmts: StmtList) -> Option<Type>
    decreases stmts,
{
    match stmts {
        StmtList::Nil => None,
        StmtList::Cons(stmt, tail) => match *tail {
            StmtList::Nil => match stmt.kind {
                StmtKind::Expr(expr) => Some(node_ty(expr)),
                _ => None,
            },
            _ => value_ty(*tail),
        },
    }
}

/// The type of the operation `op`, with what its operands are cast to.
///
/// `None` if the operands do not fit the operation.
#[verifier::opaque]
pub open spec fn infer_binary(
    st: ParserState,
    node: Node,
    op: BinaryOp,
    lhs: Node,
    rhs: Node,
) -> Out<Node> {
    let l = node_ty(lhs);
    let r = node_ty(rhs);
    let (types, common) = coerced(st.types, l, r);
    let both_cast = |ty: Type|
        done::<Node>(
            with_types(st, types),
            typed(
                node,
                NodeKind::Binary {
                    op,
                    lhs: Box::new(cast_node(lhs, common)),
                    rhs: Box::new(cast_node(rhs, common)),
                },
                ty,
            ),
        );
    match op {
        BinaryOp::Add | BinaryOp::Sub => both_cast(common),
        BinaryOp::Mul | BinaryOp::Div => if !ty_is_arith(l) || !ty_is_arith(r) {
            wrong(st, node.span, Message::InvalidOperands)
        } else {
            both_cast(common)
        },
        BinaryOp::Mod | BinaryOp::BitAnd | BinaryOp::BitOr | BinaryOp::BitXor => if !ty_is_integer(
            l,
        ) || !ty_is_integer(r) {
            wrong(st, node.span, Message::InvalidOperands)
        } else {
            both_cast(common)
        },
        BinaryOp::BitLeftShift | BinaryOp::BitRightShift => match (ty_promote(l), ty_promote(r)) {
            (Some(l), Some(r)) => done(
                st,
                typed(
                    node,
                    NodeKind::Binary {
                        op,
                        lhs: Box::new(cast_node(lhs, l)),
                        rhs: Box::new(cast_node(rhs, r)),
                    },
                    l,
                ),
            ),
            _ => wrong(st, node.span, Message::InvalidOperands),
        },
        BinaryOp::Eq | BinaryOp::Ne | BinaryOp::Lt | BinaryOp::Le => both_cast(
            Type::Arith(ArithType::Int),
        ),
    }
}

/// Give an expression and all its parts their types.
#[verifier::opaque]
pub open spec fn infer(st: ParserState, node: Node) -> Out<Node>
    decreases node, 1int,
{
    if node.ty is Some {
        done(st, node)
    } else {
        infer_untyped(st, node)
    }
}

/// Give an expression that has no type yet its type.
pub open spec fn infer_untyped(st: ParserState, node: Node) -> Out<Node>
    decreases node, 0int,
{
    match node.kind {
        NodeKind::FuncCall { callee, args, ret_buf_local } => {
            let o = infer(st, *callee);
            if o.r is Err {
                o.fail()
            } else {
                let a = infer_list(o.st, args);
                if a.r is Err {
                    a.fail()
                } else {
                    match return_of(a.st.types, node_ty(o.val()), true) {
                        Some(return_ty) => done(
                            a.st,
                            typed(
                                node,
                                NodeKind::FuncCall {
                                    callee: Box::new(o.val()),
                                    args: a.val(),
                                    ret_buf_local,
                                },
                                return_ty,
                            ),
                        ),
                        None => wrong(a.st, node.span, Message::NotAFunction),
                    }
                }
            }
        },
        NodeKind::Addr(expr) => {
            let o = infer(st, *expr);
            if o.r is Err {
                o.fail()
            } else {
                done(
                    with_types(o.st, with_ptr(o.st.types, node_ty(o.val()))),
                    typed(node, NodeKind::Addr(Box::new(o.val())), next_type(o.st.types)),
                )
            }
        },
        NodeKind::Deref(expr) => {
            let o = infer(st, *expr);
            if o.r is Err {
                o.fail()
            } else {
                match base_of(o.st.types, node_ty(o.val())) {
                    None => wrong(o.st, node.span, Message::InvalidDeref),
                    Some(base) => if base == Type::Void {
                        wrong(o.st, node.span, Message::DerefVoid)
                    } else {
                        done(o.st, typed(node, NodeKind::Deref(Box::new(o.val())), base))
                    },
                }
            }
        },
        NodeKind::Neg(expr) => {
            let o = infer(st, *expr);
            if o.r is Err {
                o.fail()
            } else {
                let ty = node_ty(o.val());
                if ty_is_flonum(ty) {
                    done(
                        o.st,
                        typed(node, NodeKind::Neg(Box::new(cast_node(o.val(), ty))), ty),
                    )
                } else {
                    match ty_promote(ty) {
                        None => wrong(o.st, node.span, Message::InvalidOperandType),
                        Some(ty) => done(
                            o.st,
                            typed(node, NodeKind::Neg(Box::new(cast_node(o.val(), ty))), ty),
                        ),
                    }
                }
            }
        },
        NodeKind::Not(expr) => {
            let o = infer(st, *expr);
            if o.r is Err {
                o.fail()
            } else {
                done(
                    o.st,
                    typed(
                        node,
                        NodeKind::Not(Box::new(o.val())),
                        Type::Arith(ArithType::Int),
                    ),
                )
            }
        },
        NodeKind::BitNot(expr) => {
            let o = infer(st, *expr);
            if o.r is Err {
                o.fail()
            } else {
                match ty_promote(node_ty(o.val())) {
                    None => wrong(o.st, node.span, Message::InvalidOperandType),
                    Some(ty) => done(
                        o.st,
                        typed(node, NodeKind::BitNot(Box::new(cast_node(o.val(), ty))), ty),
                    ),
                }
            }
        },
        NodeKind::Entity(entity) => done(st, typed(node, node.kind, entity_ty(st, entity))),
        NodeKind::Assign { lhs, rhs } => {
            let l = infer(st, *lhs);
            if l.r is Err {
                l.fail()
            } else {
                let r = infer(l.st, *rhs);
                if r.r is Err {
                    r.fail()
                } else {
                    let ty = node_ty(l.val());
                    if array_of(r.st.types, ty) is Some {
                        wrong(r.st, l.val().span, Message::NotAnLvalue)
                    } else {
                        let rhs = if is_sou_ty(r.st.types, ty) {
                            r.val()
                        } else {
                            cast_node(r.val(), ty)
                        };
                        done(
                            r.st,
                            typed(
                                node,
                                NodeKind::Assign { lhs: Box::new(l.val()), rhs: Box::new(rhs) },
                                ty,
                            ),
                        )
                    }
                }
            }
        },
        NodeKind::Comma { lhs, rhs } => {
            let l = infer(st, *lhs);
            if l.r is Err {
                l.fail()
            } else {
                let r = infer(l.st, *rhs);
                if r.r is Err {
                    r.fail()
                } else {
                    done(
                        r.st,
                        typed(
                            node,
                            NodeKind::Comma { lhs: Box::new(l.val()), rhs: Box::new(r.val()) },
                            node_ty(r.val()),
                        ),
                    )
                }
            }
        },
        NodeKind::LogicalAnd { lhs, rhs } => {
            let l = infer(st, *lhs);
            if l.r is Err {
                l.fail()
            } else {
                let r = infer(l.st, *rhs);
                if r.r is Err {
                    r.fail()
                } else {
                    done(
                        r.st,
                        typed(
                            node,
                            NodeKind::LogicalAnd {
                                lhs: Box::new(l.val()),
                                rhs: Box::new(r.val()),
                            },
                            Type::Arith(ArithType::Int),
                        ),
                    )
                }
            }
        },
        NodeKind::LogicalOr { lhs, rhs } => {
            let l = infer(st, *lhs);
            if l.r is Err {
                l.fail()
            } else {
                let r = infer(l.st, *rhs);
                if r.r is Err {
                    r.fail()
                } else {
                    done(
                        r.st,
                        typed(
                            node,
                            NodeKind::LogicalOr {
                                lhs: Box::new(l.val()),
                                rhs: Box::new(r.val()),
                            },
                            Type::Arith(ArithType::Int),
                        ),
                    )
                }
            }
        },
        NodeKind::Binary { op, lhs, rhs } => {
            let l = infer(st, *lhs);
            if l.r is Err {
                l.fail()
            } else {
                let r = infer(l.st, *rhs);
                if r.r is Err {
                    r.fail()
                } else {
                    infer_binary(r.st, node, op, l.val(), r.val())
                }
            }
        },
        NodeKind::Conditional { cond, then_expr, else_expr } => {
            let c = infer(st, *cond);
            if c.r is Err {
                c.fail()
            } else {
                let t = infer(c.st, *then_expr);
                if t.r is Err {
                    t.fail()
                } else {
                    let e = infer(t.st, *else_expr);
                    if e.r is Err {
                        e.fail()
                    } else {
                        let then_ty = node_ty(t.val());
                        let else_ty = node_ty(e.val());
                        if then_ty == Type::Void || else_ty == Type::Void {
                            done(
                                e.st,
                                typed(
                                    node,
                                    NodeKind::Conditional {
                                        cond: Box::new(c.val()),
                                        then_expr: Box::new(t.val()),
                                        else_expr: Box::new(e.val()),
                                    },
                                    Type::Void,
                                ),
                            )
                        } else {
                            let (types, ty) = coerced(e.st.types, then_ty, else_ty);
                            done(
                                with_types(e.st, types),
                                typed(
                                    node,
                                    NodeKind::Conditional {
                                        cond: Box::new(c.val()),
                                        then_expr: Box::new(cast_node(t.val(), ty)),
                                        else_expr: Box::new(cast_node(e.val(), ty)),
                                    },
                                    ty,
                                ),
                            )
                        }
                    }
                }
            }
        },
        NodeKind::Member { parent, member } => done(st, typed(node, node.kind, member.ty)),
        NodeKind::StmtExpr(body) => {
            let o = infer_stmts(st, body);
            if o.r is Err {
                o.fail()
            } else {
                match value_ty(o.val()) {
                    Some(ty) => done(o.st, typed(node, NodeKind::StmtExpr(o.val()), ty)),
                    None => wrong(o.st, node.span, Message::VoidStmtExpr),
                }
            }
        },
        NodeKind::Num(_) | NodeKind::Flonum(_) | NodeKind::Cast(_) | NodeKind::Dummy => done(
            st,
            typed(node, node.kind, Type::Dummy),
        ),
    }
}

/// Give every expression of a list its type.
#[verifier::opaque]
pub open spec fn infer_list(st: ParserState, nodes: NodeList) -> Out<NodeList>
    decreases nodes, 1int,
{
    match nodes {
        NodeList::Nil => done(st, NodeList::Nil),
        NodeList::Cons(head, tail) => {
            let h = infer(st, *head);
            if h.r is Err {
                h.fail()
            } else {
                let t = infer_list(h.st, *tail);
                if t.r is Err {
                    t.fail()
                } else {
                    done(t.st, NodeList::Cons(Box::new(h.val()), Box::new(t.val())))
                }
            }
        },
    }
}

/// Give every expression of a list of statements its type.
#[verifier::opaque]
pub open spec fn infer_stmts(st: ParserState, stmts: StmtList) -> Out<StmtList>
    decreases stmts, 1int,
{
    match stmts {
        StmtList::Nil => done(st, StmtList::Nil),
        StmtList::Cons(head, tail) => {
            let h = infer_stmt(st, *head);
            if h.r is Err {
                h.fail()
            } else {
                let t = infer_stmts(h.st, *tail);
                if t.r is Err {
                    t.fail()
                } else {
                    done(t.st, StmtList::Cons(Box::new(h.val()), Box::new(t.val())))
                }
            }
        },
    }
}

/// Give an optional expression its type.
#[verifier::opaque]
pub open spec fn infer_opt(st: ParserState, node: Option<Node>) -> Out<Option<Node>>
    decreases node, 1int,
{
    match node {
        None => done(st, None),
        Some(node) => {
            let o = infer(st, node);
            if o.r is Err {
                o.fail()
            } else {
                done(o.st, Some(o.val()))
            }
        },
    }
}

/// Give every expression of an optional statement its type.
#[verifier::opaque]
pub open spec fn infer_opt_stmt(st: ParserState, stmt: Option<Box<Stmt>>) -> Out<Option<Box<Stmt>>>
    decreases stmt, 1int,
{
    match stmt {
        None => done(st, None),
        Some(stmt) => {
            let o = infer_stmt(st, *stmt);
            if o.r is Err {
                o.fail()
            } else {
                done(o.st, Some(Box::new(o.val())))
            }
        },
    }
}

/// Give every expression of a statement its type.
#[verifier::opaque]
pub open spec fn infer_stmt(st: ParserState, stmt: Stmt) -> Out<Stmt>
    decreases stmt, 1int,
{
    let o = infer_stmt_kind(st, stmt.kind);
    if o.r is Err {
        o.fail()
    } else {
        done(o.st, Stmt { kind: o.val(), span: stmt.span })
    }
}

/// Give every expression in the parts of a statement its type.
pub open spec fn infer_stmt_kind(st: ParserState, kind: StmtKind) -> Out<StmtKind>
    decreases kind, 1int,
{
    match kind {
        StmtKind::Expr(expr) => {
            let o = infer(st, expr);
            if o.r is Err {
                o.fail()
            } else {
                done(o.st, StmtKind::Expr(o.val()))
            }
        },
        StmtKind::Return(expr) => {
            let o = infer_opt(st, expr);
            if o.r is Err {
                o.fail()
            } else {
                done(o.st, StmtKind::Return(o.val()))
            }
        },
        StmtKind::Loop { init, cond, inc, body, do_while, brk_label, cont_label } => {
            let i = infer_opt_stmt(st, init);
            if i.r is Err {
                i.fail()
            } else {
                let c = infer_opt(i.st, cond);
                if c.r is Err {
                    c.fail()
                } else {
                    let n = infer_opt(c.st, inc);
                    if n.r is Err {
                        n.fail()
                    } else {
                        let b = infer_stmt(n.st, *body);
                        if b.r is Err {
                            b.fail()
                        } else {
                            done(
                                b.st,
                                StmtKind::Loop {
                                        init: i.val(),
                                        cond: c.val(),
                                        inc: n.val(),
                                        body: Box::new(b.val()),
                                        do_while,
                                        brk_label,
                                        cont_label,
                                    },
                            )
                        }
                    }
                }
            }
        },
        StmtKind::If { cond, then_branch, else_branch } => {
            let c = infer(st, cond);
            if c.r is Err {
                c.fail()
            } else {
                let t = infer_stmt(c.st, *then_branch);
                if t.r is Err {
                    t.fail()
                } else {
                    let e = infer_opt_stmt(t.st, else_branch);
                    if e.r is Err {
                        e.fail()
                    } else {
                        done(
                            e.st,
                            StmtKind::If {
                                    cond: c.val(),
                                    then_branch: Box::new(t.val()),
                                    else_branch: e.val(),
                                },
                        )
                    }
                }
            }
        },
        StmtKind::Switch { cond, body, cases, default, brk_label } => {
            let c = infer(st, cond);
            if c.r is Err {
                c.fail()
            } else {
                let b = infer_stmt(c.st, *body);
                if b.r is Err {
                    b.fail()
                } else {
                    done(
                        b.st,
                        StmtKind::Switch {
                                cond: c.val(),
                                body: Box::new(b.val()),
                                cases,
                                default,
                                brk_label,
                            },
                    )
                }
            }
        },
        StmtKind::Block(stmts) => {
            let o = infer_stmts(st, stmts);
            if o.r is Err {
                o.fail()
            } else {
                done(o.st, StmtKind::Block(o.val()))
            }
        },
        StmtKind::Label { label, body, name } => {
            let o = infer_stmt(st, *body);
            if o.r is Err {
                o.fail()
            } else {
                done(
                    o.st,
                    StmtKind::Label { label, body: Box::new(o.val()), name },
                )
            }
        },
        StmtKind::Jump { .. } | StmtKind::MemzeroLocal(_) => done(st, kind),
    }
}

/// Give an expression its type, and cast it to another.
#[verifier::opaque]
pub open spec fn apply_cast(st: ParserState, node: Node, ty: Type) -> Out<Node> {
    let o = infer(st, node);
    if o.r is Err {
        o.fail()
    } else {
        done(o.st, Node { kind: NodeKind::Cast(Box::new(o.val())), span: node.span, ty: Some(ty) })
    }
}

fn cast_to(node: Node, ty: Type) -> (r: Node)
    ensures
        r == cast_node(node, ty),
{
    let span = node.span;
    Node::cast(node, ty, span)
}

/// The type of the last statement of a statement expression, if it has one.
fn value_type(stmts: &StmtList) -> (r: Option<Type>)
    ensures
        r == value_ty(*stmts),
    decreases stmts,
{
    match stmts {
        StmtList::Nil => None,
        StmtList::Cons(stmt, tail) => match &**tail {
            StmtList::Nil => match &stmt.kind {
                StmtKind::Expr(expr) => Some(expr.known_ty()),
                _ => None,
            },
            _ => value_type(tail),
        },
    }
}

impl Parser {
    /// Return the type of a named entity.
    fn entity_type(&self, entity: EntityRef) -> (r: Type)
        ensures
            r == entity_ty(self@, entity),
    {
        match entity {
            EntityRef::Local(id) => self.local_type(id),
            EntityRef::Global(id) => self.global_type(id),
            EntityRef::Function(id) => self.function_type(id),
        }
    }

    /// Apply a cast on the given node to the given type.
    pub fn apply_cast(&mut self, node: Node, ty: Type) -> (r: Result<Node, Error>)
        requires
            old(self).inv(),
        ensures
            final(self).inv(),
            apply_cast(old(self)@, node, ty) == (Out { st: final(self)@, r }),
            pauses(old(self)@, final(self)@, true),
            r is Ok ==> r->Ok_0.ty == Some(ty),
    {
        proof {
            reveal(apply_cast);
        }
        let span = node.span;
        let node = self.infer_type(node)?;
        Ok(Node::cast(node, ty, span))
    }

    /// Give a binary operation its type, casting its operands.
    fn infer_binary_type(
        &mut self,
        op: BinaryOp,
        lhs: Node,
        rhs: Node,
        span: crate::source::SourceSpan,
        Ghost(node): Ghost<Node>,
    ) -> (r: Result<Node, Error>)
        requires
            old(self).inv(),
            span == node.span,
        ensures
            final(self).inv(),
            infer_binary(old(self)@, node, op, lhs, rhs) == (Out { st: final(self)@, r }),
            pauses(old(self)@, final(self)@, true),
            r is Ok ==> r->Ok_0.ty is Some,
    {
        proof {
            reveal(infer_binary);
        }
        let lhs_ty = lhs.known_ty();
        let rhs_ty = rhs.known_ty();
        let fits = match op {
            BinaryOp::Mul | BinaryOp::Div => lhs_ty.is_arith() && rhs_ty.is_arith(),
            BinaryOp::Mod | BinaryOp::BitAnd | BinaryOp::BitOr | BinaryOp::BitXor => {
                lhs_ty.is_integer() && rhs_ty.is_integer()
            },
            _ => true,
        };
        if !fits {
            return Err(Error::Terminate(span, Message::InvalidOperands));
        }
        match op {
            BinaryOp::BitLeftShift | BinaryOp::BitRightShift => {
                let Some(lhs_ty) = lhs_ty.promote_int() else {
                    return Err(Error::Terminate(span, Message::InvalidOperands));
                };
                let Some(rhs_ty) = rhs_ty.promote_int() else {
                    return Err(Error::Terminate(span, Message::InvalidOperands));
                };
                let kind = NodeKind::Binary {
                    op,
                    lhs: Box::new(cast_to(lhs, lhs_ty)),
                    rhs: Box::new(cast_to(rhs, rhs_ty)),
                };
                Ok(Node { kind, span, ty: Some(lhs_ty) })
            },
            _ => {
                // Usual arithmetic conversion
                let common = self.coerce(lhs_ty, rhs_ty);
                let ty = match op {
                    // C comparisons give int 0/1 not bool
                    BinaryOp::Eq | BinaryOp::Ne | BinaryOp::Lt | BinaryOp::Le => Type::Arith(
                        ArithType::Int,
                    ),
                    _ => common,
                };
                let kind = NodeKind::Binary {
                    op,
                    lhs: Box::new(cast_to(lhs, common)),
                    rhs: Box::new(cast_to(rhs, common)),
                };
                Ok(Node { kind, span, ty: Some(ty) })
            },
        }
    }

    /// Infer types for an expression subtree.
    pub fn infer_type(&mut self, node: Node) -> (r: Result<Node, Error>)
        requires
            old(self).inv(),
        ensures
            final(self).inv(),
            infer(old(self)@, node) == (Out { st: final(self)@, r }),
            pauses(old(self)@, final(self)@, true),
            r is Ok ==> r->Ok_0.ty is Some,
        decreases node, 1int,
    {
        proof {
            reveal(infer);
        }
        if node.ty.is_some() {
            return Ok(node);
        }
        self.infer_untyped(node)
    }

    /// Infer types for an expression subtree that has no type yet.
    fn infer_untyped(&mut self, node: Node) -> (r: Result<Node, Error>)
        requires
            old(self).inv(),
        ensures
            final(self).inv(),
            infer_untyped(old(self)@, node) == (Out { st: final(self)@, r }),
            pauses(old(self)@, final(self)@, true),
            r is Ok ==> r->Ok_0.ty is Some,
        decreases node, 0int,
    {
        proof {
            reveal(infer);
            reveal(infer_list);
            reveal(infer_stmts);
        }
        let ghost whole = node;
        let span = node.span;
        match node.kind {
            NodeKind::FuncCall { callee, args, ret_buf_local } => {
                let callee = self.infer_type(*callee)?;
                let args = self.infer_type_list(args)?;
                let Some(ty) = self.return_type(callee.known_ty(), true) else {
                    return Err(Error::Terminate(span, Message::NotAFunction));
                };
                Ok(Node {
                    kind: NodeKind::FuncCall { callee: Box::new(callee), args, ret_buf_local },
                    span,
                    ty: Some(ty),
                })
            },
            NodeKind::Addr(expr) => {
                let expr = self.infer_type(*expr)?;
                let ty = self.new_ptr(expr.known_ty());
                Ok(Node { kind: NodeKind::Addr(Box::new(expr)), span, ty: Some(ty) })
            },
            NodeKind::Deref(expr) => {
                let expr = self.infer_type(*expr)?;
                let Some(base) = self.base(expr.known_ty()) else {
                    return Err(Error::Terminate(span, Message::InvalidDeref));
                };
                if base == Type::Void {
                    return Err(Error::Terminate(span, Message::DerefVoid));
                }
                Ok(Node { kind: NodeKind::Deref(Box::new(expr)), span, ty: Some(base) })
            },
            NodeKind::Neg(expr) => {
                let expr = self.infer_type(*expr)?;
                let mut ty = expr.known_ty();
                if !ty.is_flonum() {
                    let Some(promoted) = ty.promote_int() else {
                        return Err(Error::Terminate(span, Message::InvalidOperandType));
                    };
                    ty = promoted;
                }
                Ok(Node { kind: NodeKind::Neg(Box::new(cast_to(expr, ty))), span, ty: Some(ty) })
            },
            NodeKind::Not(expr) => {
                let expr = self.infer_type(*expr)?;
                // C logical operators give int 0/1 not bool
                Ok(Node {
                    kind: NodeKind::Not(Box::new(expr)),
                    span,
                    ty: Some(Type::Arith(ArithType::Int)),
                })
            },
            NodeKind::BitNot(expr) => {
                let expr = self.infer_type(*expr)?;
                let Some(ty) = expr.known_ty().promote_int() else {
                    return Err(Error::Terminate(span, Message::InvalidOperandType));
                };
                Ok(Node { kind: NodeKind::BitNot(Box::new(cast_to(expr, ty))), span, ty: Some(ty) })
            },
            NodeKind::Entity(entity) => {
                let ty = self.entity_type(entity);
                Ok(Node { kind: NodeKind::Entity(entity), span, ty: Some(ty) })
            },
            NodeKind::Assign { lhs, rhs } => {
                let lhs = self.infer_type(*lhs)?;
                let rhs = self.infer_type(*rhs)?;
                let ty = lhs.known_ty();
                if self.as_array(ty).is_some() {
                    return Err(Error::Terminate(lhs.span, Message::NotAnLvalue));
                }
                let rhs = if self.is_struct_or_union(ty) {
                    rhs
                } else {
                    cast_to(rhs, ty)
                };
                Ok(Node {
                    kind: NodeKind::Assign { lhs: Box::new(lhs), rhs: Box::new(rhs) },
                    span,
                    ty: Some(ty),
                })
            },
            NodeKind::Comma { lhs, rhs } => {
                let lhs = self.infer_type(*lhs)?;
                let rhs = self.infer_type(*rhs)?;
                let ty = rhs.known_ty();
                Ok(Node {
                    kind: NodeKind::Comma { lhs: Box::new(lhs), rhs: Box::new(rhs) },
                    span,
                    ty: Some(ty),
                })
            },
            NodeKind::LogicalAnd { lhs, rhs } => {
                let lhs = self.infer_type(*lhs)?;
                let rhs = self.infer_type(*rhs)?;
                Ok(Node {
                    kind: NodeKind::LogicalAnd { lhs: Box::new(lhs), rhs: Box::new(rhs) },
                    span,
                    ty: Some(Type::Arith(ArithType::Int)),
                })
            },
            NodeKind::LogicalOr { lhs, rhs } => {
                let lhs = self.infer_type(*lhs)?;
                let rhs = self.infer_type(*rhs)?;
                Ok(Node {
                    kind: NodeKind::LogicalOr { lhs: Box::new(lhs), rhs: Box::new(rhs) },
                    span,
                    ty: Some(Type::Arith(ArithType::Int)),
                })
            },
            NodeKind::Binary { op, lhs, rhs } => {
                let lhs = self.infer_type(*lhs)?;
                let rhs = self.infer_type(*rhs)?;
                return self.infer_binary_type(op, lhs, rhs, span, Ghost(whole));
            },
            NodeKind::Conditional { cond, then_expr, else_expr } => {
                let cond = self.infer_type(*cond)?;
                let then_expr = self.infer_type(*then_expr)?;
                let else_expr = self.infer_type(*else_expr)?;
                let then_ty = then_expr.known_ty();
                let else_ty = else_expr.known_ty();
                if then_ty == Type::Void || else_ty == Type::Void {
                    let kind = NodeKind::Conditional {
                            cond: Box::new(cond),
                            then_expr: Box::new(then_expr),
                            else_expr: Box::new(else_expr),
                        };
                    Ok(Node { kind, span, ty: Some(Type::Void) })
                } else {
                    let ty = self.coerce(then_ty, else_ty);
                    let kind = NodeKind::Conditional {
                            cond: Box::new(cond),
                            then_expr: Box::new(cast_to(then_expr, ty)),
                            else_expr: Box::new(cast_to(else_expr, ty)),
                        };
                    Ok(Node { kind, span, ty: Some(ty) })
                }
            },
            NodeKind::Member { parent, member } => {
                Ok(Node { kind: NodeKind::Member { parent, member }, span, ty: Some(member.ty) })
            },
            NodeKind::StmtExpr(body) => {
                let body = self.infer_type_stmts(body)?;
                let Some(ty) = value_type(&body) else {
                    return Err(Error::Terminate(span, Message::VoidStmtExpr));
                };
                Ok(Node { kind: NodeKind::StmtExpr(body), span, ty: Some(ty) })
            },
            kind => Ok(Node { kind, span, ty: Some(Type::Dummy) }),
        }
    }

    /// Infer types for a list of expressions.
    pub fn infer_type_list(&mut self, nodes: NodeList) -> (r: Result<NodeList, Error>)
        requires
            old(self).inv(),
        ensures
            final(self).inv(),
            infer_list(old(self)@, nodes) == (Out { st: final(self)@, r }),
            pauses(old(self)@, final(self)@, true),
        decreases nodes, 1int,
    {
        proof {
            reveal(infer_list);
            reveal(infer);
        }
        match nodes {
            NodeList::Nil => Ok(NodeList::Nil),
            NodeList::Cons(head, tail) => {
                let head = self.infer_type(*head)?;
                let tail = self.infer_type_list(*tail)?;
                Ok(NodeList::Cons(Box::new(head), Box::new(tail)))
            },
        }
    }

    /// Infer types for a list of statements.
    pub fn infer_type_stmts(&mut self, stmts: StmtList) -> (r: Result<StmtList, Error>)
        requires
            old(self).inv(),
        ensures
            final(self).inv(),
            infer_stmts(old(self)@, stmts) == (Out { st: final(self)@, r }),
            pauses(old(self)@, final(self)@, true),
        decreases stmts, 1int,
    {
        proof {
            reveal(infer_stmts);
            reveal(infer_stmt);
        }
        match stmts {
            StmtList::Nil => Ok(StmtList::Nil),
            StmtList::Cons(head, tail) => {
                let head = self.infer_type_stmt(*head)?;
                let tail = self.infer_type_stmts(*tail)?;
                Ok(StmtList::Cons(Box::new(head), Box::new(tail)))
            },
        }
    }

    fn infer_type_opt(&mut self, node: Option<Node>) -> (r: Result<Option<Node>, Error>)
        requires
            old(self).inv(),
        ensures
            final(self).inv(),
            infer_opt(old(self)@, node) == (Out { st: final(self)@, r }),
            pauses(old(self)@, final(self)@, true),
        decreases node, 1int,
    {
        proof {
            reveal(infer_opt);
            reveal(infer);
        }
        match node {
            None => Ok(None),
            Some(node) => {
                let node = self.infer_type(node)?;
                Ok(Some(node))
            },
        }
    }

    fn infer_type_opt_stmt(&mut self, stmt: Option<Box<Stmt>>) -> (r: Result<
        Option<Box<Stmt>>,
        Error,
    >)
        requires
            old(self).inv(),
        ensures
            final(self).inv(),
            infer_opt_stmt(old(self)@, stmt) == (Out { st: final(self)@, r }),
            pauses(old(self)@, final(self)@, true),
        decreases stmt, 1int,
    {
        proof {
            reveal(infer_opt_stmt);
            reveal(infer_stmt);
        }
        match stmt {
            None => Ok(None),
            Some(stmt) => {
                let stmt = self.infer_type_stmt(*stmt)?;
                Ok(Some(Box::new(stmt)))
            },
        }
    }

    /// Infer types for a statement subtree.
    pub fn infer_type_stmt(&mut self, stmt: Stmt) -> (r: Result<Stmt, Error>)
        requires
            old(self).inv(),
        ensures
            final(self).inv(),
            infer_stmt(old(self)@, stmt) == (Out { st: final(self)@, r }),
            pauses(old(self)@, final(self)@, true),
        decreases stmt, 1int,
    {
        proof {
            reveal(infer_stmt);
        }
        let kind = self.infer_type_stmt_kind(stmt.kind)?;
        Ok(Stmt { kind, span: stmt.span })
    }

    fn infer_type_stmt_kind(&mut self, kind: StmtKind) -> (r: Result<StmtKind, Error>)
        requires
            old(self).inv(),
        ensures
            final(self).inv(),
            infer_stmt_kind(old(self)@, kind) == (Out { st: final(self)@, r }),
            pauses(old(self)@, final(self)@, true),
        decreases kind, 1int,
    {
        proof {
            reveal(infer);
            reveal(infer_stmts);
            reveal(infer_stmt);
            reveal(infer_opt);
            reveal(infer_opt_stmt);
        }
        match kind {
            StmtKind::Expr(expr) => {
                let expr = self.infer_type(expr)?;
                Ok(StmtKind::Expr(expr))
            },
            StmtKind::Return(expr) => {
                let expr = self.infer_type_opt(expr)?;
                Ok(StmtKind::Return(expr))
            },
            StmtKind::Loop { init, cond, inc, body, do_while, brk_label, cont_label } => {
                let init = self.infer_type_opt_stmt(init)?;
                let cond = self.infer_type_opt(cond)?;
                let inc = self.infer_type_opt(inc)?;
                let body = Box::new(self.infer_type_stmt(*body)?);
                Ok(StmtKind::Loop { init, cond, inc, body, do_while, brk_label, cont_label })
            },
            StmtKind::If { cond, then_branch, else_branch } => {
                let cond = self.infer_type(cond)?;
                let then_branch = Box::new(self.infer_type_stmt(*then_branch)?);
                let else_branch = self.infer_type_opt_stmt(else_branch)?;
                Ok(StmtKind::If { cond, then_branch, else_branch })
            },
            StmtKind::Switch { cond, body, cases, default, brk_label } => {
                let cond = self.infer_type(cond)?;
                let body = Box::new(self.infer_type_stmt(*body)?);
                Ok(StmtKind::Switch { cond, body, cases, default, brk_label })
            },
            StmtKind::Block(stmts) => {
                let stmts = self.infer_type_stmts(stmts)?;
                Ok(StmtKind::Block(stmts))
            },
            StmtKind::Label { label, body, name } => {
                let body = Box::new(self.infer_type_stmt(*body)?);
                Ok(StmtKind::Label { label, body, name })
            },
            kind => Ok(kind),
        }
    }
}

} // verus!
