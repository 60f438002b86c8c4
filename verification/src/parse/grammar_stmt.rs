//! The grammar of statements and declarations.
//!
//! See [`crate::parse::grammar`] for how the rules are written.

use vstd::prelude::*;
use crate::ast::{
    case_list, stmt_list, CaseLabel, FunctionView, GlobalView, LocalVar, Name, Node, Stmt, StmtKind,
    StmtList, StorageView,
};
use crate::constexpr::ConstValue;
use crate::error::{DeclspecContext, Error, Message};
use crate::parse::construct::{init_ty, new_global_init, new_local_init};
use crate::parse::grammar::{
    constexpr, declarator, declspec, expr, initializer, Declspec, Parameter, StorageClass,
};
use crate::parse::infer::{apply_cast, infer, infer_stmt};
use crate::parse::labels::{labels_of_stmt, resolved_stmt};
use crate::parse::state::{
    adv, at, at_kw, at_typename, bound, cur, declare_function, declare_global, done, floated,
    fresh_label, function_ty, here, ident_at, in_scope, new_array, next_is, out_of_scope, rem,
    return_of, rolled_back, skip_punct, speculation, stuck, warned, with_global, with_local, wrong,
    Out, ParserState, SwitchView,
};
use crate::scope::{ident_in, OrdinaryIdent};
use crate::source::SourceSpan;
use crate::tokenize::{Keyword, Punct, TokenKind};
use crate::types::{
    const_of, func_of, is_func_ty, is_incomplete_ty, same, ty_promote, ArithType, ConstType, Symbol,
    Type, TypeForm,
};
use crate::utils::VA_AREA_SIZE;

verus! {

/// What the function being parsed returns.
#[verifier::opaque]
pub open spec fn current_return_ty(st: ParserState) -> Type {
    match st.active_function {
        Some(id) => match return_of(st.types, function_ty(st, id), false) {
            Some(ty) => ty,
            None => Type::Dummy,
        },
        None => Type::Dummy,
    }
}

/// ```bnf
/// <stmt> ::=
///   "return" <expr>? ";"
///   | "if" "(" <expr> ")" <stmt> ("else" <stmt>)?
///   | "switch" "(" <expr> ")" <stmt>
///   | "case" <constexpr> ":" <stmt>
///   | "default" ":" <stmt>
///   | "for" "(" <expr-stmt> <expr>? ";" <expr>? ")" <stmt>
///   | "while" "(" <expr> ")" <stmt>
///   | "do" <stmt> "while" "(" <expr> ")" ";"
///   | "goto" <ident> ";"
///   | "break" ";"
///   | "continue" ";"
///   | <ident> ":" <stmt>
///   | "{" <compound-stmt>
///   | <expr-stmt>
/// ```
pub open spec fn stmt(st: ParserState) -> Out<Stmt>
    decreases rem(st), 49int,
{
    stmt_rule(st)
}

pub open spec fn stmt_rule(st: ParserState) -> Out<Stmt>
    decreases rem(st), 48int,
{
    let span = here(st);
    match cur(st) {
        TokenKind::Keyword(Keyword::Return) => return_stmt(adv(st), span),
        TokenKind::Keyword(Keyword::If) => if_stmt(adv(st), span),
        TokenKind::Keyword(Keyword::Switch) => switch_stmt(adv(st), span),
        TokenKind::Keyword(Keyword::Case) => case_stmt(adv(st), span),
        TokenKind::Keyword(Keyword::Default) => default_stmt(adv(st), span),
        TokenKind::Keyword(Keyword::For) => for_stmt(adv(st), span),
        TokenKind::Keyword(Keyword::While) => while_stmt(adv(st), span),
        TokenKind::Keyword(Keyword::Do) => do_stmt(adv(st), span),
        TokenKind::Keyword(Keyword::Goto) => goto_stmt(adv(st), span),
        TokenKind::Keyword(Keyword::Break) => match st.active_brk_label {
            None => wrong(st, span, Message::BreakOutsideLoop),
            Some(label) => jump_stmt(adv(st), label, span),
        },
        TokenKind::Keyword(Keyword::Continue) => match st.active_cont_label {
            None => wrong(st, span, Message::ContinueOutsideLoop),
            Some(label) => jump_stmt(adv(st), label, span),
        },
        TokenKind::Punct(Punct::LBrace) => {
            let b = compound_stmt(adv(st));
            if b.r is Err {
                b.fail()
            } else {
                done(b.st, Stmt { kind: StmtKind::Block(b.val()), span })
            }
        },
        TokenKind::Ident(name) => if next_is(st, Punct::Colon) {
            label_stmt(adv(adv(st)), name, span)
        } else {
            expr_stmt(st)
        },
        _ => expr_stmt(st),
    }
}

/// ```bnf
/// "return" <expr>? ";"
/// ```
pub open spec fn return_stmt(st: ParserState, span: SourceSpan) -> Out<Stmt>
    decreases rem(st), 47int,
{
    return_stmt_rule(st, span)
}

pub open spec fn return_stmt_rule(st: ParserState, span: SourceSpan) -> Out<Stmt>
    decreases rem(st), 46int,
{
    let ty = current_return_ty(st);
    if at(st, Punct::Semi) {
        let st1 = if ty != Type::Void {
            warned(st, span, Message::ReturnWithoutValue)
        } else {
            st
        };
        done(adv(st1), Stmt { kind: StmtKind::Return(None), span })
    } else {
        return_value(st, ty, span)
    }
}

/// The value of a return statement, cast to the type that is returned.
pub open spec fn return_value(st: ParserState, ty: Type, span: SourceSpan) -> Out<Stmt>
    decreases rem(st), 45int,
{
    return_value_rule(st, ty, span)
}

pub open spec fn return_value_rule(st: ParserState, ty: Type, span: SourceSpan) -> Out<Stmt>
    decreases rem(st), 44int,
{
    let e = expr_until(st, Punct::Semi);
    if e.r is Err {
        e.fail()
    } else {
        returned(e.st, e.val(), ty, span)
    }
}

/// A return statement with a value.
#[verifier::opaque]
pub open spec fn returned(st: ParserState, value: Node, ty: Type, span: SourceSpan) -> Out<Stmt> {
    let st1 = if ty == Type::Void {
        warned(st, value.span, Message::ReturnWithValue)
    } else {
        st
    };
    let c = apply_cast(st1, value, ty);
    if c.r is Err {
        c.fail()
    } else {
        done(c.st, Stmt { kind: StmtKind::Return(Some(c.val())), span })
    }
}

/// ```bnf
/// "(" <expr> ")"
/// ```
pub open spec fn condition(st: ParserState) -> Out<Node>
    decreases rem(st), 43int,
{
    condition_rule(st)
}

pub open spec fn condition_rule(st: ParserState) -> Out<Node>
    decreases rem(st), 42int,
{
    let p = skip_punct(st, Punct::LParen);
    if p.r is Err {
        p.fail()
    } else if rem(p.st) >= rem(st) {
        stuck(st)
    } else {
        let e = expr(p.st);
        if e.r is Err {
            e.fail()
        } else {
            let q = skip_punct(e.st, Punct::RParen);
            if q.r is Err {
                q.fail()
            } else {
                done(q.st, e.val())
            }
        }
    }
}

/// ```bnf
/// "if" "(" <expr> ")" <stmt> ("else" <stmt>)?
/// ```
pub open spec fn if_stmt(st: ParserState, span: SourceSpan) -> Out<Stmt>
    decreases rem(st), 47int,
{
    if_stmt_rule(st, span)
}

pub open spec fn if_stmt_rule(st: ParserState, span: SourceSpan) -> Out<Stmt>
    decreases rem(st), 46int,
{
    let c = condition(st);
    if c.r is Err {
        c.fail()
    } else if rem(c.st) >= rem(st) {
        stuck(st)
    } else {
        let t = stmt(c.st);
        if t.r is Err {
            t.fail()
        } else if at_kw(t.st, Keyword::Else) {
            if rem(adv(t.st)) >= rem(st) {
                stuck(st)
            } else {
                let e = stmt(adv(t.st));
                if e.r is Err {
                    e.fail()
                } else {
                    done(
                        e.st,
                        Stmt {
                            kind: StmtKind::If {
                                cond: c.val(),
                                then_branch: Box::new(t.val()),
                                else_branch: Some(Box::new(e.val())),
                            },
                            span,
                        },
                    )
                }
            }
        } else {
            done(
                t.st,
                Stmt {
                    kind: StmtKind::If {
                        cond: c.val(),
                        then_branch: Box::new(t.val()),
                        else_branch: None,
                    },
                    span,
                },
            )
        }
    }
}

/// A switch that has no cases yet.
pub open spec fn new_switch(ty: ConstType) -> SwitchView {
    SwitchView { ty, cases: Seq::empty(), default: None }
}

/// ```bnf
/// "switch" "(" <expr> ")" <stmt>
/// ```
pub open spec fn switch_stmt(st: ParserState, span: SourceSpan) -> Out<Stmt>
    decreases rem(st), 47int,
{
    switch_stmt_rule(st, span)
}

pub open spec fn switch_stmt_rule(st: ParserState, span: SourceSpan) -> Out<Stmt>
    decreases rem(st), 46int,
{
    let c = switch_condition(st);
    if c.r is Err {
        c.fail()
    } else {
        match ty_promote(crate::ast::node_ty(c.val())) {
            None => wrong(c.st, span, Message::SwitchNotInteger),
            Some(ty) => match const_of(c.st.types, ty) {
                None => wrong(c.st, span, Message::SwitchNotInteger),
                Some(ty) => {
                    let l = fresh_label(c.st);
                    if l.r is Err {
                        l.fail()
                    } else if rem(l.st) >= rem(st) {
                        stuck(st)
                    } else {
                        let st1 = ParserState {
                            active_brk_label: Some(l.val()),
                            active_switch: Some(new_switch(ty)),
                            ..l.st
                        };
                        let b = stmt(st1);
                        if b.r is Err {
                            b.fail()
                        } else {
                            let switch = match b.st.active_switch {
                                Some(switch) => switch,
                                None => new_switch(ty),
                            };
                            let st2 = ParserState {
                                active_brk_label: l.st.active_brk_label,
                                active_switch: l.st.active_switch,
                                ..b.st
                            };
                            done(
                                st2,
                                Stmt {
                                    kind: StmtKind::Switch {
                                        cond: c.val(),
                                        body: Box::new(b.val()),
                                        cases: case_list(switch.cases),
                                        default: switch.default,
                                        brk_label: l.val(),
                                    },
                                    span,
                                },
                            )
                        }
                    }
                },
            },
        }
    }
}

/// ```bnf
/// "(" <expr> ")"
/// ```
///
/// The expression is given its type before ")" is taken.
pub open spec fn switch_condition(st: ParserState) -> Out<Node>
    decreases rem(st), 43int,
{
    switch_condition_rule(st)
}

pub open spec fn switch_condition_rule(st: ParserState) -> Out<Node>
    decreases rem(st), 42int,
{
    let p = skip_punct(st, Punct::LParen);
    if p.r is Err {
        p.fail()
    } else if rem(p.st) >= rem(st) {
        stuck(st)
    } else {
        let e = expr(p.st);
        if e.r is Err {
            e.fail()
        } else {
            let i = infer(e.st, e.val());
            if i.r is Err {
                i.fail()
            } else {
                let q = skip_punct(i.st, Punct::RParen);
                if q.r is Err {
                    q.fail()
                } else {
                    done(q.st, i.val())
                }
            }
        }
    }
}

/// Whether a switch has a case of the given value.
pub open spec fn has_case(cases: Seq<CaseLabel>, value: ConstValue) -> bool {
    exists|k: int| 0 <= k < cases.len() && (#[trigger] cases[k]).value == value
}

/// ":", the label it stands for, and the statement behind.
pub open spec fn labelled(st: ParserState) -> Out<(usize, Stmt)>
    decreases rem(st), 51int,
{
    labelled_rule(st)
}

pub open spec fn labelled_rule(st: ParserState) -> Out<(usize, Stmt)>
    decreases rem(st), 50int,
{
    let c = skip_punct(st, Punct::Colon);
    if c.r is Err {
        c.fail()
    } else {
        let l = fresh_label(c.st);
        if l.r is Err {
            l.fail()
        } else if rem(l.st) >= rem(st) {
            stuck(st)
        } else {
            let b = stmt(l.st);
            if b.r is Err {
                b.fail()
            } else {
                done(b.st, (l.val(), b.val()))
            }
        }
    }
}

/// ```bnf
/// "case" <constexpr> ":" <stmt>
/// ```
pub open spec fn case_stmt(st: ParserState, span: SourceSpan) -> Out<Stmt>
    decreases rem(st), 53int,
{
    case_stmt_rule(st, span)
}

pub open spec fn case_stmt_rule(st: ParserState, span: SourceSpan) -> Out<Stmt>
    decreases rem(st), 52int,
{
    match st.active_switch {
        None => wrong(st, span, Message::CaseOutsideSwitch),
        Some(switch) => case_of(st, switch.ty, span),
    }
}

/// A case of a switch on a value of the given type.
pub open spec fn case_of(st: ParserState, ty: ConstType, span: SourceSpan) -> Out<Stmt>
    decreases rem(st), 51int,
{
    case_of_rule(st, ty, span)
}

pub open spec fn case_of_rule(st: ParserState, ty: ConstType, span: SourceSpan) -> Out<Stmt>
    decreases rem(st), 50int,
{
    let v = case_value(st, ty);
    if v.r is Err {
        v.fail()
    } else if rem(v.st) >= rem(st) {
        stuck(st)
    } else {
        let b = labelled(v.st);
        if b.r is Err {
            b.fail()
        } else {
            end_case(b.st, v.val(), b.val().0, b.val().1, span)
        }
    }
}

/// The statement behind a case, which is added to the active switch.
#[verifier::opaque]
pub open spec fn end_case(
    st: ParserState,
    value: ConstValue,
    label: usize,
    body: Stmt,
    span: SourceSpan,
) -> Out<Stmt> {
    match add_case(st, CaseLabel { value, label }) {
        Err(message) => wrong(st, span, message),
        Ok(st1) => done(st1, case_label(label, body, span)),
    }
}

/// The value of a case of a switch on a value of the given type.
pub open spec fn case_value(st: ParserState, ty: ConstType) -> Out<ConstValue>
    decreases rem(st), 49int,
{
    case_value_rule(st, ty)
}

pub open spec fn case_value_rule(st: ParserState, ty: ConstType) -> Out<ConstValue>
    decreases rem(st), 48int,
{
    let c = constexpr(st);
    if c.r is Err {
        c.fail()
    } else {
        floated(c.st, c.val().spec_cast(ty, c.st.input.floats))
    }
}

/// The state with one more case in the active switch.
#[verifier::opaque]
pub open spec fn add_case(st: ParserState, case: CaseLabel) -> Result<ParserState, Message> {
    match st.active_switch {
        None => Err(Message::CaseOutsideSwitch),
        Some(switch) => if has_case(switch.cases, case.value) {
            Err(Message::DuplicateCase)
        } else {
            let switch = SwitchView { cases: switch.cases.push(case), ..switch };
            Ok(ParserState { active_switch: Some(switch), ..st })
        },
    }
}

/// No two cases of a switch have the same value: a case that is added keeps them
/// apart.
pub proof fn cases_stay_distinct(st: ParserState, case: CaseLabel)
    requires
        st.active_switch is Some,
        forall|i: int, j: int|
            0 <= i < j < st.active_switch.unwrap().cases.len() ==> (
            #[trigger] st.active_switch.unwrap().cases[i]).value != (
            #[trigger] st.active_switch.unwrap().cases[j]).value,
        add_case(st, case) is Ok,
    ensures
        ({
            let cases = add_case(st, case)->Ok_0.active_switch.unwrap().cases;
            &&& cases == st.active_switch.unwrap().cases.push(case)
            &&& forall|i: int, j: int|
                0 <= i < j < cases.len() ==> (#[trigger] cases[i]).value != (
                #[trigger] cases[j]).value
        }),
{
    reveal(add_case);
    let before = st.active_switch.unwrap().cases;
    assert forall|i: int| 0 <= i < before.len() implies (#[trigger] before[i]).value
        != case.value by {
        assert(!has_case(before, case.value));
    }
}

/// The state with the default label of the active switch set.
#[verifier::opaque]
pub open spec fn add_default(st: ParserState, label: usize) -> Result<ParserState, Message> {
    match st.active_switch {
        None => Err(Message::DefaultOutsideSwitch),
        Some(switch) => if switch.default is Some {
            Err(Message::MultipleDefaults)
        } else {
            let switch = SwitchView { default: Some(label), ..switch };
            Ok(ParserState { active_switch: Some(switch), ..st })
        },
    }
}

pub open spec fn case_label(label: usize, body: Stmt, span: SourceSpan) -> Stmt {
    Stmt { kind: StmtKind::Label { label, body: Box::new(body), name: None }, span }
}

/// ```bnf
/// "default" ":" <stmt>
/// ```
pub open spec fn default_stmt(st: ParserState, span: SourceSpan) -> Out<Stmt>
    decreases rem(st), 53int,
{
    default_stmt_rule(st, span)
}

pub open spec fn default_stmt_rule(st: ParserState, span: SourceSpan) -> Out<Stmt>
    decreases rem(st), 52int,
{
    let b = labelled(st);
    if b.r is Err {
        b.fail()
    } else {
        match add_default(b.st, b.val().0) {
            Err(message) => wrong(b.st, span, message),
            Ok(st1) => done(st1, case_label(b.val().0, b.val().1, span)),
        }
    }
}

/// Fresh labels for the end and for the next round of a loop, which become
/// those that "break" and "continue" jump to.
pub open spec fn loop_labels(st: ParserState) -> Out<(usize, usize)> {
    let b = fresh_label(st);
    if b.r is Err {
        b.fail()
    } else {
        let c = fresh_label(b.st);
        if c.r is Err {
            c.fail()
        } else {
            done(
                ParserState {
                    active_brk_label: Some(b.val()),
                    active_cont_label: Some(c.val()),
                    ..c.st
                },
                (b.val(), c.val()),
            )
        }
    }
}

/// The state after a loop that began at `before`.
pub open spec fn out_of_loop(before: ParserState, after: ParserState) -> ParserState {
    ParserState {
        active_brk_label: before.active_brk_label,
        active_cont_label: before.active_cont_label,
        ..after
    }
}

/// An expression up to the given punctuator, which is taken.
pub open spec fn expr_until(st: ParserState, end: Punct) -> Out<Node>
    decreases rem(st), 43int,
{
    expr_until_rule(st, end)
}

pub open spec fn expr_until_rule(st: ParserState, end: Punct) -> Out<Node>
    decreases rem(st), 42int,
{
    let e = expr(st);
    if e.r is Err {
        e.fail()
    } else {
        let s = skip_punct(e.st, end);
        if s.r is Err {
            s.fail()
        } else {
            done(s.st, e.val())
        }
    }
}

/// An optional expression up to the given punctuator, which is taken.
pub open spec fn optional_expr(st: ParserState, end: Punct) -> Out<Option<Node>>
    decreases rem(st), 45int,
{
    optional_expr_rule(st, end)
}

pub open spec fn optional_expr_rule(st: ParserState, end: Punct) -> Out<Option<Node>>
    decreases rem(st), 44int,
{
    if at(st, end) {
        done(adv(st), None)
    } else {
        let e = expr_until(st, end);
        if e.r is Err {
            e.fail()
        } else {
            done(e.st, Some(e.val()))
        }
    }
}

/// ```bnf
/// "for" "(" <expr-stmt> <expr>? ";" <expr>? ")" <stmt>
/// ```
pub open spec fn for_stmt(st: ParserState, span: SourceSpan) -> Out<Stmt>
    decreases rem(st), 53int,
{
    for_stmt_rule(st, span)
}

pub open spec fn for_stmt_rule(st: ParserState, span: SourceSpan) -> Out<Stmt>
    decreases rem(st), 52int,
{
    let p = skip_punct(st, Punct::LParen);
    if p.r is Err {
        p.fail()
    } else {
        let st1 = in_scope(p.st);
        let l = loop_labels(st1);
        if l.r is Err {
            l.fail()
        } else if rem(l.st) >= rem(st) {
            stuck(st)
        } else {
            let i = for_init(l.st);
            if i.r is Err {
                i.fail()
            } else if rem(i.st) >= rem(st) {
                stuck(st)
            } else {
                let c = optional_expr(i.st, Punct::Semi);
                if c.r is Err {
                    c.fail()
                } else if rem(c.st) >= rem(st) {
                    stuck(st)
                } else {
                    let n = optional_expr(c.st, Punct::RParen);
                    if n.r is Err {
                        n.fail()
                    } else if rem(n.st) >= rem(st) {
                        stuck(st)
                    } else {
                        let b = stmt(n.st);
                        if b.r is Err {
                            b.fail()
                        } else {
                            done(
                                out_of_scope(out_of_loop(st1, b.st)),
                                Stmt {
                                    kind: StmtKind::Loop {
                                        init: Some(Box::new(i.val())),
                                        cond: c.val(),
                                        inc: n.val(),
                                        body: Box::new(b.val()),
                                        do_while: false,
                                        brk_label: l.val().0,
                                        cont_label: l.val().1,
                                    },
                                    span,
                                },
                            )
                        }
                    }
                }
            }
        }
    }
}

/// The first part of a for-loop: a declaration or an expression statement.
pub open spec fn for_init(st: ParserState) -> Out<Stmt>
    decreases rem(st), 49int,
{
    for_init_rule(st)
}

pub open spec fn for_init_rule(st: ParserState) -> Out<Stmt>
    decreases rem(st), 48int,
{
    if at_typename(st) {
        let d = declspec(st, DeclspecContext::ForLoopInitializer);
        if d.r is Err {
            d.fail()
        } else if rem(d.st) >= rem(st) {
            stuck(st)
        } else {
            declaration(d.st, d.val())
        }
    } else {
        expr_stmt(st)
    }
}

/// ```bnf
/// "while" "(" <expr> ")" <stmt>
/// ```
pub open spec fn while_stmt(st: ParserState, span: SourceSpan) -> Out<Stmt>
    decreases rem(st), 53int,
{
    while_stmt_rule(st, span)
}

pub open spec fn while_stmt_rule(st: ParserState, span: SourceSpan) -> Out<Stmt>
    decreases rem(st), 52int,
{
    let c = condition(st);
    if c.r is Err {
        c.fail()
    } else {
        let l = loop_labels(c.st);
        if l.r is Err {
            l.fail()
        } else if rem(l.st) >= rem(st) {
            stuck(st)
        } else {
            let b = stmt(l.st);
            if b.r is Err {
                b.fail()
            } else {
                done(
                    out_of_loop(c.st, b.st),
                    while_loop(c.val(), b.val(), false, l.val(), span),
                )
            }
        }
    }
}

pub open spec fn while_loop(
    cond: Node,
    body: Stmt,
    do_while: bool,
    labels: (usize, usize),
    span: SourceSpan,
) -> Stmt {
    Stmt {
        kind: StmtKind::Loop {
            init: None,
            cond: Some(cond),
            inc: None,
            body: Box::new(body),
            do_while,
            brk_label: labels.0,
            cont_label: labels.1,
        },
        span,
    }
}

/// ```bnf
/// "do" <stmt> "while" "(" <expr> ")" ";"
/// ```
pub open spec fn do_stmt(st: ParserState, span: SourceSpan) -> Out<Stmt>
    decreases rem(st), 53int,
{
    do_stmt_rule(st, span)
}

pub open spec fn do_stmt_rule(st: ParserState, span: SourceSpan) -> Out<Stmt>
    decreases rem(st), 52int,
{
    let l = loop_labels(st);
    if l.r is Err {
        l.fail()
    } else if rem(l.st) > rem(st) {
        stuck(st)
    } else {
        let b = stmt(l.st);
        if b.r is Err {
            b.fail()
        } else {
            let st1 = out_of_loop(st, b.st);
            if !at_kw(st1, Keyword::While) {
                wrong(st1, here(st1), Message::ExpectedWhile)
            } else if rem(adv(st1)) >= rem(st) {
                stuck(st)
            } else {
                let c = condition(adv(st1));
                if c.r is Err {
                    c.fail()
                } else {
                    let s = skip_punct(c.st, Punct::Semi);
                    if s.r is Err {
                        s.fail()
                    } else {
                        done(s.st, while_loop(c.val(), b.val(), true, l.val(), span))
                    }
                }
            }
        }
    }
}

/// ```bnf
/// "goto" <ident> ";"
/// ```
pub open spec fn goto_stmt(st: ParserState, span: SourceSpan) -> Out<Stmt> {
    match ident_at(st) {
        None => wrong(st, here(st), Message::ExpectedIdent),
        Some(name) => {
            let s = skip_punct(adv(st), Punct::Semi);
            if s.r is Err {
                s.fail()
            } else {
                done(
                    s.st,
                    Stmt { kind: StmtKind::Jump { label: None, label_name: Some(name) }, span },
                )
            }
        },
    }
}

/// The ";" behind "break" or "continue".
pub open spec fn jump_stmt(st: ParserState, label: usize, span: SourceSpan) -> Out<Stmt> {
    let s = skip_punct(st, Punct::Semi);
    if s.r is Err {
        s.fail()
    } else {
        done(s.st, Stmt { kind: StmtKind::Jump { label: Some(label), label_name: None }, span })
    }
}

/// ```bnf
/// <ident> ":" <stmt>
/// ```
pub open spec fn label_stmt(st: ParserState, name: Symbol, span: SourceSpan) -> Out<Stmt>
    decreases rem(st), 51int,
{
    label_stmt_rule(st, name, span)
}

pub open spec fn label_stmt_rule(st: ParserState, name: Symbol, span: SourceSpan) -> Out<Stmt>
    decreases rem(st), 50int,
{
    let l = fresh_label(st);
    if l.r is Err {
        l.fail()
    } else if rem(l.st) > rem(st) {
        stuck(st)
    } else {
        let b = stmt(l.st);
        if b.r is Err {
            b.fail()
        } else {
            done(
                b.st,
                Stmt {
                    kind: StmtKind::Label {
                        label: l.val(),
                        body: Box::new(b.val()),
                        name: Some(name),
                    },
                    span,
                },
            )
        }
    }
}

/// ```bnf
/// <expr-stmt> ::= <expr>? ";"
/// ```
pub open spec fn expr_stmt(st: ParserState) -> Out<Stmt>
    decreases rem(st), 47int,
{
    expr_stmt_rule(st)
}

pub open spec fn expr_stmt_rule(st: ParserState) -> Out<Stmt>
    decreases rem(st), 46int,
{
    let span = here(st);
    if at(st, Punct::Semi) {
        done(adv(st), Stmt { kind: StmtKind::Block(StmtList::Nil), span })
    } else {
        let e = expr(st);
        if e.r is Err {
            e.fail()
        } else {
            let s = skip_punct(e.st, Punct::Semi);
            if s.r is Err {
                s.fail()
            } else {
                done(s.st, Stmt { kind: StmtKind::Expr(e.val()), span })
            }
        }
    }
}

/// ```bnf
/// <compound-stmt> ::= (<declaration> | <stmt>)* "}"
/// ```
pub open spec fn compound_stmt(st: ParserState) -> Out<StmtList>
    decreases rem(st), 55int,
{
    compound_stmt_rule(st)
}

pub open spec fn compound_stmt_rule(st: ParserState) -> Out<StmtList>
    decreases rem(st), 54int,
{
    let s = block_items(in_scope(st), Seq::empty());
    if s.r is Err {
        s.fail()
    } else {
        done(adv(out_of_scope(s.st)), stmt_list(s.val()))
    }
}

/// The declarations and statements up to "}", which is not taken.
pub open spec fn block_items(st: ParserState, stmts: Seq<Stmt>) -> Out<Seq<Stmt>>
    decreases rem(st), 53int,
{
    block_items_rule(st, stmts)
}

pub open spec fn block_items_rule(st: ParserState, stmts: Seq<Stmt>) -> Out<Seq<Stmt>>
    decreases rem(st), 52int,
{
    if at(st, Punct::RBrace) {
        done(st, stmts)
    } else {
        let o = block_item(st);
        if o.r is Err {
            o.fail()
        } else {
            match o.val() {
                None => if rem(o.st) >= rem(st) {
                    stuck(st)
                } else {
                    block_items(o.st, stmts)
                },
                Some(s) => {
                    let i = infer_stmt(o.st, s);
                    if i.r is Err {
                        i.fail()
                    } else if rem(i.st) >= rem(st) {
                        stuck(st)
                    } else {
                        block_items(i.st, stmts.push(i.val()))
                    }
                },
            }
        }
    }
}

/// A declaration or statement; a typedef comes to nothing.
pub open spec fn block_item(st: ParserState) -> Out<Option<Stmt>>
    decreases rem(st), 51int,
{
    block_item_rule(st)
}

pub open spec fn block_item_rule(st: ParserState) -> Out<Option<Stmt>>
    decreases rem(st), 50int,
{
    if at_typename(st) && !next_is(st, Punct::Colon) {
        let d = declspec(st, DeclspecContext::BlockScopeDecl);
        if d.r is Err {
            d.fail()
        } else if rem(d.st) >= rem(st) {
            stuck(st)
        } else if d.val().storage_class == Some(StorageClass::Typedef) {
            let t = typedef_tail(d.st, d.val().ty, d.val().noreturn);
            if t.r is Err {
                t.fail()
            } else {
                done(t.st, None)
            }
        } else {
            let s = declaration(d.st, d.val());
            if s.r is Err {
                s.fail()
            } else {
                done(s.st, Some(s.val()))
            }
        }
    } else {
        let s = stmt(st);
        if s.r is Err {
            s.fail()
        } else {
            done(s.st, Some(s.val()))
        }
    }
}

/// ```bnf
/// <declaration> ::=
///   <declspec> (<declarator-init> ("," <declarator-init>)*)? ";"
/// ```
///
/// The declaration specifiers have been taken.
pub open spec fn declaration(st: ParserState, ds: Declspec) -> Out<Stmt>
    decreases rem(st), 47int,
{
    declaration_rule(st, ds)
}

pub open spec fn declaration_rule(st: ParserState, ds: Declspec) -> Out<Stmt>
    decreases rem(st), 46int,
{
    let span = here(st);
    if at(st, Punct::Semi) {
        done(
            adv(warned(st, span, Message::UselessTypeName)),
            Stmt { kind: StmtKind::Block(StmtList::Nil), span },
        )
    } else {
        let d = declarations(st, ds, Seq::empty());
        if d.r is Err {
            d.fail()
        } else {
            done(d.st, Stmt { kind: StmtKind::Block(stmt_list(d.val())), span })
        }
    }
}

/// ```bnf
/// <declarator-init> ("," <declarator-init>)* ";"
/// ```
pub open spec fn declarations(st: ParserState, ds: Declspec, stmts: Seq<Stmt>) -> Out<Seq<Stmt>>
    decreases rem(st), 45int,
{
    declarations_rule(st, ds, stmts)
}

pub open spec fn declarations_rule(
    st: ParserState,
    ds: Declspec,
    stmts: Seq<Stmt>,
) -> Out<Seq<Stmt>>
    decreases rem(st), 44int,
{
    let d = declarator(st, ds.ty, false);
    if d.r is Err {
        d.fail()
    } else {
        match d.val().name {
            None => wrong(d.st, d.val().span, Message::MissingDeclaratorName),
            Some(name) => if rem(d.st) > rem(st) {
                stuck(st)
            } else {
                let o = declare(d.st, ds, name, d.val().ty, d.val().span, stmts);
                if o.r is Err {
                    o.fail()
                } else if at(o.st, Punct::Comma) {
                    if rem(adv(o.st)) >= rem(st) {
                        stuck(st)
                    } else {
                        declarations(adv(o.st), ds, o.val())
                    }
                } else if at(o.st, Punct::Semi) {
                    done(adv(o.st), o.val())
                } else {
                    wrong(o.st, here(o.st), Message::ExpectedCommaOrSemi)
                }
            },
        }
    }
}

/// Why an object with no linkage cannot be declared in the current scope.
pub open spec fn no_linkage_conflict(st: ParserState, name: Symbol) -> Option<Message> {
    match ident_in(st.scopes.last(), name) {
        None => None,
        Some(OrdinaryIdent::Global(_, true)) => Some(Message::NoLinkageAfterExtern),
        Some(OrdinaryIdent::Local(_)) | Some(OrdinaryIdent::Global(_, false)) => Some(
            Message::RedefinitionOfLocal,
        ),
        Some(_) => Some(Message::DifferentKindOfSymbol),
    }
}

/// A local variable cannot be declared twice in a scope, but again in a scope
/// within.
pub proof fn locals_are_declared_once(st: ParserState, name: Symbol, id: usize)
    requires
        st.scopes.len() > 0,
    ensures
        ({
            let declared = bound(st, name, OrdinaryIdent::Local(id));
            &&& no_linkage_conflict(declared, name) == Some(Message::RedefinitionOfLocal)
            &&& no_linkage_conflict(in_scope(declared), name) is None
        }),
{
}

/// One declarator of a declaration in a block, with its initializer.
pub open spec fn declare(
    st: ParserState,
    ds: Declspec,
    name: Symbol,
    ty: Type,
    span: SourceSpan,
    stmts: Seq<Stmt>,
) -> Out<Seq<Stmt>>
    decreases rem(st), 7int,
{
    declare_rule(st, ds, name, ty, span, stmts)
}

pub open spec fn declare_rule(
    st: ParserState,
    ds: Declspec,
    name: Symbol,
    ty: Type,
    span: SourceSpan,
    stmts: Seq<Stmt>,
) -> Out<Seq<Stmt>>
    decreases rem(st), 6int,
{
    if is_func_ty(st.types, ty) {
        if at(st, Punct::Assign) {
            wrong(st, span, Message::FunctionInitialized)
        } else if ds.storage_class is Some && ds.storage_class != Some(StorageClass::Extern) {
            wrong(st, span, Message::InvalidFunctionStorage)
        } else {
            let f = declare_function(st, name, ty, ds.noreturn, span);
            if f.r is Err {
                f.fail()
            } else {
                done(f.st, stmts)
            }
        }
    } else {
        let st1 = if ds.noreturn {
            warned(st, span, Message::VariableNoreturn)
        } else {
            st
        };
        match ds.storage_class {
            Some(StorageClass::Extern) => if at(st1, Punct::Assign) {
                wrong(st1, span, Message::ExternInitialized)
            } else {
                let g = declare_global(st1, name, ty, ds.align, StorageView::Decl, false, span);
                if g.r is Err {
                    g.fail()
                } else {
                    done(g.st, stmts)
                }
            },
            Some(StorageClass::Static) => match no_linkage_conflict(st1, name) {
                Some(message) => wrong(st1, span, message),
                None => {
                    let g = declare_static(st1, ds, name, ty, span);
                    if g.r is Err {
                        g.fail()
                    } else {
                        done(g.st, stmts)
                    }
                },
            },
            _ => match no_linkage_conflict(st1, name) {
                Some(message) => wrong(st1, span, message),
                None => declare_local(st1, ds, name, ty, span, stmts),
            },
        }
    }
}

/// Static storage, initialized behind "=", else zero; with the type that the
/// initializer gives the object.
pub open spec fn static_storage(st: ParserState, ty: Type, absent: StorageView) -> Out<
    (StorageView, Type),
>
    decreases rem(st), 3int,
{
    static_storage_rule(st, ty, absent)
}

pub open spec fn static_storage_rule(st: ParserState, ty: Type, absent: StorageView) -> Out<
    (StorageView, Type),
>
    decreases rem(st), 2int,
{
    if at(st, Punct::Assign) {
        let i = initializer(adv(st), ty, st.types.len());
        if i.r is Err {
            i.fail()
        } else {
            let g = new_global_init(i.st, i.val());
            if g.r is Err {
                g.fail()
            } else {
                done(g.st, (g.val(), init_ty(i.val())))
            }
        }
    } else {
        done(st, (absent, ty))
    }
}

/// A block-scope static object, which is backed by a hidden global.
pub open spec fn declare_static(
    st: ParserState,
    ds: Declspec,
    name: Symbol,
    ty: Type,
    span: SourceSpan,
) -> Out<()>
    decreases rem(st), 5int,
{
    declare_static_rule(st, ds, name, ty, span)
}

pub open spec fn declare_static_rule(
    st: ParserState,
    ds: Declspec,
    name: Symbol,
    ty: Type,
    span: SourceSpan,
) -> Out<()>
    decreases rem(st), 4int,
{
    let s = static_storage(st, ty, StorageView::Zero);
    if s.r is Err {
        s.fail()
    } else {
        let (storage, ty) = s.val();
        if is_incomplete_ty(s.st.types, ty) {
            wrong(s.st, span, Message::VariableIncomplete)
        } else {
            let l = fresh_label(s.st);
            if l.r is Err {
                l.fail()
            } else {
                let id = l.st.globals.len() as usize;
                let global = GlobalView {
                    name: Name::Unique(l.val()),
                    ty,
                    align: ds.align,
                    storage,
                    is_static: true,
                };
                done(bound(with_global(l.st, global), name, OrdinaryIdent::Global(id, false)), ())
            }
        }
    }
}

/// The state with the type of a local changed.
pub open spec fn with_local_ty(st: ParserState, id: int, ty: Type) -> ParserState {
    if 0 <= id < st.locals.len() {
        ParserState { locals: st.locals.update(id, LocalVar { ty, ..st.locals[id] }), ..st }
    } else {
        st
    }
}

/// A local object, with the statements that initialize it.
pub open spec fn declare_local(
    st: ParserState,
    ds: Declspec,
    name: Symbol,
    ty: Type,
    span: SourceSpan,
    stmts: Seq<Stmt>,
) -> Out<Seq<Stmt>>
    decreases rem(st), 5int,
{
    declare_local_rule(st, ds, name, ty, span, stmts)
}

pub open spec fn declare_local_rule(
    st: ParserState,
    ds: Declspec,
    name: Symbol,
    ty: Type,
    span: SourceSpan,
    stmts: Seq<Stmt>,
) -> Out<Seq<Stmt>>
    decreases rem(st), 4int,
{
    let id = st.locals.len();
    let o = local_initializer(with_local(st, Some(name), ty, ds.align), id as usize, ty, stmts);
    if o.r is Err {
        o.fail()
    } else if is_incomplete_ty(o.st.types, o.val().1) {
        wrong(o.st, span, Message::VariableIncomplete)
    } else {
        done(with_local_ty(o.st, id as int, o.val().1), o.val().0)
    }
}

/// The initializer of a local object, if there is one.
pub open spec fn local_initializer(st: ParserState, id: usize, ty: Type, stmts: Seq<Stmt>) -> Out<
    (Seq<Stmt>, Type),
>
    decreases rem(st), 3int,
{
    local_initializer_rule(st, id, ty, stmts)
}

pub open spec fn local_initializer_rule(
    st: ParserState,
    id: usize,
    ty: Type,
    stmts: Seq<Stmt>,
) -> Out<
    (Seq<Stmt>, Type),
>
    decreases rem(st), 2int,
{
    if at(st, Punct::Assign) {
        let span = here(st);
        let i = initializer(adv(st), ty, st.types.len());
        if i.r is Err {
            i.fail()
        } else {
            let l = new_local_init(i.st, id, i.val(), span, stmts);
            if l.r is Err {
                l.fail()
            } else {
                done(l.st, (l.val(), init_ty(i.val())))
            }
        }
    } else {
        done(st, (stmts, ty))
    }
}

/// ```bnf
/// <typedef-tail> ::= <declarator> ("," <declarator>)* ";"
/// ```
pub open spec fn typedef_tail(st: ParserState, base: Type, noreturn: bool) -> Out<()>
    decreases rem(st), 47int,
{
    typedef_tail_rule(st, base, noreturn)
}

pub open spec fn typedef_tail_rule(st: ParserState, base: Type, noreturn: bool) -> Out<()>
    decreases rem(st), 46int,
{
    if at(st, Punct::Semi) {
        done(adv(warned(st, here(st), Message::UselessTypeName)), ())
    } else {
        typedefs(st, base, noreturn)
    }
}

pub open spec fn typedefs(st: ParserState, base: Type, noreturn: bool) -> Out<()>
    decreases rem(st), 45int,
{
    typedefs_rule(st, base, noreturn)
}

pub open spec fn typedefs_rule(st: ParserState, base: Type, noreturn: bool) -> Out<()>
    decreases rem(st), 44int,
{
    let d = declarator(st, base, false);
    if d.r is Err {
        d.fail()
    } else {
        let st1 = if noreturn {
            warned(d.st, d.val().span, Message::TypedefNoreturn)
        } else {
            d.st
        };
        match d.val().name {
            None => wrong(st1, d.val().span, Message::MissingTypedefName),
            Some(name) => {
                let conflict = match ident_in(st1.scopes.last(), name) {
                    None => None,
                    Some(OrdinaryIdent::Typedef(ty)) => if same(st1.types, ty, d.val().ty) {
                        None
                    } else {
                        Some(Message::ConflictingTypes)
                    },
                    Some(_) => Some(Message::DifferentKindOfSymbol),
                };
                match conflict {
                    Some(message) => wrong(st1, d.val().span, message),
                    None => {
                        let st2 = bound(st1, name, OrdinaryIdent::Typedef(d.val().ty));
                        if at(st2, Punct::Comma) {
                            if rem(adv(st2)) >= rem(st) {
                                stuck(st)
                            } else {
                                typedefs(adv(st2), base, noreturn)
                            }
                        } else if at(st2, Punct::Semi) {
                            done(adv(st2), ())
                        } else {
                            wrong(st2, here(st2), Message::ExpectedCommaOrSemi)
                        }
                    },
                }
            },
        }
    }
}

/// The last parameter without a name, if there is one.
pub open spec fn last_unnamed(params: Seq<Parameter>) -> Option<Parameter>
    decreases params.len(),
{
    if params.len() == 0 {
        None
    } else if params.last().name is None {
        Some(params.last())
    } else {
        last_unnamed(params.drop_last())
    }
}

/// The state with a local for each parameter, in declaration order.
pub open spec fn with_params(st: ParserState, params: Seq<Parameter>) -> ParserState
    decreases params.len(),
{
    if params.len() == 0 {
        st
    } else {
        with_local(
            with_params(st, params.drop_last()),
            params.last().name,
            params.last().ty,
            None,
        )
    }
}

/// Locals for the parameters of a function, which must all have names. The
/// first parameter gets the lowest id, and the others follow it in order.
#[verifier::opaque]
pub open spec fn param_locals(st: ParserState, params: Seq<Parameter>) -> Out<Seq<usize>> {
    match last_unnamed(params) {
        Some(param) => wrong(st, param.span, Message::MissingParamName),
        None => done(
            with_params(st, params),
            Seq::new(params.len(), |k: int| (st.locals.len() + k) as usize),
        ),
    }
}

/// Making the locals of parameters touches only locals and scopes, and adds as
/// many locals as there are parameters, of their types and in their order.
pub proof fn parameters_become_locals_in_order(st: ParserState, params: Seq<Parameter>)
    ensures
        with_params(st, params).locals == st.locals + Seq::new(
            params.len(),
            |k: int| (LocalVar { ty: params[k].ty, align: None, offset: 0 }),
        ),
        with_params(st, params).input == st.input,
        with_params(st, params).pos == st.pos,
        st.scopes.len() > 0 ==> with_params(st, params).scopes.len() == st.scopes.len(),
    decreases params.len(),
{
    if params.len() > 0 {
        parameters_become_locals_in_order(st, params.drop_last());
        assert(params == params.drop_last().push(params.last()));
    }
    assert(with_params(st, params).locals =~= st.locals + Seq::new(
        params.len(),
        |k: int| (LocalVar { ty: params[k].ty, align: None, offset: 0 }),
    ));
}

/// ```bnf
/// <function> ::= <declarator> (";" | "{" <compound-stmt>)
/// ```
#[verifier::opaque]
pub open spec fn function(st: ParserState, return_ty: Type, is_static: bool, noreturn: bool) -> Out<
    (),
> {
    let d = declarator(st, return_ty, false);
    if d.r is Err {
        d.fail()
    } else {
        match d.val().name {
            None => wrong(d.st, d.val().span, Message::MissingFunctionName),
            Some(name) => match func_of(d.st.types, d.val().ty, false) {
                Some(TypeForm::Func { is_variadic, .. }) => {
                    let f = declare_function(d.st, name, d.val().ty, noreturn, d.val().span);
                    if f.r is Err {
                        f.fail()
                    } else if at(f.st, Punct::Semi) {
                        done(adv(f.st), ())
                    } else if f.val() >= f.st.functions.len() {
                        Out { st: f.st, r: Err(Error::Overflow) }
                    } else if f.st.functions[f.val() as int].body is Some {
                        wrong(f.st, d.val().span, Message::RedefinitionOfFunction)
                    } else {
                        function_body(f.st, f.val(), d.val().params, is_variadic, is_static)
                    }
                },
                _ => wrong(d.st, here(d.st), Message::ExpectedFunction),
            },
        }
    }
}

/// A function that has a body already cannot be given another one.
pub proof fn functions_are_defined_once(
    st: ParserState,
    return_ty: Type,
    is_static: bool,
    noreturn: bool,
    name: Symbol,
    id: usize,
)
    requires
        ({
            let d = declarator(st, return_ty, false);
            &&& d.r is Ok
            &&& d.val().name == Some(name)
            &&& func_of(d.st.types, d.val().ty, false) is Some
            &&& func_of(d.st.types, d.val().ty, false).unwrap() is Func
            &&& d.st.scopes.len() > 0
            &&& ident_in(d.st.scopes.last(), name) == Some(OrdinaryIdent::Function(id))
            &&& id < d.st.functions.len()
            &&& d.st.functions[id as int].body is Some
            &&& !at(d.st, Punct::Semi)
        }),
    ensures
        ({
            let d = declarator(st, return_ty, false);
            let r = function(st, return_ty, is_static, noreturn).r;
            if same(d.st.types, d.st.functions[id as int].ty, d.val().ty) {
                r == Err::<(), Error>(
                    Error::Terminate(d.val().span, Message::RedefinitionOfFunction),
                )
            } else {
                r == Err::<(), Error>(Error::Terminate(d.val().span, Message::ConflictingTypes))
            }
        }),
{
    reveal(function);
    reveal(declare_function);
}

/// The hidden local that receives the variable arguments of a function.
pub open spec fn va_area_local(st: ParserState, is_variadic: bool) -> Out<Option<usize>> {
    if is_variadic {
        let a = new_array(st, Type::Arith(ArithType::Char), Some(VA_AREA_SIZE), here(st));
        if a.r is Err {
            a.fail()
        } else {
            let id = a.st.locals.len() as usize;
            done(with_local(a.st, Some(a.st.input.hidden.va_area), a.val(), None), Some(id))
        }
    } else {
        done(st, None)
    }
}

/// How the current function is spelled.
pub open spec fn function_spelling(st: ParserState) -> Seq<u8> {
    match st.active_function {
        Some(id) => if id < st.functions.len() && st.functions[id as int].name.0
            < st.input.names.len() {
            st.input.names[st.functions[id as int].name.0 as int]
        } else {
            Seq::empty()
        },
        None => Seq::empty(),
    }
}

/// A static array that holds the name of the current function.
#[verifier::opaque]
pub open spec fn bind_function_name(st: ParserState, name: Symbol) -> Out<()> {
    let text = function_spelling(st);
    if text.len() >= usize::MAX {
        Out { st, r: Err(Error::Overflow) }
    } else {
        let a = new_array(
            st,
            Type::Arith(ArithType::Char),
            Some((text.len() + 1) as usize),
            here(st),
        );
        if a.r is Err {
            a.fail()
        } else {
            let l = fresh_label(a.st);
            if l.r is Err {
                l.fail()
            } else {
                let global = GlobalView {
                    name: Name::Unique(l.val()),
                    ty: a.val(),
                    align: None,
                    storage: StorageView::Data {
                        bytes: text.push(0),
                        relocations: Seq::empty(),
                    },
                    is_static: true,
                };
                let id = l.st.globals.len() as usize;
                done(bound(with_global(l.st, global), name, OrdinaryIdent::Global(id, false)), ())
            }
        }
    }
}

/// The names by which a function knows its own name.
#[verifier::opaque]
pub open spec fn bind_function_names(st: ParserState) -> Out<()> {
    let f = bind_function_name(st, st.input.hidden.func);
    if f.r is Err {
        f
    } else {
        bind_function_name(f.st, st.input.hidden.function)
    }
}

/// The parts of a function definition.
pub struct Definition {
    pub param_locals: Seq<usize>,
    pub va_area_local: Option<usize>,
    pub stmts: StmtList,
}

/// The body of a function, with the locals for its parameters.
#[verifier::opaque]
pub open spec fn definition(st: ParserState, params: Seq<Parameter>, is_variadic: bool) -> Out<
    Definition,
> {
    let p = param_locals(st, params);
    if p.r is Err {
        p.fail()
    } else {
        let v = va_area_local(p.st, is_variadic);
        if v.r is Err {
            v.fail()
        } else {
            let f = bind_function_names(v.st);
            if f.r is Err {
                f.fail()
            } else {
                let s = skip_punct(f.st, Punct::LBrace);
                if s.r is Err {
                    s.fail()
                } else {
                    let b = compound_stmt(s.st);
                    if b.r is Err {
                        b.fail()
                    } else {
                        done(
                            b.st,
                            Definition {
                                param_locals: p.val(),
                                va_area_local: v.val(),
                                stmts: b.val(),
                            },
                        )
                    }
                }
            }
        }
    }
}

/// A function body in which every goto has the label it names.
#[verifier::opaque]
pub open spec fn with_labels(body: Stmt) -> Result<Stmt, Error> {
    match labels_of_stmt(body, Map::empty()) {
        Err(e) => Err(e),
        Ok(labels) => resolved_stmt(body, labels),
    }
}

/// The state in which the body of a function is parsed.
pub open spec fn in_function(st: ParserState, id: usize) -> ParserState {
    in_scope(ParserState { active_function: Some(id), locals: Seq::empty(), ..st })
}

/// The state after a function has been given its body.
pub open spec fn defined(
    st: ParserState,
    id: usize,
    body: Stmt,
    d: Definition,
    is_static: bool,
) -> Out<()> {
    if id >= st.functions.len() {
        Out { st, r: Err(Error::Overflow) }
    } else {
        let f = FunctionView {
            body: Some(body),
            param_locals: d.param_locals,
            va_area_local: d.va_area_local,
            locals: st.locals,
            is_static,
            ..st.functions[id as int]
        };
        done(
            ParserState {
                functions: st.functions.update(id as int, f),
                locals: Seq::empty(),
                active_function: None,
                ..st
            },
            (),
        )
    }
}

/// The definition of a function that has been declared.
#[verifier::opaque]
pub open spec fn function_body(
    st: ParserState,
    id: usize,
    params: Seq<Parameter>,
    is_variadic: bool,
    is_static: bool,
) -> Out<()> {
    let d = definition(in_function(st, id), params, is_variadic);
    if d.r is Err {
        d.fail()
    } else {
        let st1 = out_of_scope(d.st);
        let body = Stmt { kind: StmtKind::Block(d.val().stmts), span: here(st) };
        match with_labels(body) {
            Err(e) => Out { st: st1, r: Err(e) },
            Ok(body) => defined(st1, id, body, d.val(), is_static),
        }
    }
}

/// ```bnf
/// <global-variable> ::= <declarator-init> ("," <declarator-init>)* ";"
/// <declarator-init> ::= <declarator> ("=" <initializer>)?
/// ```
#[verifier::opaque]
pub open spec fn global_variable(st: ParserState, ds: Declspec) -> Out<()> {
    if at(st, Punct::Semi) {
        done(adv(warned(st, here(st), Message::UselessTypeName)), ())
    } else {
        global_variables(st, ds)
    }
}

pub open spec fn global_variables(st: ParserState, ds: Declspec) -> Out<()>
    decreases rem(st), 1int,
{
    global_variables_rule(st, ds)
}

pub open spec fn global_variables_rule(st: ParserState, ds: Declspec) -> Out<()>
    decreases rem(st), 0int,
{
    let d = declarator(st, ds.ty, false);
    if d.r is Err {
        d.fail()
    } else {
        match d.val().name {
            None => wrong(d.st, d.val().span, Message::MissingVariableName),
            Some(name) => {
                let g = global_declarator(d.st, ds, name, d.val().ty, d.val().span);
                if g.r is Err {
                    g.fail()
                } else if at(g.st, Punct::Comma) {
                    if rem(adv(g.st)) >= rem(st) {
                        stuck(st)
                    } else {
                        global_variables(adv(g.st), ds)
                    }
                } else if at(g.st, Punct::Semi) {
                    done(adv(g.st), ())
                } else {
                    wrong(g.st, here(g.st), Message::ExpectedCommaOrSemi)
                }
            },
        }
    }
}

/// One declarator of a global variable, with its initializer.
#[verifier::opaque]
pub open spec fn global_declarator(
    st: ParserState,
    ds: Declspec,
    name: Symbol,
    ty: Type,
    span: SourceSpan,
) -> Out<()> {
    let st1 = if ds.noreturn {
        warned(st, span, Message::VariableNoreturn)
    } else {
        st
    };
    if is_func_ty(st1.types, ty) {
        wrong(st1, span, Message::ExpectedGlobalVariable)
    } else {
        let s = static_storage(st1, ty, absent_storage(ds));
        if s.r is Err {
            s.fail()
        } else {
            define_global(s.st, ds, name, s.val().1, s.val().0, span)
        }
    }
}

/// The storage of a global variable that has no initializer.
pub open spec fn absent_storage(ds: Declspec) -> StorageView {
    if ds.storage_class == Some(StorageClass::Extern) {
        StorageView::Decl
    } else {
        StorageView::Zero
    }
}

/// Declare a global variable with the given storage.
#[verifier::opaque]
pub open spec fn define_global(
    st: ParserState,
    ds: Declspec,
    name: Symbol,
    ty: Type,
    storage: StorageView,
    span: SourceSpan,
) -> Out<()> {
    let is_static = ds.storage_class == Some(StorageClass::Static);
    let g = declare_global(st, name, ty, ds.align, storage, is_static, span);
    if g.r is Err {
        g.fail()
    } else if g.val() >= g.st.globals.len() {
        Out { st: g.st, r: Err(Error::Overflow) }
    } else {
        let global = g.st.globals[g.val() as int];
        if !(global.storage is Decl) && is_incomplete_ty(g.st.types, global.ty) {
            wrong(g.st, span, Message::VariableIncomplete)
        } else {
            done(g.st, ())
        }
    }
}

/// Whether a function declarator is here, taking nothing.
#[verifier::opaque]
pub open spec fn at_function(st: ParserState) -> Out<bool> {
    if at(st, Punct::Semi) {
        done(st, false)
    } else {
        let d = declarator(speculation(st), Type::Dummy, false);
        if d.r is Err {
            Out { st: rolled_back(st, d.st), r: Err(d.r->Err_0) }
        } else {
            done(rolled_back(st, d.st), is_func_ty(d.st.types, d.val().ty))
        }
    }
}

/// ```bnf
/// <program> ::= (<typedef> | <function> | <global-variable>)* <eof>
/// ```
pub open spec fn program(st: ParserState) -> Out<()>
    decreases rem(st), 1int,
{
    program_rule(st)
}

pub open spec fn program_rule(st: ParserState) -> Out<()>
    decreases rem(st), 0int,
{
    if cur(st) == TokenKind::Eof {
        done(st, ())
    } else {
        let o = external_decl(st);
        if o.r is Err {
            o.fail()
        } else if rem(o.st) >= rem(st) {
            stuck(st)
        } else {
            program(o.st)
        }
    }
}

/// ```bnf
/// <typedef> | <function> | <global-variable>
/// ```
#[verifier::opaque]
pub open spec fn external_decl(st: ParserState) -> Out<()> {
    let d = declspec(st, DeclspecContext::FileScopeDecl);
    if d.r is Err {
        d.fail()
    } else if d.val().storage_class == Some(StorageClass::Typedef) {
        typedef_tail(d.st, d.val().ty, d.val().noreturn)
    } else {
        let f = at_function(d.st);
        if f.r is Err {
            f.fail()
        } else if f.val() {
            function(
                f.st,
                d.val().ty,
                d.val().storage_class == Some(StorageClass::Static),
                d.val().noreturn,
            )
        } else {
            global_variable(f.st, d.val())
        }
    }
}

} // verus!
