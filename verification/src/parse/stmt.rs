//! Parsing of statements, declarations, and whole programs.

use vstd::prelude::*;
use crate::ast::{
    CaseLabel, CaseList, Function, GlobalInitData, GlobalStorage, GlobalVar, LocalVar, Name, Node,
    Program, ProgramView, Relocation, Stmt, StmtList,
};
use crate::constexpr::ConstValue;
use crate::error::{DeclspecContext, Error, Message};
use crate::maps::map_new;
use crate::parse::grammar::{Declspec, Parameter, StorageClass};
use crate::parse::grammar_stmt::{
    absent_storage, add_case, add_default, at_function, bind_function_name, bind_function_names,
    block_item, block_item_rule, block_items, block_items_rule, case_of, case_of_rule, case_stmt,
    case_stmt_rule, case_value, case_value_rule, compound_stmt, compound_stmt_rule, condition,
    condition_rule, current_return_ty, declaration, declaration_rule, declarations,
    declarations_rule, declare, declare_local, declare_local_rule, declare_rule, declare_static,
    declare_static_rule, default_stmt, default_stmt_rule, define_global, defined, definition,
    do_stmt, do_stmt_rule, end_case, expr_stmt, expr_stmt_rule, expr_until, expr_until_rule,
    external_decl, for_init, for_init_rule, for_stmt, for_stmt_rule, function, function_body,
    function_spelling, global_declarator, global_variable, global_variables, global_variables_rule,
    goto_stmt, has_case, if_stmt, if_stmt_rule, in_function, jump_stmt, label_stmt, label_stmt_rule,
    labelled, labelled_rule, last_unnamed, local_initializer, local_initializer_rule, loop_labels,
    no_linkage_conflict, optional_expr, optional_expr_rule, param_locals,
    parameters_become_locals_in_order, program, program_rule, return_stmt, return_stmt_rule,
    return_value, return_value_rule, returned, static_storage, static_storage_rule, stmt, stmt_rule,
    switch_condition, switch_condition_rule, switch_stmt, switch_stmt_rule, typedef_tail,
    typedef_tail_rule, typedefs, typedefs_rule, va_area_local, while_stmt, while_stmt_rule,
    with_labels, with_local_ty, with_params, Definition,
};
use crate::parse::labels::{collect_labels_stmt, resolve_gotos_stmt};
use crate::parse::state::{
    at, cur, declare_function, here, moves, pauses, rem, stays, switch_view, HiddenNames, Out,
    Parser, ParserState, SwitchContext,
};
use crate::scope::OrdinaryIdent;
use crate::source::{copy_bytes, SourceSpan};
use crate::tokenize::{Keyword, Punct, TokenKind};
use crate::types::{func_of, ArithType, ConstType, Symbol, Type, TypeForm, TypeStore};
use crate::utils::VA_AREA_SIZE;

verus! {

impl Parser {
    fn current_return_type(&self) -> (r: Type)
        ensures
            r == current_return_ty(self@),
    {
        proof {
            reveal(current_return_ty);
            reveal(Parser::view);
        }
        match self.active_function {
            Some(id) => match self.return_type(self.function_type(id), false) {
                Some(ty) => ty,
                None => Type::Dummy,
            },
            None => Type::Dummy,
        }
    }

    fn brk_label(&self) -> (r: Option<usize>)
        ensures
            r == self@.active_brk_label,
    {
        proof {
            reveal(Parser::view);
        }
        self.active_brk_label
    }

    fn cont_label(&self) -> (r: Option<usize>)
        ensures
            r == self@.active_cont_label,
    {
        proof {
            reveal(Parser::view);
        }
        self.active_cont_label
    }

    fn set_loop_labels(&mut self, brk: Option<usize>, cont: Option<usize>)
        requires
            old(self).inv(),
        ensures
            final(self).inv(),
            final(self)@ == (ParserState {
                active_brk_label: brk,
                active_cont_label: cont,
                ..old(self)@
            }),
    {
        proof {
            reveal(Parser::view);
        }
        self.active_brk_label = brk;
        self.active_cont_label = cont;
    }

    /// ```bnf
    /// <stmt> ::=
    ///   "return" <expr>? ";"
    ///   | "if" "(" <expr> ")" <stmt> ("else" <stmt>)?
    ///   | "switch" "(" <expr> ")" <stmt>
    ///   | "case" <constexpr> ":" <stmt>
    ///   | "default" ":" <stmt>
    ///   | "for" "(" <expr-stmt> <expr>? ";" <expr>? ")" <stmt>
    ///   | "while" "(" <expr> ")" <stmt>
    ///   | "do" <stmt> "while" "(" <expr> ")" ";"
    ///   | "goto" <ident> ";"
    ///   | "break" ";"
    ///   | "continue" ";"
    ///   | <ident> ":" <stmt>
    ///   | "{" <compound-stmt>
    ///   | <expr-stmt>
    /// ```
    pub fn parse_stmt(&mut self) -> (r: Result<Stmt, Error>)
        requires
            old(self).inv(),
        ensures
            final(self).inv(),
            stmt(old(self)@) == (Out { st: final(self)@, r }),
            moves(old(self)@, final(self)@, r is Ok),
        decreases rem(old(self)@), 24int,
    {
        assert(stmt(self@) == stmt_rule(self@));
        let span = self.here();
        match self.current().kind {
            TokenKind::Keyword(Keyword::Return) => {
                self.advance();
                self.parse_return(span)
            },
            TokenKind::Keyword(Keyword::If) => {
                self.advance();
                self.parse_if(span)
            },
            TokenKind::Keyword(Keyword::Switch) => {
                self.advance();
                self.parse_switch(span)
            },
            TokenKind::Keyword(Keyword::Case) => {
                self.advance();
                self.parse_case(span)
            },
            TokenKind::Keyword(Keyword::Default) => {
                self.advance();
                self.parse_default(span)
            },
            TokenKind::Keyword(Keyword::For) => {
                self.advance();
                self.parse_for(span)
            },
            TokenKind::Keyword(Keyword::While) => {
                self.advance();
                self.parse_while(span)
            },
            TokenKind::Keyword(Keyword::Do) => {
                self.advance();
                self.parse_do(span)
            },
            TokenKind::Keyword(Keyword::Goto) => {
                self.advance();
                self.parse_goto(span)
            },
            TokenKind::Keyword(Keyword::Break) => {
                let Some(label) = self.brk_label() else {
                    return Err(Error::Terminate(span, Message::BreakOutsideLoop));
                };
                self.advance();
                self.parse_jump(label, span)
            },
            TokenKind::Keyword(Keyword::Continue) => {
                let Some(label) = self.cont_label() else {
                    return Err(Error::Terminate(span, Message::ContinueOutsideLoop));
                };
                self.advance();
                self.parse_jump(label, span)
            },
            TokenKind::Punct(Punct::LBrace) => {
                self.advance();
                let stmts = self.parse_compound_stmt()?;
                Ok(Stmt::block(stmts, span))
            },
            TokenKind::Ident(name) => {
                if self.next_is(Punct::Colon) {
                    self.advance();
                    self.advance();
                    return self.parse_label(name, span);
                }
                self.parse_expr_stmt()
            },
            _ => self.parse_expr_stmt(),
        }
    }

    pub(crate) fn parse_return(&mut self, span: SourceSpan) -> (r: Result<Stmt, Error>)
        requires
            old(self).inv(),
        ensures
            final(self).inv(),
            return_stmt(old(self)@, span) == (Out { st: final(self)@, r }),
            moves(old(self)@, final(self)@, r is Ok),
        decreases rem(old(self)@), 23int,
    {
        assert(return_stmt(self@, span) == return_stmt_rule(self@, span));
        let ty = self.current_return_type();
        if self.at(Punct::Semi) {
            if ty != Type::Void {
                self.warn_at(span, Message::ReturnWithoutValue);
            }
            self.advance();
            return Ok(Stmt::return_(None, span));
        }
        self.parse_return_value(ty, span)
    }

    pub(crate) fn parse_return_value(
        &mut self,
        ty: Type,
        span: SourceSpan,
    ) -> (r: Result<Stmt, Error>)
        requires
            old(self).inv(),
        ensures
            final(self).inv(),
            return_value(old(self)@, ty, span) == (Out { st: final(self)@, r }),
            moves(old(self)@, final(self)@, r is Ok),
        decreases rem(old(self)@), 22int,
    {
        assert(return_value(self@, ty, span) == return_value_rule(self@, ty, span));
        let expr = self.parse_expr_until(Punct::Semi)?;
        self.return_with(expr, ty, span)
    }

    pub(crate) fn return_with(
        &mut self,
        value: Node,
        ty: Type,
        span: SourceSpan,
    ) -> (r: Result<Stmt, Error>)
        requires
            old(self).inv(),
        ensures
            final(self).inv(),
            returned(old(self)@, value, ty, span) == (Out { st: final(self)@, r }),
            pauses(old(self)@, final(self)@, r is Ok),
    {
        proof {
            reveal(returned);
        }
        if ty == Type::Void {
            self.warn_at(value.span, Message::ReturnWithValue);
        }
        let value = self.apply_cast(value, ty)?;
        Ok(Stmt::return_(Some(value), span))
    }

    pub(crate) fn parse_condition(&mut self) -> (r: Result<Node, Error>)
        requires
            old(self).inv(),
        ensures
            final(self).inv(),
            condition(old(self)@) == (Out { st: final(self)@, r }),
            moves(old(self)@, final(self)@, r is Ok),
        decreases rem(old(self)@), 21int,
    {
        assert(condition(self@) == condition_rule(self@));
        self.skip_punct(Punct::LParen)?;
        let cond = self.parse_expr()?;
        self.skip_punct(Punct::RParen)?;
        Ok(cond)
    }

    pub(crate) fn parse_if(&mut self, span: SourceSpan) -> (r: Result<Stmt, Error>)
        requires
            old(self).inv(),
        ensures
            final(self).inv(),
            if_stmt(old(self)@, span) == (Out { st: final(self)@, r }),
            moves(old(self)@, final(self)@, r is Ok),
        decreases rem(old(self)@), 23int,
    {
        assert(if_stmt(self@, span) == if_stmt_rule(self@, span));
        let cond = self.parse_condition()?;
        let then_branch = self.parse_stmt()?;
        if self.at_keyword(Keyword::Else) {
            self.advance();
            let else_branch = self.parse_stmt()?;
            return Ok(Stmt::if_(cond, then_branch, Some(Box::new(else_branch)), span));
        }
        Ok(Stmt::if_(cond, then_branch, None, span))
    }

    /// Enter a switch; what was active before comes back.
    fn enter_switch(&mut self, ty: ConstType, label: usize) -> (r: (
        Option<usize>,
        Option<SwitchContext>,
    ))
        requires
            old(self).inv(),
        ensures
            final(self).inv(),
            r.0 == old(self)@.active_brk_label,
            switch_view(r.1) == old(self)@.active_switch,
            final(self)@ == (ParserState {
                active_brk_label: Some(label),
                active_switch: Some(crate::parse::grammar_stmt::new_switch(ty)),
                ..old(self)@
            }),
    {
        proof {
            reveal(Parser::view);
        }
        let brk = self.active_brk_label;
        let switch = self.active_switch.take();
        self.active_brk_label = Some(label);
        let context = SwitchContext { ty, cases: Vec::new(), default: None };
        assert(context@.cases =~= Seq::<CaseLabel>::empty());
        self.active_switch = Some(context);
        (brk, switch)
    }

    /// Leave a switch, restoring what was active before.
    fn leave_switch(&mut self, brk: Option<usize>, switch: Option<SwitchContext>) -> (r: Option<
        SwitchContext,
    >)
        requires
            old(self).inv(),
        ensures
            final(self).inv(),
            switch_view(r) == old(self)@.active_switch,
            final(self)@ == (ParserState {
                active_brk_label: brk,
                active_switch: switch_view(switch),
                ..old(self)@
            }),
    {
        proof {
            reveal(Parser::view);
        }
        let r = self.active_switch.take();
        self.active_brk_label = brk;
        self.active_switch = switch;
        r
    }

    pub(crate) fn parse_switch(&mut self, span: SourceSpan) -> (r: Result<Stmt, Error>)
        requires
            old(self).inv(),
        ensures
            final(self).inv(),
            switch_stmt(old(self)@, span) == (Out { st: final(self)@, r }),
            moves(old(self)@, final(self)@, r is Ok),
        decreases rem(old(self)@), 23int,
    {
        assert(switch_stmt(self@, span) == switch_stmt_rule(self@, span));
        let cond = self.parse_switch_condition()?;
        let Some(ty) = cond.known_ty().promote_int() else {
            return Err(Error::Terminate(span, Message::SwitchNotInteger));
        };
        let Some(ty) = self.to_const(ty) else {
            return Err(Error::Terminate(span, Message::SwitchNotInteger));
        };
        let label: usize = self.unique_label()?;
        let (prev_brk, prev_switch) = self.enter_switch(ty, label);
        let body = self.parse_stmt()?;
        match self.leave_switch(prev_brk, prev_switch) {
            Some(switch) => {
                let cases = CaseList::from_vec(&switch.cases);
                Ok(Stmt::switch(cond, body, cases, switch.default, label, span))
            },
            None => {
                let cases: Vec<CaseLabel> = Vec::new();
                assert(cases@ =~= Seq::<CaseLabel>::empty());
                Ok(Stmt::switch(cond, body, CaseList::from_vec(&cases), None, label, span))
            },
        }
    }

    pub(crate) fn parse_switch_condition(&mut self) -> (r: Result<Node, Error>)
        requires
            old(self).inv(),
        ensures
            final(self).inv(),
            switch_condition(old(self)@) == (Out { st: final(self)@, r }),
            moves(old(self)@, final(self)@, r is Ok),
        decreases rem(old(self)@), 21int,
    {
        assert(switch_condition(self@) == switch_condition_rule(self@));
        self.skip_punct(Punct::LParen)?;
        let cond = self.parse_expr()?;
        let cond = self.infer_type(cond)?;
        self.skip_punct(Punct::RParen)?;
        Ok(cond)
    }

    pub(crate) fn parse_labelled(&mut self) -> (r: Result<(usize, Stmt), Error>)
        requires
            old(self).inv(),
        ensures
            final(self).inv(),
            labelled(old(self)@) == (Out { st: final(self)@, r }),
            moves(old(self)@, final(self)@, r is Ok),
        decreases rem(old(self)@), 25int,
    {
        assert(labelled(self@) == labelled_rule(self@));
        self.skip_punct(Punct::Colon)?;
        let label: usize = self.unique_label()?;
        let body = self.parse_stmt()?;
        Ok((label, body))
    }

    fn switch_type(&self) -> (r: Option<ConstType>)
        ensures
            r == (match self@.active_switch {
                Some(switch) => Some(switch.ty),
                None => None,
            }),
    {
        proof {
            reveal(Parser::view);
        }
        match &self.active_switch {
            Some(switch) => Some(switch.ty),
            None => None,
        }
    }

    fn cast_case(&self, value: ConstValue, ty: ConstType) -> (r: Result<ConstValue, Error>)
        ensures
            crate::parse::state::floated(self@, value.spec_cast(ty, self@.input.floats)) == (Out {
                st: self@,
                r,
            }),
    {
        proof {
            reveal(Parser::view);
        }
        match value.cast(ty, &self.floats) {
            Ok(value) => Ok(value),
            Err(query) => Err(Error::NeedsFloat(query)),
        }
    }

    /// Add a case to the active switch.
    fn add_case(&mut self, case: CaseLabel, span: SourceSpan) -> (r: Result<(), Error>)
        requires
            old(self).inv(),
        ensures
            final(self).inv(),
            match add_case(old(self)@, case) {
                Err(message) => r == Err::<(), Error>(Error::Terminate(span, message))
                    && final(self)@ == old(self)@,
                Ok(st) => r is Ok && final(self)@ == st,
            },
            pauses(old(self)@, final(self)@, true),
    {
        proof {
            reveal(add_case);
            reveal(Parser::view);
        }
        match &mut self.active_switch {
            None => Err(Error::Terminate(span, Message::CaseOutsideSwitch)),
            Some(switch) => {
                if case_exists(&switch.cases, case.value) {
                    return Err(Error::Terminate(span, Message::DuplicateCase));
                }
                switch.cases.push(case);
                Ok(())
            },
        }
    }

    /// Set the default label of the active switch.
    fn add_default(&mut self, label: usize, span: SourceSpan) -> (r: Result<(), Error>)
        requires
            old(self).inv(),
        ensures
            final(self).inv(),
            match add_default(old(self)@, label) {
                Err(message) => r == Err::<(), Error>(Error::Terminate(span, message))
                    && final(self)@ == old(self)@,
                Ok(st) => r is Ok && final(self)@ == st,
            },
            pauses(old(self)@, final(self)@, true),
    {
        proof {
            reveal(add_default);
            reveal(Parser::view);
        }
        match &mut self.active_switch {
            None => Err(Error::Terminate(span, Message::DefaultOutsideSwitch)),
            Some(switch) => {
                if switch.default.is_some() {
                    return Err(Error::Terminate(span, Message::MultipleDefaults));
                }
                switch.default = Some(label);
                Ok(())
            },
        }
    }

    pub(crate) fn parse_case(&mut self, span: SourceSpan) -> (r: Result<Stmt, Error>)
        requires
            old(self).inv(),
        ensures
            final(self).inv(),
            case_stmt(old(self)@, span) == (Out { st: final(self)@, r }),
            moves(old(self)@, final(self)@, r is Ok),
        decreases rem(old(self)@), 26int,
    {
        assert(case_stmt(self@, span) == case_stmt_rule(self@, span));
        let Some(ty) = self.switch_type() else {
            return Err(Error::Terminate(span, Message::CaseOutsideSwitch));
        };
        self.parse_case_of(ty, span)
    }

    pub(crate) fn parse_case_of(
        &mut self,
        ty: ConstType,
        span: SourceSpan,
    ) -> (r: Result<Stmt, Error>)
        requires
            old(self).inv(),
        ensures
            final(self).inv(),
            case_of(old(self)@, ty, span) == (Out { st: final(self)@, r }),
            moves(old(self)@, final(self)@, r is Ok),
        decreases rem(old(self)@), 25int,
    {
        assert(case_of(self@, ty, span) == case_of_rule(self@, ty, span));
        let value = self.parse_case_value(ty)?;
        let (label, body) = self.parse_labelled()?;
        self.end_case(value, label, body, span)
    }

    pub(crate) fn end_case(
        &mut self,
        value: ConstValue,
        label: usize,
        body: Stmt,
        span: SourceSpan,
    ) -> (r: Result<Stmt, Error>)
        requires
            old(self).inv(),
        ensures
            final(self).inv(),
            end_case(old(self)@, value, label, body, span) == (Out { st: final(self)@, r }),
            pauses(old(self)@, final(self)@, r is Ok),
    {
        proof {
            reveal(end_case);
        }
        self.add_case(CaseLabel { value, label }, span)?;
        Ok(Stmt::case(label, body, span))
    }

    pub(crate) fn parse_case_value(&mut self, ty: ConstType) -> (r: Result<ConstValue, Error>)
        requires
            old(self).inv(),
        ensures
            final(self).inv(),
            case_value(old(self)@, ty) == (Out { st: final(self)@, r }),
            moves(old(self)@, final(self)@, r is Ok),
        decreases rem(old(self)@), 24int,
    {
        assert(case_value(self@, ty) == case_value_rule(self@, ty));
        let value = self.parse_constexpr()?;
        self.cast_case(value, ty)
    }

    pub(crate) fn parse_default(&mut self, span: SourceSpan) -> (r: Result<Stmt, Error>)
        requires
            old(self).inv(),
        ensures
            final(self).inv(),
            default_stmt(old(self)@, span) == (Out { st: final(self)@, r }),
            moves(old(self)@, final(self)@, r is Ok),
        decreases rem(old(self)@), 26int,
    {
        assert(default_stmt(self@, span) == default_stmt_rule(self@, span));
        let (label, body) = self.parse_labelled()?;
        self.add_default(label, span)?;
        Ok(Stmt::case(label, body, span))
    }

    pub(crate) fn new_loop_labels(&mut self) -> (r: Result<(usize, usize), Error>)
        requires
            old(self).inv(),
        ensures
            final(self).inv(),
            loop_labels(old(self)@) == (Out { st: final(self)@, r }),
            pauses(old(self)@, final(self)@, r is Ok),
    {
        let brk: usize = self.unique_label()?;
        let cont: usize = self.unique_label()?;
        self.set_loop_labels(Some(brk), Some(cont));
        Ok((brk, cont))
    }

    pub(crate) fn parse_optional_expr(&mut self, end: Punct) -> (r: Result<Option<Node>, Error>)
        requires
            old(self).inv(),
        ensures
            final(self).inv(),
            optional_expr(old(self)@, end) == (Out { st: final(self)@, r }),
            moves(old(self)@, final(self)@, r is Ok),
        decreases rem(old(self)@), 22int,
    {
        assert(optional_expr(self@, end) == optional_expr_rule(self@, end));
        if self.at(end) {
            self.advance();
            return Ok(None);
        }
        let expr = self.parse_expr_until(end)?;
        Ok(Some(expr))
    }

    pub(crate) fn parse_expr_until(&mut self, end: Punct) -> (r: Result<Node, Error>)
        requires
            old(self).inv(),
        ensures
            final(self).inv(),
            expr_until(old(self)@, end) == (Out { st: final(self)@, r }),
            moves(old(self)@, final(self)@, r is Ok),
        decreases rem(old(self)@), 21int,
    {
        assert(expr_until(self@, end) == expr_until_rule(self@, end));
        let expr = self.parse_expr()?;
        self.skip_punct(end)?;
        Ok(expr)
    }

    pub(crate) fn parse_for(&mut self, span: SourceSpan) -> (r: Result<Stmt, Error>)
        requires
            old(self).inv(),
        ensures
            final(self).inv(),
            for_stmt(old(self)@, span) == (Out { st: final(self)@, r }),
            moves(old(self)@, final(self)@, r is Ok),
        decreases rem(old(self)@), 26int,
    {
        assert(for_stmt(self@, span) == for_stmt_rule(self@, span));
        self.skip_punct(Punct::LParen)?;
        self.enter_scope();
        let prev_brk = self.brk_label();
        let prev_cont = self.cont_label();
        let (brk, cont) = self.new_loop_labels()?;
        let init = self.parse_for_init()?;
        let cond = self.parse_optional_expr(Punct::Semi)?;
        let inc = self.parse_optional_expr(Punct::RParen)?;
        let body = self.parse_stmt()?;
        self.set_loop_labels(prev_brk, prev_cont);
        self.leave_scope();
        Ok(Stmt::for_(init, cond, inc, body, brk, cont, span))
    }

    pub(crate) fn parse_for_init(&mut self) -> (r: Result<Stmt, Error>)
        requires
            old(self).inv(),
        ensures
            final(self).inv(),
            for_init(old(self)@) == (Out { st: final(self)@, r }),
            moves(old(self)@, final(self)@, r is Ok),
        decreases rem(old(self)@), 24int,
    {
        assert(for_init(self@) == for_init_rule(self@));
        if self.at_typename() {
            let declspec = self.parse_declspec(DeclspecContext::ForLoopInitializer)?;
            return self.parse_declaration(declspec);
        }
        self.parse_expr_stmt()
    }

    pub(crate) fn parse_while(&mut self, span: SourceSpan) -> (r: Result<Stmt, Error>)
        requires
            old(self).inv(),
        ensures
            final(self).inv(),
            while_stmt(old(self)@, span) == (Out { st: final(self)@, r }),
            moves(old(self)@, final(self)@, r is Ok),
        decreases rem(old(self)@), 26int,
    {
        assert(while_stmt(self@, span) == while_stmt_rule(self@, span));
        let cond = self.parse_condition()?;
        let prev_brk = self.brk_label();
        let prev_cont = self.cont_label();
        let (brk, cont) = self.new_loop_labels()?;
        let body = self.parse_stmt()?;
        self.set_loop_labels(prev_brk, prev_cont);
        Ok(Stmt::while_(cond, body, false, brk, cont, span))
    }

    pub(crate) fn parse_do(&mut self, span: SourceSpan) -> (r: Result<Stmt, Error>)
        requires
            old(self).inv(),
        ensures
            final(self).inv(),
            do_stmt(old(self)@, span) == (Out { st: final(self)@, r }),
            moves(old(self)@, final(self)@, r is Ok),
        decreases rem(old(self)@), 26int,
    {
        assert(do_stmt(self@, span) == do_stmt_rule(self@, span));
        let prev_brk = self.brk_label();
        let prev_cont = self.cont_label();
        let (brk, cont) = self.new_loop_labels()?;
        let body = self.parse_stmt()?;
        self.set_loop_labels(prev_brk, prev_cont);
        if !self.at_keyword(Keyword::While) {
            return Err(self.error_current(Message::ExpectedWhile));
        }
        self.advance();
        let cond = self.parse_condition()?;
        self.skip_punct(Punct::Semi)?;
        Ok(Stmt::while_(cond, body, true, brk, cont, span))
    }

    pub(crate) fn parse_goto(&mut self, span: SourceSpan) -> (r: Result<Stmt, Error>)
        requires
            old(self).inv(),
        ensures
            final(self).inv(),
            goto_stmt(old(self)@, span) == (Out { st: final(self)@, r }),
            moves(old(self)@, final(self)@, r is Ok),
    {
        let Some(name) = self.ident() else {
            return Err(self.error_current(Message::ExpectedIdent));
        };
        self.advance();
        self.skip_punct(Punct::Semi)?;
        Ok(Stmt::goto(name, span))
    }

    pub(crate) fn parse_jump(&mut self, label: usize, span: SourceSpan) -> (r: Result<Stmt, Error>)
        requires
            old(self).inv(),
        ensures
            final(self).inv(),
            jump_stmt(old(self)@, label, span) == (Out { st: final(self)@, r }),
            moves(old(self)@, final(self)@, r is Ok),
    {
        self.skip_punct(Punct::Semi)?;
        Ok(Stmt::jump(label, span))
    }

    pub(crate) fn parse_label(&mut self, name: Symbol, span: SourceSpan) -> (r: Result<Stmt, Error>)
        requires
            old(self).inv(),
        ensures
            final(self).inv(),
            label_stmt(old(self)@, name, span) == (Out { st: final(self)@, r }),
            moves(old(self)@, final(self)@, r is Ok),
        decreases rem(old(self)@), 25int,
    {
        assert(label_stmt(self@, name, span) == label_stmt_rule(self@, name, span));
        let label: usize = self.unique_label()?;
        let body = self.parse_stmt()?;
        Ok(Stmt::label(label, body, name, span))
    }

    /// ```bnf
    /// <expr-stmt> ::= <expr>? ";"
    /// ```
    pub(crate) fn parse_expr_stmt(&mut self) -> (r: Result<Stmt, Error>)
        requires
            old(self).inv(),
        ensures
            final(self).inv(),
            expr_stmt(old(self)@) == (Out { st: final(self)@, r }),
            moves(old(self)@, final(self)@, r is Ok),
        decreases rem(old(self)@), 23int,
    {
        assert(expr_stmt(self@) == expr_stmt_rule(self@));
        let span = self.here();
        if self.at(Punct::Semi) {
            self.advance();
            return Ok(Stmt::block(StmtList::Nil, span));
        }
        let expr = self.parse_expr()?;
        self.skip_punct(Punct::Semi)?;
        Ok(Stmt::expr(expr, span))
    }

    /// ```bnf
    /// <compound-stmt> ::= (<declaration> | <stmt>)* "}"
    /// ```
    pub fn parse_compound_stmt(&mut self) -> (r: Result<StmtList, Error>)
        requires
            old(self).inv(),
        ensures
            final(self).inv(),
            compound_stmt(old(self)@) == (Out { st: final(self)@, r }),
            moves(old(self)@, final(self)@, r is Ok),
        decreases rem(old(self)@), 27int,
    {
        assert(compound_stmt(self@) == compound_stmt_rule(self@));
        self.enter_scope();
        let stmts = self.parse_block_items()?;
        self.leave_scope();
        self.advance();
        Ok(StmtList::from_vec(stmts))
    }

    pub(crate) fn parse_block_items(&mut self) -> (r: Result<Vec<Stmt>, Error>)
        requires
            old(self).inv(),
        ensures
            final(self).inv(),
            block_items(old(self)@, Seq::empty()) == (Out {
                st: final(self)@,
                r: match r {
                    Ok(x) => Ok(x@),
                    Err(e) => Err(e),
                },
            }),
            stays(old(self)@, final(self)@, r is Ok),
            r is Ok ==> at(final(self)@, Punct::RBrace),
        decreases rem(old(self)@), 26int,
    {
        assert(block_items(self@, Seq::empty()) == block_items_rule(self@, Seq::empty()));
        let mut stmts: Vec<Stmt> = Vec::new();
        assert(stmts@ =~= Seq::<Stmt>::empty());
        while !self.at(Punct::RBrace)
            invariant
                self.inv(),
                stays(old(self)@, self@, true),
                block_items(old(self)@, Seq::empty()) == block_items(self@, stmts@),
            decreases rem(self@),
        {
            assert(block_items(self@, stmts@) == block_items_rule(self@, stmts@));
            if let Some(stmt) = self.parse_block_item()? {
                let stmt = self.infer_type_stmt(stmt)?;
                stmts.push(stmt);
            }
        }
        assert(block_items(self@, stmts@) == block_items_rule(self@, stmts@));
        Ok(stmts)
    }

    pub(crate) fn parse_block_item(&mut self) -> (r: Result<Option<Stmt>, Error>)
        requires
            old(self).inv(),
        ensures
            final(self).inv(),
            block_item(old(self)@) == (Out { st: final(self)@, r }),
            moves(old(self)@, final(self)@, r is Ok),
        decreases rem(old(self)@), 25int,
    {
        assert(block_item(self@) == block_item_rule(self@));
        if self.at_typename() && !self.next_is(Punct::Colon) {
            let declspec = self.parse_declspec(DeclspecContext::BlockScopeDecl)?;
            if declspec.storage_class == Some(StorageClass::Typedef) {
                self.parse_typedef_tail(declspec.ty, declspec.noreturn)?;
                return Ok(None);
            }
            let stmt = self.parse_declaration(declspec)?;
            return Ok(Some(stmt));
        }
        let stmt = self.parse_stmt()?;
        Ok(Some(stmt))
    }

    /// ```bnf
    /// <declaration> ::=
    ///   <declspec> (<declarator-init> ("," <declarator-init>)*)? ";"
    /// <declarator-init> ::= <declarator> ("=" <initializer>)?
    /// ```
    ///
    /// The declaration specifiers have been taken.
    pub(crate) fn parse_declaration(&mut self, ds: Declspec) -> (r: Result<Stmt, Error>)
        requires
            old(self).inv(),
        ensures
            final(self).inv(),
            declaration(old(self)@, ds) == (Out { st: final(self)@, r }),
            moves(old(self)@, final(self)@, r is Ok),
        decreases rem(old(self)@), 23int,
    {
        assert(declaration(self@, ds) == declaration_rule(self@, ds));
        let span = self.here();
        if self.at(Punct::Semi) {
            self.warn_current(Message::UselessTypeName);
            self.advance();
            return Ok(Stmt::block(StmtList::Nil, span));
        }
        let stmts: Vec<Stmt> = Vec::new();
        assert(stmts@ =~= Seq::<Stmt>::empty());
        let stmts = self.parse_declarations(ds, stmts)?;
        Ok(Stmt::block(StmtList::from_vec(stmts), span))
    }

    pub(crate) fn parse_declarations(
        &mut self,
        ds: Declspec,
        stmts: Vec<Stmt>,
    ) -> (r: Result<Vec<Stmt>, Error>)
        requires
            old(self).inv(),
        ensures
            final(self).inv(),
            declarations(old(self)@, ds, stmts@) == (Out {
                st: final(self)@,
                r: match r {
                    Ok(x) => Ok(x@),
                    Err(e) => Err(e),
                },
            }),
            moves(old(self)@, final(self)@, r is Ok),
        decreases rem(old(self)@), 22int,
    {
        assert(declarations(self@, ds, stmts@) == declarations_rule(self@, ds, stmts@));
        let declarator = self.parse_declarator(ds.ty, false)?;
        let Some(name) = declarator.name else {
            return Err(Error::Terminate(declarator.span, Message::MissingDeclaratorName));
        };
        let stmts = self.declare(ds, name, declarator.ty, declarator.span, stmts)?;
        if self.at(Punct::Comma) {
            self.advance();
            return self.parse_declarations(ds, stmts);
        }
        if self.at(Punct::Semi) {
            self.advance();
            return Ok(stmts);
        }
        Err(self.error_current(Message::ExpectedCommaOrSemi))
    }

    /// Check whether a declaration would conflict with an existing binding in
    /// the current scope.
    ///
    /// This should (and should only) be called before introducing a block-scope
    /// object with no linkage.
    fn no_linkage_conflict(&self, name: Symbol) -> (r: Option<Message>)
        requires
            self.inv(),
        ensures
            r == no_linkage_conflict(self@, name),
    {
        match self.find_ident_current(name) {
            None => None,
            Some(OrdinaryIdent::Global(_, true)) => Some(Message::NoLinkageAfterExtern),
            Some(OrdinaryIdent::Local(_)) | Some(OrdinaryIdent::Global(_, false)) => {
                Some(Message::RedefinitionOfLocal)
            },
            Some(_) => Some(Message::DifferentKindOfSymbol),
        }
    }

    pub(crate) fn declare(
        &mut self,
        ds: Declspec,
        name: Symbol,
        ty: Type,
        span: SourceSpan,
        stmts: Vec<Stmt>,
    ) -> (r: Result<Vec<Stmt>, Error>)
        requires
            old(self).inv(),
        ensures
            final(self).inv(),
            declare(old(self)@, ds, name, ty, span, stmts@) == (Out {
                st: final(self)@,
                r: match r {
                    Ok(x) => Ok(x@),
                    Err(e) => Err(e),
                },
            }),
            stays(old(self)@, final(self)@, r is Ok),
        decreases rem(old(self)@), 3int,
    {
        assert(declare(
            self@,
            ds,
            name,
            ty,
            span,
            stmts@,
        ) == declare_rule(self@, ds, name, ty, span, stmts@));
        // Block-scope function declaration, e.g., "int f(int);"
        if self.is_func(ty) {
            if self.at(Punct::Assign) {
                return Err(Error::Terminate(span, Message::FunctionInitialized));
            }
            if !matches!(ds.storage_class, None | Some(StorageClass::Extern)) {
                return Err(Error::Terminate(span, Message::InvalidFunctionStorage));
            }
            let _ = self.declare_function(name, ty, ds.noreturn, span)?;
            return Ok(stmts);
        }
        if ds.noreturn {
            self.warn_at(span, Message::VariableNoreturn);
        }
        match ds.storage_class {
            // Block-scope object declaration with linkage
            Some(StorageClass::Extern) => {
                if self.at(Punct::Assign) {
                    return Err(Error::Terminate(span, Message::ExternInitialized));
                }
                let _ = self.declare_global(name, ty, ds.align, GlobalStorage::Decl, false, span)?;
                Ok(stmts)
            },
            // Block-scope static object
            Some(StorageClass::Static) => {
                if let Some(message) = self.no_linkage_conflict(name) {
                    return Err(Error::Terminate(span, message));
                }
                self.declare_static(ds, name, ty, span)?;
                Ok(stmts)
            },
            // Normal local object
            _ => {
                if let Some(message) = self.no_linkage_conflict(name) {
                    return Err(Error::Terminate(span, message));
                }
                self.declare_local(ds, name, ty, span, stmts)
            },
        }
    }

    pub(crate) fn parse_static_storage(
        &mut self,
        ty: Type,
        absent: GlobalStorage,
    ) -> (r: Result<(GlobalStorage, Type), Error>)
        requires
            old(self).inv(),
        ensures
            final(self).inv(),
            static_storage(old(self)@, ty, absent@) == (Out {
                st: final(self)@,
                r: match r {
                    Ok(x) => Ok((x.0@, x.1)),
                    Err(e) => Err(e),
                },
            }),
            stays(old(self)@, final(self)@, r is Ok),
        decreases rem(old(self)@), 1int,
    {
        assert(static_storage(self@, ty, absent@) == static_storage_rule(self@, ty, absent@));
        if self.at(Punct::Assign) {
            let depth: usize = self.types_len();
            self.advance();
            let init = self.parse_initializer(ty, depth)?;
            let ty = init.ty();
            let storage = self.new_global_init(init)?;
            return Ok((storage, ty));
        }
        Ok((absent, ty))
    }

    pub(crate) fn declare_static(
        &mut self,
        ds: Declspec,
        name: Symbol,
        ty: Type,
        span: SourceSpan,
    ) -> (r: Result<(), Error>)
        requires
            old(self).inv(),
        ensures
            final(self).inv(),
            declare_static(old(self)@, ds, name, ty, span) == (Out { st: final(self)@, r }),
            stays(old(self)@, final(self)@, r is Ok),
        decreases rem(old(self)@), 2int,
    {
        assert(declare_static(self@, ds, name, ty, span) == declare_static_rule(self@, ds, name, ty, span));
        let (storage, ty) = self.parse_static_storage(ty, GlobalStorage::Zero)?;
        if self.is_incomplete(ty) {
            return Err(Error::Terminate(span, Message::VariableIncomplete));
        }
        // A block-scope static object is backed by a hidden global
        // storage, then its spelled local name is bound to that storage
        // (with no linkage)
        let label: usize = self.unique_label()?;
        let id: usize = self.create_global(Name::Unique(label), ty, ds.align, storage, true);
        self.push_scope_ident(name, OrdinaryIdent::Global(id, false));
        Ok(())
    }

    fn set_local_type(&mut self, id: usize, ty: Type)
        requires
            old(self).inv(),
        ensures
            final(self).inv(),
            final(self)@ == with_local_ty(old(self)@, id as int, ty),
    {
        proof {
            reveal(Parser::view);
        }
        if id < self.locals.len() {
            let mut local = self.locals[id];
            local.ty = ty;
            self.locals.set(id, local);
        }
    }

    pub(crate) fn declare_local(
        &mut self,
        ds: Declspec,
        name: Symbol,
        ty: Type,
        span: SourceSpan,
        stmts: Vec<Stmt>,
    ) -> (r: Result<Vec<Stmt>, Error>)
        requires
            old(self).inv(),
        ensures
            final(self).inv(),
            declare_local(old(self)@, ds, name, ty, span, stmts@) == (Out {
                st: final(self)@,
                r: match r {
                    Ok(x) => Ok(x@),
                    Err(e) => Err(e),
                },
            }),
            stays(old(self)@, final(self)@, r is Ok),
        decreases rem(old(self)@), 2int,
    {
        assert(declare_local(
            self@,
            ds,
            name,
            ty,
            span,
            stmts@,
        ) == declare_local_rule(self@, ds, name, ty, span, stmts@));
        let id: usize = self.create_local(Some(name), ty, ds.align);
        let (stmts, ty) = self.parse_local_initializer(id, ty, stmts)?;
        if self.is_incomplete(ty) {
            return Err(Error::Terminate(span, Message::VariableIncomplete));
        }
        self.set_local_type(id, ty);
        Ok(stmts)
    }

    pub(crate) fn parse_local_initializer(
        &mut self,
        id: usize,
        ty: Type,
        stmts: Vec<Stmt>,
    ) -> (r: Result<(Vec<Stmt>, Type), Error>)
        requires
            old(self).inv(),
        ensures
            final(self).inv(),
            local_initializer(old(self)@, id, ty, stmts@) == (Out {
                st: final(self)@,
                r: match r {
                    Ok(x) => Ok((x.0@, x.1)),
                    Err(e) => Err(e),
                },
            }),
            stays(old(self)@, final(self)@, r is Ok),
        decreases rem(old(self)@), 1int,
    {
        assert(local_initializer(self@, id, ty, stmts@) == local_initializer_rule(self@, id, ty, stmts@));
        if self.at(Punct::Assign) {
            let span = self.here();
            let depth: usize = self.types_len();
            self.advance();
            let init = self.parse_initializer(ty, depth)?;
            let ty = init.ty();
            let mut stmts = stmts;
            self.new_local_init(id, init, span, &mut stmts)?;
            return Ok((stmts, ty));
        }
        Ok((stmts, ty))
    }

    /// ```bnf
    /// <typedef-tail> ::= <declarator> ("," <declarator>)* ";"
    /// ```
    pub(crate) fn parse_typedef_tail(
        &mut self,
        base: Type,
        noreturn: bool,
    ) -> (r: Result<(), Error>)
        requires
            old(self).inv(),
        ensures
            final(self).inv(),
            typedef_tail(old(self)@, base, noreturn) == (Out { st: final(self)@, r }),
            moves(old(self)@, final(self)@, r is Ok),
        decreases rem(old(self)@), 23int,
    {
        assert(typedef_tail(self@, base, noreturn) == typedef_tail_rule(self@, base, noreturn));
        if self.at(Punct::Semi) {
            self.warn_current(Message::UselessTypeName);
            self.advance();
            return Ok(());
        }
        self.parse_typedefs(base, noreturn)
    }

    pub(crate) fn parse_typedefs(&mut self, base: Type, noreturn: bool) -> (r: Result<(), Error>)
        requires
            old(self).inv(),
        ensures
            final(self).inv(),
            typedefs(old(self)@, base, noreturn) == (Out { st: final(self)@, r }),
            moves(old(self)@, final(self)@, r is Ok),
        decreases rem(old(self)@), 22int,
    {
        assert(typedefs(self@, base, noreturn) == typedefs_rule(self@, base, noreturn));
        let declarator = self.parse_declarator(base, false)?;
        if noreturn {
            self.warn_at(declarator.span, Message::TypedefNoreturn);
        }
        let Some(name) = declarator.name else {
            return Err(Error::Terminate(declarator.span, Message::MissingTypedefName));
        };
        if let Some(ident) = self.find_ident_current(name) {
            match ident {
                OrdinaryIdent::Typedef(ty) => {
                    // Duplicate typedef with same type is allowed
                    if !self.same_type(ty, declarator.ty) {
                        return Err(Error::Terminate(declarator.span, Message::ConflictingTypes));
                    }
                },
                _ => {
                    return Err(Error::Terminate(declarator.span, Message::DifferentKindOfSymbol));
                },
            }
        }
        self.push_scope_ident(name, OrdinaryIdent::Typedef(declarator.ty));
        if self.at(Punct::Comma) {
            self.advance();
            return self.parse_typedefs(base, noreturn);
        }
        if self.at(Punct::Semi) {
            self.advance();
            return Ok(());
        }
        Err(self.error_current(Message::ExpectedCommaOrSemi))
    }

    fn same_type(&self, this: Type, other: Type) -> (r: bool)
        ensures
            r == crate::types::same(self@.types, this, other),
    {
        proof {
            reveal(Parser::view);
        }
        self.types.same_type(this, other)
    }

    /// Create local variables for function parameters.
    ///
    /// Parameters are pushed in declaration order to ensure the first parameter
    /// gets the lowest local ID.
    #[verifier::loop_isolation(false)]
    fn create_param_locals(&mut self, params: &Vec<Parameter>) -> (r: Result<Vec<usize>, Error>)
        requires
            old(self).inv(),
        ensures
            final(self).inv(),
            param_locals(old(self)@, params@) == (Out {
                st: final(self)@,
                r: match r {
                    Ok(x) => Ok(x@),
                    Err(e) => Err(e),
                },
            }),
            pauses(old(self)@, final(self)@, true),
    {
        proof {
            reveal(param_locals);
        }
        let mut n: usize = params.len();
        assert(params@.take(n as int) =~= params@);
        while n > 0
            invariant
                n <= params@.len(),
                last_unnamed(params@) == last_unnamed(params@.take(n as int)),
            decreases n,
        {
            n -= 1;
            let param = params[n];
            assert(params@.take(n + 1).drop_last() =~= params@.take(n as int));
            assert(params@.take(n + 1).last() == param);
            if param.name.is_none() {
                return Err(Error::Terminate(param.span, Message::MissingParamName));
            }
        }
        let mut ids: Vec<usize> = Vec::new();
        while n < params.len()
            invariant
                self.inv(),
                n <= params@.len(),
                ids@ == Seq::new(n as nat, |k: int| (old(self)@.locals.len() + k) as usize),
                self@ == with_params(old(self)@, params@.take(n as int)),
            decreases params.len() - n,
        {
            proof {
                parameters_become_locals_in_order(old(self)@, params@.take(n as int));
                assert(params@.take(n + 1).drop_last() =~= params@.take(n as int));
            }
            let param = params[n];
            let id: usize = self.create_local(param.name, param.ty, None);
            ids.push(id);
            n += 1;
            assert(ids@ =~= Seq::new(n as nat, |k: int| (old(self)@.locals.len() + k) as usize));
        }
        proof {
            assert(params@.take(n as int) =~= params@);
            parameters_become_locals_in_order(old(self)@, params@);
        }
        Ok(ids)
    }

    /// Return whether a function type takes a variable number of arguments.
    fn variadic(&self, ty: Type) -> (r: Option<bool>)
        ensures
            r == (match func_of(self@.types, ty, false) {
                Some(TypeForm::Func { is_variadic, .. }) => Some(is_variadic),
                _ => None,
            }),
    {
        proof {
            reveal(Parser::view);
        }
        match self.types.as_func(ty, false) {
            Some(func) => Some(func.is_variadic),
            None => None,
        }
    }

    /// Return whether a function is defined, if there is such a function.
    fn is_defined(&self, id: usize) -> (r: Option<bool>)
        ensures
            r == (if id < self@.functions.len() {
                Some(self@.functions[id as int].body is Some)
            } else {
                None
            }),
    {
        proof {
            reveal(Parser::view);
        }
        if id < self.functions.len() {
            Some(self.functions[id].body.is_some())
        } else {
            None
        }
    }

    /// ```bnf
    /// <function> ::= <declarator> (";" | "{" <compound-stmt>)
    /// ```
    pub(crate) fn parse_function(
        &mut self,
        return_ty: Type,
        is_static: bool,
        noreturn: bool,
    ) -> (r: Result<(), Error>)
        requires
            old(self).inv(),
        ensures
            final(self).inv(),
            function(old(self)@, return_ty, is_static, noreturn) == (Out { st: final(self)@, r }),
            moves(old(self)@, final(self)@, r is Ok),
    {
        proof {
            reveal(function);
        }
        let declarator = self.parse_declarator(return_ty, false)?;
        let Some(name) = declarator.name else {
            return Err(Error::Terminate(declarator.span, Message::MissingFunctionName));
        };
        let Some(is_variadic) = self.variadic(declarator.ty) else {
            return Err(self.error_current(Message::ExpectedFunction));
        };
        let id: usize = self.declare_function(name, declarator.ty, noreturn, declarator.span)?;
        if self.at(Punct::Semi) {
            self.advance();
            return Ok(());
        }
        match self.is_defined(id) {
            None => Err(Error::Overflow),
            Some(true) => Err(Error::Terminate(declarator.span, Message::RedefinitionOfFunction)),
            Some(false) => self.parse_function_body(id, &declarator.params, is_variadic, is_static),
        }
    }

    pub(crate) fn create_va_area(&mut self, is_variadic: bool) -> (r: Result<Option<usize>, Error>)
        requires
            old(self).inv(),
        ensures
            final(self).inv(),
            va_area_local(old(self)@, is_variadic) == (Out { st: final(self)@, r }),
            pauses(old(self)@, final(self)@, r is Ok),
    {
        if !is_variadic {
            return Ok(None);
        }
        let span = self.here();
        let ty = self.new_array(Type::Arith(ArithType::Char), Some(VA_AREA_SIZE), span)?;
        let name = self.va_area_name();
        Ok(Some(self.create_local(Some(name), ty, None)))
    }

    fn va_area_name(&self) -> (r: Symbol)
        ensures
            r == self@.input.hidden.va_area,
    {
        proof {
            reveal(Parser::view);
        }
        self.hidden.va_area
    }

    fn function_spelling(&self) -> (r: Vec<u8>)
        ensures
            r@ == function_spelling(self@),
    {
        proof {
            reveal(Parser::view);
        }
        if let Some(id) = self.active_function {
            if id < self.functions.len() {
                let name = self.functions[id].name;
                assert(self@.functions[id as int] == self.functions@[id as int]@);
                if name.0 < self.names.len() {
                    return copy_bytes(self.names[name.0].as_slice());
                }
            }
        }
        let none: Vec<u8> = Vec::new();
        assert(none@ =~= Seq::<u8>::empty());
        none
    }

    fn bind_function_name(&mut self, name: Symbol) -> (r: Result<(), Error>)
        requires
            old(self).inv(),
        ensures
            final(self).inv(),
            bind_function_name(old(self)@, name) == (Out { st: final(self)@, r }),
            pauses(old(self)@, final(self)@, r is Ok),
    {
        proof {
            reveal(bind_function_name);
        }
        let span = self.here();
        let mut text = self.function_spelling();
        let len: usize = text.len();
        if len == usize::MAX {
            return Err(Error::Overflow);
        }
        let ty = self.new_array(Type::Arith(ArithType::Char), Some(len + 1), span)?;
        let label: usize = self.unique_label()?;
        text.push(0);
        let relocations: Vec<Relocation> = Vec::new();
        assert(relocations@ =~= Seq::<Relocation>::empty());
        let data = GlobalInitData { bytes: text, relocations };
        let id: usize = self.create_global(
            Name::Unique(label),
            ty,
            None,
            GlobalStorage::Data(data),
            true,
        );
        self.push_scope_ident(name, OrdinaryIdent::Global(id, false));
        Ok(())
    }

    fn bind_function_names(&mut self) -> (r: Result<(), Error>)
        requires
            old(self).inv(),
        ensures
            final(self).inv(),
            bind_function_names(old(self)@) == (Out { st: final(self)@, r }),
            pauses(old(self)@, final(self)@, r is Ok),
    {
        proof {
            reveal(bind_function_names);
        }
        let hidden = self.hidden_names();
        self.bind_function_name(hidden.func)?;
        self.bind_function_name(hidden.function)
    }

    fn hidden_names(&self) -> (r: HiddenNames)
        ensures
            r == self@.input.hidden,
    {
        proof {
            reveal(Parser::view);
        }
        self.hidden
    }

    /// Begin the definition of a function.
    fn begin_function(&mut self, id: usize)
        requires
            old(self).inv(),
        ensures
            final(self).inv(),
            final(self)@ == in_function(old(self)@, id),
    {
        proof {
            reveal(Parser::view);
        }
        self.active_function = Some(id);
        self.locals = Vec::new();
        assert(self@.locals =~= Seq::<LocalVar>::empty());
        self.enter_scope();
    }

    /// End the definition of a function.
    fn end_function(
        &mut self,
        id: usize,
        body: Stmt,
        param_locals: Vec<usize>,
        va_area_local: Option<usize>,
        is_static: bool,
    ) -> (r: Result<(), Error>)
        requires
            old(self).inv(),
        ensures
            final(self).inv(),
            defined(
                old(self)@,
                id,
                body,
                Definition {
                    param_locals: param_locals@,
                    va_area_local,
                    stmts: StmtList::Nil,
                },
                is_static,
            ) == (Out { st: final(self)@, r }),
    {
        proof {
            reveal(Parser::view);
        }
        if id >= self.functions.len() {
            return Err(Error::Overflow);
        }
        let mut locals: Vec<LocalVar> = Vec::new();
        std::mem::swap(&mut locals, &mut self.locals);
        let old_function = &self.functions[id];
        let function = Function {
            name: old_function.name,
            ty: old_function.ty,
            body: Some(body),
            param_locals,
            ret_buf_local: old_function.ret_buf_local,
            va_area_local,
            locals,
            is_static,
            noreturn: old_function.noreturn,
        };
        self.functions.set(id, function);
        self.active_function = None;
        let ghost want = old(self)@.functions.update(id as int, function@);
        assert(self@.functions =~= want);
        assert(self@.locals =~= Seq::<LocalVar>::empty());
        Ok(())
    }

    pub(crate) fn parse_definition(&mut self, params: &Vec<Parameter>, is_variadic: bool) -> (r: Result<(Vec<usize>, Option<usize>, StmtList), Error>)
        requires
            old(self).inv(),
        ensures
            final(self).inv(),
            definition(old(self)@, params@, is_variadic) == (Out {
                st: final(self)@,
                r: match r {
                    Ok(x) => Ok(Definition { param_locals: x.0@, va_area_local: x.1, stmts: x.2 }),
                    Err(e) => Err(e),
                },
            }),
            moves(old(self)@, final(self)@, r is Ok),
    {
        proof {
            reveal(definition);
        }
        assert(params@.take(params@.len() as int) =~= params@);
        let ids = self.create_param_locals(params)?;
        let va_area = self.create_va_area(is_variadic)?;
        self.bind_function_names()?;
        self.skip_punct(Punct::LBrace)?;
        let stmts = self.parse_compound_stmt()?;
        Ok((ids, va_area, stmts))
    }

    pub(crate) fn parse_function_body(
        &mut self,
        id: usize,
        params: &Vec<Parameter>,
        is_variadic: bool,
        is_static: bool,
    ) -> (r: Result<(), Error>)
        requires
            old(self).inv(),
        ensures
            final(self).inv(),
            function_body(
                old(self)@,
                id,
                params@,
                is_variadic,
                is_static,
            ) == (Out { st: final(self)@, r }),
            moves(old(self)@, final(self)@, r is Ok),
    {
        proof {
            reveal(function_body);
        }
        let span = self.here();
        self.begin_function(id);
        let (ids, va_area, stmts) = self.parse_definition(params, is_variadic)?;
        self.leave_scope();
        let body = resolve_labels(Stmt::block(stmts, span))?;
        self.end_function(id, body, ids, va_area, is_static)
    }

    /// ```bnf
    /// <global-variable> ::= <declarator-init> ("," <declarator-init>)* ";"
    /// <declarator-init> ::= <declarator> ("=" <initializer>)?
    /// ```
    pub(crate) fn parse_global_variable(&mut self, ds: Declspec) -> (r: Result<(), Error>)
        requires
            old(self).inv(),
        ensures
            final(self).inv(),
            global_variable(old(self)@, ds) == (Out { st: final(self)@, r }),
            moves(old(self)@, final(self)@, r is Ok),
    {
        proof {
            reveal(global_variable);
        }
        if self.at(Punct::Semi) {
            self.warn_current(Message::UselessTypeName);
            self.advance();
            return Ok(());
        }
        self.parse_global_variables(ds)
    }

    pub(crate) fn parse_global_variables(&mut self, ds: Declspec) -> (r: Result<(), Error>)
        requires
            old(self).inv(),
        ensures
            final(self).inv(),
            global_variables(old(self)@, ds) == (Out { st: final(self)@, r }),
            moves(old(self)@, final(self)@, r is Ok),
        decreases rem(old(self)@),
    {
        assert(global_variables(self@, ds) == global_variables_rule(self@, ds));
        let declarator = self.parse_declarator(ds.ty, false)?;
        let Some(name) = declarator.name else {
            return Err(Error::Terminate(declarator.span, Message::MissingVariableName));
        };
        self.declare_global_variable(ds, name, declarator.ty, declarator.span)?;
        if self.at(Punct::Comma) {
            self.advance();
            return self.parse_global_variables(ds);
        }
        if self.at(Punct::Semi) {
            self.advance();
            return Ok(());
        }
        Err(self.error_current(Message::ExpectedCommaOrSemi))
    }

    /// Return whether a global variable has storage but no complete type.
    fn lacks_type(&self, id: usize) -> (r: Option<bool>)
        ensures
            r == (if id < self@.globals.len() {
                Some(
                    !(self@.globals[id as int].storage is Decl) && crate::types::is_incomplete_ty(
                        self@.types,
                        self@.globals[id as int].ty,
                    ),
                )
            } else {
                None
            }),
    {
        proof {
            reveal(Parser::view);
        }
        if id < self.globals.len() {
            let global = &self.globals[id];
            Some(
                !matches!(global.storage, GlobalStorage::Decl) && self.types.is_incomplete(
                    global.ty,
                ),
            )
        } else {
            None
        }
    }

    pub(crate) fn declare_global_variable(
        &mut self,
        ds: Declspec,
        name: Symbol,
        ty: Type,
        span: SourceSpan,
    ) -> (r: Result<(), Error>)
        requires
            old(self).inv(),
        ensures
            final(self).inv(),
            global_declarator(old(self)@, ds, name, ty, span) == (Out { st: final(self)@, r }),
            stays(old(self)@, final(self)@, r is Ok),
    {
        proof {
            reveal(global_declarator);
        }
        if ds.noreturn {
            self.warn_at(span, Message::VariableNoreturn);
        }
        if self.is_func(ty) {
            return Err(Error::Terminate(span, Message::ExpectedGlobalVariable));
        }
        let (storage, ty) = self.parse_static_storage(ty, storage_without_init(ds))?;
        self.define_global(ds, name, ty, storage, span)
    }

    pub(crate) fn define_global(
        &mut self,
        ds: Declspec,
        name: Symbol,
        ty: Type,
        storage: GlobalStorage,
        span: SourceSpan,
    ) -> (r: Result<(), Error>)
        requires
            old(self).inv(),
        ensures
            final(self).inv(),
            define_global(old(self)@, ds, name, ty, storage@, span) == (Out { st: final(self)@, r }),
            pauses(old(self)@, final(self)@, r is Ok),
    {
        proof {
            reveal(define_global);
        }
        let is_static = ds.storage_class == Some(StorageClass::Static);
        let id: usize = self.declare_global(name, ty, ds.align, storage, is_static, span)?;
        match self.lacks_type(id) {
            None => Err(Error::Overflow),
            Some(true) => Err(Error::Terminate(span, Message::VariableIncomplete)),
            Some(false) => Ok(()),
        }
    }

    /// Lookahead to determine whether we are at a `<function>`.
    pub(crate) fn at_function(&mut self) -> (r: Result<bool, Error>)
        requires
            old(self).inv(),
        ensures
            final(self).inv(),
            at_function(old(self)@) == (Out { st: final(self)@, r }),
            pauses(old(self)@, final(self)@, r is Ok),
    {
        proof {
            reveal(at_function);
        }
        if self.at(Punct::Semi) {
            return Ok(false);
        }
        let ghost before = self@;
        let cp = self.begin_speculation();
        let r = match self.parse_declarator(Type::Dummy, false) {
            Ok(declarator) => Ok(self.is_func(declarator.ty)),
            Err(e) => Err(e),
        };
        self.end_speculation(cp, Ghost(before));
        r
    }

    pub(crate) fn parse_external_decl(&mut self) -> (r: Result<(), Error>)
        requires
            old(self).inv(),
        ensures
            final(self).inv(),
            external_decl(old(self)@) == (Out { st: final(self)@, r }),
            moves(old(self)@, final(self)@, r is Ok),
    {
        proof {
            reveal(external_decl);
        }
        let declspec = self.parse_declspec(DeclspecContext::FileScopeDecl)?;
        if declspec.storage_class == Some(StorageClass::Typedef) {
            return self.parse_typedef_tail(declspec.ty, declspec.noreturn);
        }
        if self.at_function()? {
            let is_static = declspec.storage_class == Some(StorageClass::Static);
            return self.parse_function(declspec.ty, is_static, declspec.noreturn);
        }
        self.parse_global_variable(declspec)
    }

    pub(crate) fn parse_external_decls(&mut self) -> (r: Result<(), Error>)
        requires
            old(self).inv(),
        ensures
            final(self).inv(),
            program(old(self)@) == (Out { st: final(self)@, r }),
            stays(old(self)@, final(self)@, r is Ok),
            r is Ok ==> cur(final(self)@) == TokenKind::Eof,
    {
        while !self.current().is_eof()
            invariant
                self.inv(),
                stays(old(self)@, self@, true),
                program(old(self)@) == program(self@),
            decreases rem(self@),
        {
            assert(program(self@) == program_rule(self@));
            self.parse_external_decl()?;
        }
        assert(program(self@) == program_rule(self@));
        Ok(())
    }

    /// ```bnf
    /// <program> ::= (<typedef> | <function> | <global-variable>)* <eof>
    /// ```
    pub fn parse_program(&mut self) -> (r: Result<Program, Error>)
        requires
            old(self).inv(),
        ensures
            match program(old(self)@).r {
                Ok(_) => r is Ok && r->Ok_0@ == (ProgramView {
                    types: program(old(self)@).st.types,
                    functions: program(old(self)@).st.functions,
                    globals: program(old(self)@).st.globals,
                }),
                Err(e) => r == Err::<Program, Error>(e),
            },
            final(self)@.warnings == program(old(self)@).st.warnings,
            r is Ok ==> cur(final(self)@) == TokenKind::Eof,
    {
        self.parse_external_decls()?;
        proof {
            reveal(Parser::view);
        }
        let mut types = TypeStore::default();
        let mut functions: Vec<Function> = Vec::new();
        let mut globals: Vec<GlobalVar> = Vec::new();
        std::mem::swap(&mut types, &mut self.types);
        std::mem::swap(&mut functions, &mut self.functions);
        std::mem::swap(&mut globals, &mut self.globals);
        Ok(Program { types, functions, globals })
    }
}

/// Give every goto in a function body the label it names.
fn resolve_labels(body: Stmt) -> (r: Result<Stmt, Error>)
    ensures
        r == with_labels(body),
{
    proof {
        reveal(with_labels);
    }
    let mut labels = map_new::<usize>();
    assert(labels@ =~= Map::<usize, usize>::empty());
    collect_labels_stmt(&body, &mut labels)?;
    resolve_gotos_stmt(body, &labels)
}

fn storage_without_init(ds: Declspec) -> (r: GlobalStorage)
    ensures
        r@ == absent_storage(ds),
{
    if ds.storage_class == Some(StorageClass::Extern) {
        GlobalStorage::Decl
    } else {
        GlobalStorage::Zero
    }
}

fn case_exists(cases: &Vec<CaseLabel>, value: ConstValue) -> (r: bool)
    ensures
        r == has_case(cases@, value),
{
    let mut i: usize = 0;
    while i < cases.len()
        invariant
            i <= cases.len(),
            forall|k: int| 0 <= k < i ==> (#[trigger] cases@[k]).value != value,
        decreases cases.len() - i,
    {
        if cases[i].value == value {
            assert(cases@[i as int].value == value);
            return true;
        }
        i += 1;
    }
    false
}

} // verus!
