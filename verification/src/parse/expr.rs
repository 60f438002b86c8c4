//! Parsing of expressions.

use vstd::prelude::*;
use crate::ast::{BinaryOp, EntityRef, GlobalInitData, GlobalStorage, Name, Node, NodeList};
use crate::constexpr::ConstValue;
use crate::error::{Error, Message};
use crate::parse::construct::zeroed;
use crate::parse::grammar::{
    and_expr, and_expr_rule, and_tail, and_tail_rule, assign, assign_op, assign_rule,
    at_compound_literal, at_compound_literal_rule, at_pos, at_postfix, binary, binary_op,
    binary_rule, binary_tail, binary_tail_rule, cast, cast_rule, compound_literal,
    compound_literal_rule, conditional, conditional_rule, constexpr, constexpr_rule,
    default_promoted, expr, expr_rule, func_args, func_args_rule, func_call, func_call_rule,
    lone_constexpr, measure, measure_rule, measured, named, operation, or_expr, or_expr_rule,
    or_tail, or_tail_rule, parenthesized, parenthesized_rule, postfix, postfix_rule, postfix_step,
    postfix_step_rule, postfix_tail, postfix_tail_rule, primary, primary_postfix,
    primary_postfix_rule, primary_rule, string_bytes, string_literal, string_of, unary, unary_rule,
};
use crate::parse::state::{
    adv, at, at_typename, cur, done, keeps, moves, pauses, rem, stays, Out, Parser,
};
use crate::scope::OrdinaryIdent;
use crate::source::SourceSpan;
use crate::tokenize::{Keyword, Punct, TokenKind};
use crate::types::{copy_types, func_of, ArithType, Type, TypeForm};

verus! {

impl Parser {
    /// Return the current position.
    pub fn position(&self) -> (r: usize)
        ensures
            r == self@.pos,
    {
        proof {
            reveal(Parser::view);
        }
        self.pos
    }

    /// Move to another position.
    pub fn set_position(&mut self, pos: usize)
        requires
            old(self).inv(),
            pos < old(self)@.input.tokens.len(),
        ensures
            final(self).inv(),
            final(self)@ == at_pos(old(self)@, pos as int),
    {
        proof {
            reveal(Parser::view);
        }
        self.pos = pos;
    }

    /// Return whether preprocessor rules are followed.
    pub fn preprocessing(&self) -> (r: bool)
        ensures
            r == self@.input.preprocess,
    {
        proof {
            reveal(Parser::view);
        }
        self.preprocess
    }

    /// Return whether "(" and what can be a typename are here.
    pub fn at_parenthesized_typename(&mut self) -> (r: bool)
        requires
            old(self).inv(),
        ensures
            final(self).inv(),
            final(self)@ == old(self)@,
            r == (at(old(self)@, Punct::LParen) && at_typename(adv(old(self)@))),
    {
        if !self.at(Punct::LParen) {
            return false;
        }
        let pos: usize = self.position();
        self.advance();
        let r = self.at_typename();
        self.set_position(pos);
        r
    }

    /// ```bnf
    /// <constexpr> ::= <conditional>
    /// ```
    ///
    /// Semantically, not every conditional expression is a valid constant
    /// expression, and that restriction is forced by [`Parser::eval`].
    pub fn parse_constexpr(&mut self) -> (r: Result<ConstValue, Error>)
        requires
            old(self).inv(),
        ensures
            final(self).inv(),
            constexpr(old(self)@) == (Out { st: final(self)@, r }),
            moves(old(self)@, final(self)@, r is Ok),
        decreases rem(old(self)@), 21int,
    {
        assert(constexpr(self@) == constexpr_rule(self@));
        let node = self.parse_conditional()?;
        let val = self.eval(node)?;
        if self.preprocessing() && !self.current().is_eof() {
            return Err(self.error_current(Message::ExtraneousTokens));
        }
        Ok(val)
    }

    /// Parse a constant expression that stands by itself.
    pub fn parse_lone_constexpr(&mut self) -> (r: Result<ConstValue, Error>)
        requires
            old(self).inv(),
        ensures
            final(self).inv(),
            lone_constexpr(old(self)@) == (Out { st: final(self)@, r }),
    {
        proof {
            reveal(lone_constexpr);
        }
        self.parse_constexpr()
    }

    /// ```bnf
    /// <expr> ::= <assign> ("," <expr>)?
    /// ```
    pub fn parse_expr(&mut self) -> (r: Result<Node, Error>)
        requires
            old(self).inv(),
        ensures
            final(self).inv(),
            expr(old(self)@) == (Out { st: final(self)@, r }),
            moves(old(self)@, final(self)@, r is Ok),
        decreases rem(old(self)@), 20int,
    {
        assert(expr(self@) == expr_rule(self@));
        let node = self.parse_assign()?;
        if self.at(Punct::Comma) {
            let span = self.here();
            self.advance();
            let rhs = self.parse_expr()?;
            return Ok(Node::comma(node, rhs, span));
        }
        Ok(node)
    }

    pub(crate) fn operation(
        &mut self,
        op: BinaryOp,
        lhs: Node,
        rhs: Node,
        span: SourceSpan,
    ) -> (r: Result<Node, Error>)
        requires
            old(self).inv(),
        ensures
            final(self).inv(),
            operation(old(self)@, op, lhs, rhs, span) == (Out { st: final(self)@, r }),
            pauses(old(self)@, final(self)@, r is Ok),
    {
        match op {
            BinaryOp::Add => self.new_add(lhs, rhs, span),
            BinaryOp::Sub => self.new_sub(lhs, rhs, span),
            _ => Ok(Node::binary(op, lhs, rhs, span)),
        }
    }

    /// ```bnf
    /// <assign> ::= <conditional> (<assign-op> <assign>)?
    /// <assign-op> ::=
    ///   "="
    ///   | "+="
    ///   | "-="
    ///   | "*="
    ///   | "/="
    ///   | "%="
    ///   | "&="
    ///   | "|="
    ///   | "^="
    ///   | "<<="
    ///   | ">>="
    /// ```
    pub fn parse_assign(&mut self) -> (r: Result<Node, Error>)
        requires
            old(self).inv(),
        ensures
            final(self).inv(),
            assign(old(self)@) == (Out { st: final(self)@, r }),
            moves(old(self)@, final(self)@, r is Ok),
        decreases rem(old(self)@), 19int,
    {
        assert(assign(self@) == assign_rule(self@));
        let node = self.parse_conditional()?;
        let span = self.here();
        if self.at(Punct::Assign) {
            self.advance();
            let rhs = self.parse_assign()?;
            return Ok(Node::assign(node, rhs, span));
        }
        match assignment_op(self.current().kind) {
            Some(op) => {
                self.advance();
                let rhs = self.parse_assign()?;
                let binary = self.operation(op, node, rhs, span)?;
                self.new_compound_assign(binary, span)
            },
            None => Ok(node),
        }
    }

    /// ```bnf
    /// <conditional> ::= <or> ("?" <expr> ":" <conditional>)?
    /// ```
    pub(crate) fn parse_conditional(&mut self) -> (r: Result<Node, Error>)
        requires
            old(self).inv(),
        ensures
            final(self).inv(),
            conditional(old(self)@) == (Out { st: final(self)@, r }),
            moves(old(self)@, final(self)@, r is Ok),
        decreases rem(old(self)@), 18int,
    {
        assert(conditional(self@) == conditional_rule(self@));
        let node = self.parse_or()?;
        if !self.at(Punct::Question) {
            return Ok(node);
        }
        let span = self.here();
        self.advance();
        let then_expr = self.parse_expr()?;
        self.skip_punct(Punct::Colon)?;
        let else_expr = self.parse_conditional()?;
        Ok(Node::conditional(node, then_expr, else_expr, span))
    }

    /// ```bnf
    /// <or> ::= <and> ("||" <and>)*
    /// ```
    pub(crate) fn parse_or(&mut self) -> (r: Result<Node, Error>)
        requires
            old(self).inv(),
        ensures
            final(self).inv(),
            or_expr(old(self)@) == (Out { st: final(self)@, r }),
            moves(old(self)@, final(self)@, r is Ok),
        decreases rem(old(self)@), 17int,
    {
        assert(or_expr(self@) == or_expr_rule(self@));
        let mut node = self.parse_and()?;
        while self.at(Punct::OrOr)
            invariant
                self.inv(),
                moves(old(self)@, self@, true),
                or_expr(old(self)@) == or_tail(self@, node),
            decreases rem(self@),
        {
            assert(or_tail(self@, node) == or_tail_rule(self@, node));
            let span = self.here();
            self.advance();
            let rhs = self.parse_and()?;
            node = Node::logical_or(node, rhs, span);
        }
        assert(or_tail(self@, node) == or_tail_rule(self@, node));
        Ok(node)
    }

    /// ```bnf
    /// <and> ::= <bit-or> ("&&" <bit-or>)*
    /// ```
    pub(crate) fn parse_and(&mut self) -> (r: Result<Node, Error>)
        requires
            old(self).inv(),
        ensures
            final(self).inv(),
            and_expr(old(self)@) == (Out { st: final(self)@, r }),
            moves(old(self)@, final(self)@, r is Ok),
        decreases rem(old(self)@), 16int,
    {
        assert(and_expr(self@) == and_expr_rule(self@));
        let mut node = self.parse_binary(15)?;
        while self.at(Punct::AndAnd)
            invariant
                self.inv(),
                moves(old(self)@, self@, true),
                and_expr(old(self)@) == and_tail(self@, node),
            decreases rem(self@),
        {
            assert(and_tail(self@, node) == and_tail_rule(self@, node));
            let span = self.here();
            self.advance();
            let rhs = self.parse_binary(15)?;
            node = Node::logical_and(node, rhs, span);
        }
        assert(and_tail(self@, node) == and_tail_rule(self@, node));
        Ok(node)
    }

    /// Parse the binary operators of a level of precedence, which are listed in
    /// [`binary_op`].
    pub(crate) fn parse_binary(&mut self, level: u8) -> (r: Result<Node, Error>)
        requires
            old(self).inv(),
            8 <= level <= 15,
        ensures
            final(self).inv(),
            binary(old(self)@, level) == (Out { st: final(self)@, r }),
            moves(old(self)@, final(self)@, r is Ok),
        decreases rem(old(self)@), level as int,
    {
        assert(binary(self@, level) == binary_rule(self@, level));
        let mut node = if level > 8 {
            self.parse_binary(level - 1)?
        } else {
            self.parse_cast()?
        };
        loop
            invariant
                self.inv(),
                8 <= level <= 15,
                moves(old(self)@, self@, true),
                binary(old(self)@, level) == binary_tail(self@, node, level),
            decreases rem(self@),
        {
            assert(binary_tail(self@, node, level) == binary_tail_rule(self@, node, level));
            let Some((op, swapped)) = operator(self.current().kind, level) else {
                return Ok(node);
            };
            let span = self.here();
            self.advance();
            let rhs = if level > 8 {
                self.parse_binary(level - 1)?
            } else {
                self.parse_cast()?
            };
            node = if swapped {
                self.operation(op, rhs, node, span)?
            } else {
                self.operation(op, node, rhs, span)?
            };
        }
    }

    /// ```bnf
    /// <cast> ::= "(" <typename> ")" <cast> | <unary>
    /// ```
    pub(crate) fn parse_cast(&mut self) -> (r: Result<Node, Error>)
        requires
            old(self).inv(),
        ensures
            final(self).inv(),
            cast(old(self)@) == (Out { st: final(self)@, r }),
            moves(old(self)@, final(self)@, r is Ok),
        decreases rem(old(self)@), 7int,
    {
        assert(cast(self@) == cast_rule(self@));
        let span = self.here();
        if !self.preprocessing() && self.at_parenthesized_typename() {
            let pos: usize = self.position();
            self.advance();
            let ty = self.parse_typename()?;
            self.skip_punct(Punct::RParen)?;
            // Compound literal also starts with "(" <typename> ")" (see
            // <unary> then <postfix>), and "{" is the characteristic that
            // tells compound literals apart
            if !self.at(Punct::LBrace) {
                let expr = self.parse_cast()?;
                let expr = self.infer_type(expr)?;
                return Ok(Node::cast(expr, ty, span));
            }
            self.set_position(pos);
        }
        self.parse_unary()
    }

    /// ```bnf
    /// <unary> ::=
    ///   ("+" | "-" | "&" | "*" | "!" | "~") <cast>
    ///   | ("++" | "--") <unary>
    ///   | <postfix>
    /// ```
    pub(crate) fn parse_unary(&mut self) -> (r: Result<Node, Error>)
        requires
            old(self).inv(),
        ensures
            final(self).inv(),
            unary(old(self)@) == (Out { st: final(self)@, r }),
            moves(old(self)@, final(self)@, r is Ok),
        decreases rem(old(self)@), 6int,
    {
        assert(unary(self@) == unary_rule(self@));
        let span = self.here();
        let preprocess = self.preprocessing();
        if self.at(Punct::Plus) {
            self.advance();
            return self.parse_cast();
        }
        if self.at(Punct::Minus) {
            self.advance();
            let node = self.parse_cast()?;
            return Ok(Node::neg(node, span));
        }
        if !preprocess && self.at(Punct::Amp) {
            self.advance();
            let node = self.parse_cast()?;
            return Ok(Node::addr(node, span));
        }
        if !preprocess && self.at(Punct::Star) {
            self.advance();
            let node = self.parse_cast()?;
            return Ok(Node::deref(node, span));
        }
        if self.at(Punct::Not) {
            self.advance();
            let node = self.parse_cast()?;
            return Ok(Node::not(node, span));
        }
        if self.at(Punct::Tilde) {
            self.advance();
            let node = self.parse_cast()?;
            return Ok(Node::bit_not(node, span));
        }
        if !preprocess && self.at(Punct::PlusPlus) {
            self.advance();
            let node = self.parse_unary()?;
            let one = Node::num(1, Type::Arith(ArithType::Int), span);
            let binary = self.new_add(node, one, span)?;
            return self.new_compound_assign(binary, span);
        }
        if !preprocess && self.at(Punct::MinusMinus) {
            self.advance();
            let node = self.parse_unary()?;
            let one = Node::num(1, Type::Arith(ArithType::Int), span);
            let binary = self.new_sub(node, one, span)?;
            return self.new_compound_assign(binary, span);
        }
        if preprocess {
            self.parse_primary()
        } else {
            self.parse_postfix()
        }
    }

    /// ```bnf
    /// <postfix> ::=
    ///   "(" <typename> ")" "{" <initializer> "}" | <primary> <postfix-tail>*
    /// ```
    pub(crate) fn parse_postfix(&mut self) -> (r: Result<Node, Error>)
        requires
            old(self).inv(),
        ensures
            final(self).inv(),
            postfix(old(self)@) == (Out { st: final(self)@, r }),
            moves(old(self)@, final(self)@, r is Ok),
        decreases rem(old(self)@), 5int,
    {
        assert(postfix(self@) == postfix_rule(self@));
        if self.at_parenthesized_typename() {
            if self.at_compound_literal()? {
                return self.parse_compound_literal();
            }
        }
        self.parse_primary_postfix()
    }

    /// Look ahead for a compound literal behind "(" and a typename.
    pub(crate) fn at_compound_literal(&mut self) -> (r: Result<bool, Error>)
        requires
            old(self).inv(),
            at(old(self)@, Punct::LParen),
        ensures
            final(self).inv(),
            at_compound_literal(old(self)@) == (Out { st: final(self)@, r }),
            pauses(old(self)@, final(self)@, r is Ok),
        decreases rem(old(self)@), 2int,
    {
        assert(at_compound_literal(self@) == at_compound_literal_rule(self@));
        let ghost before = self@;
        let cp = self.begin_speculation();
        self.advance();
        let r = self.parenthesized_typename_then_brace();
        self.end_speculation(cp, Ghost(before));
        r
    }

    /// Parse a typename and ")", and look for "{" behind.
    fn parenthesized_typename_then_brace(&mut self) -> (r: Result<bool, Error>)
        requires
            old(self).inv(),
        ensures
            final(self).inv(),
            ({
                let t = crate::parse::grammar::typename(old(self)@);
                let e = crate::parse::state::skip_punct(t.st, Punct::RParen);
                if t.r is Err {
                    final(self)@ == t.st && r == Err::<bool, Error>(t.r->Err_0)
                } else if e.r is Err {
                    final(self)@ == e.st && r == Err::<bool, Error>(e.r->Err_0)
                } else {
                    final(self)@ == e.st && r == Ok::<bool, Error>(at(e.st, Punct::LBrace))
                }
            }),
            keeps(old(self)@, final(self)@, false),
        decreases rem(old(self)@), 8int,
    {
        let _ = self.parse_typename()?;
        self.skip_punct(Punct::RParen)?;
        Ok(self.at(Punct::LBrace))
    }

    /// ```bnf
    /// "(" <typename> ")" "{" <initializer> "}"
    /// ```
    pub(crate) fn parse_compound_literal(&mut self) -> (r: Result<Node, Error>)
        requires
            old(self).inv(),
            at(old(self)@, Punct::LParen),
        ensures
            final(self).inv(),
            compound_literal(old(self)@) == (Out { st: final(self)@, r }),
            moves(old(self)@, final(self)@, r is Ok),
        decreases rem(old(self)@), 4int,
    {
        assert(compound_literal(self@) == compound_literal_rule(self@));
        let span = self.here();
        self.advance();
        let ty = self.parse_typename()?;
        self.skip_punct(Punct::RParen)?;
        let depth: usize = self.types_len();
        let init = self.parse_initializer(ty, depth)?;
        self.new_compound_literal(init, span)
    }

    pub(crate) fn parse_primary_postfix(&mut self) -> (r: Result<Node, Error>)
        requires
            old(self).inv(),
        ensures
            final(self).inv(),
            primary_postfix(old(self)@) == (Out { st: final(self)@, r }),
            moves(old(self)@, final(self)@, r is Ok),
        decreases rem(old(self)@), 4int,
    {
        assert(primary_postfix(self@) == primary_postfix_rule(self@));
        let node = self.parse_primary()?;
        self.parse_postfix_tail(node)
    }

    /// ```bnf
    /// <postfix-tail> ::=
    ///   "[" <expr> "]"
    ///   | <func-call>
    ///   | ("." | "->") <ident>
    ///   | "++"
    ///   | "--"
    /// ```
    pub(crate) fn parse_postfix_tail(&mut self, node: Node) -> (r: Result<Node, Error>)
        requires
            old(self).inv(),
        ensures
            final(self).inv(),
            postfix_tail(old(self)@, node) == (Out { st: final(self)@, r }),
            stays(old(self)@, final(self)@, r is Ok),
        decreases rem(old(self)@), 5int,
    {
        assert(postfix_tail(self@, node) == postfix_tail_rule(self@, node));
        let ghost first = node;
        let mut expr = node;
        loop
            invariant
                self.inv(),
                first == node,
                stays(old(self)@, self@, true),
                postfix_tail(old(self)@, first) == postfix_tail(self@, expr),
            decreases rem(self@),
        {
            assert(postfix_tail(self@, expr) == postfix_tail_rule(self@, expr));
            if !self.at_postfix() {
                return Ok(expr);
            }
            expr = self.parse_postfix_step(expr)?;
        }
    }

    fn at_postfix(&self) -> (r: bool)
        requires
            self.inv(),
        ensures
            r == at_postfix(self@),
    {
        self.at(Punct::LParen) || self.at(Punct::LBracket) || self.at(Punct::Dot) || self.at(
            Punct::Arrow,
        ) || self.at(Punct::PlusPlus) || self.at(Punct::MinusMinus)
    }

    /// Parse one postfix operator.
    fn parse_postfix_step(&mut self, node: Node) -> (r: Result<Node, Error>)
        requires
            old(self).inv(),
            at_postfix(old(self)@),
        ensures
            final(self).inv(),
            postfix_step(old(self)@, node) == (Out { st: final(self)@, r }),
            moves(old(self)@, final(self)@, r is Ok),
        decreases rem(old(self)@), 4int,
    {
        assert(postfix_step(self@, node) == postfix_step_rule(self@, node));
        let span = self.here();
        if self.at(Punct::LParen) {
            return self.parse_func_call(node);
        }
        if self.at(Punct::LBracket) {
            self.advance();
            let index = self.parse_expr()?;
            self.skip_punct(Punct::RBracket)?;
            // Canonicalize a[b] to *(a + b)
            let sum = self.new_add(node, index, span)?;
            return Ok(Node::deref(sum, span));
        }
        if self.at(Punct::Dot) {
            self.advance();
            let node = self.new_member_access(node)?;
            self.advance();
            return Ok(node);
        }
        if self.at(Punct::Arrow) {
            self.advance();
            // Canonicalize a->b to (*a).b
            let node = self.new_member_access(Node::deref(node, span))?;
            self.advance();
            return Ok(node);
        }
        if self.at(Punct::PlusPlus) {
            self.advance();
            return self.new_post_inc_dec(node, true, span);
        }
        self.advance();
        self.new_post_inc_dec(node, false, span)
    }

    /// Return the number of stored types.
    pub fn types_len(&self) -> (r: usize)
        ensures
            r == self@.types.len(),
    {
        proof {
            reveal(Parser::view);
        }
        self.types.len()
    }

    fn measured(&self, is_sizeof: bool, ty: Type) -> (r: u64)
        ensures
            r == measured(self@, is_sizeof, ty),
    {
        if is_sizeof {
            self.size(ty)
        } else {
            self.align(ty)
        }
    }

    /// ```bnf
    /// ("sizeof" | "_Alignof") ("(" <typename> ")" | <unary>)
    /// ```
    ///
    /// The keyword, which stands at `span`, has been taken.
    pub(crate) fn parse_measure(
        &mut self,
        is_sizeof: bool,
        span: SourceSpan,
    ) -> (r: Result<Node, Error>)
        requires
            old(self).inv(),
        ensures
            final(self).inv(),
            measure(old(self)@, is_sizeof, span) == (Out { st: final(self)@, r }),
            moves(old(self)@, final(self)@, r is Ok),
        decreases rem(old(self)@), 8int,
    {
        assert(measure(self@, is_sizeof, span) == measure_rule(self@, is_sizeof, span));
        if self.at_parenthesized_typename() {
            self.advance();
            let span = self.here();
            let ty = self.parse_typename()?;
            self.skip_punct(Punct::RParen)?;
            if self.is_incomplete(ty) {
                let message = if is_sizeof {
                    Message::SizeofIncomplete
                } else {
                    Message::AlignofIncomplete
                };
                return Err(Error::Terminate(span, message));
            }
            let amount: u64 = self.measured(is_sizeof, ty);
            return Ok(Node::num(amount, Type::Arith(ArithType::ULong), span));
        }
        let operand = self.parse_unary()?;
        let operand = self.infer_type(operand)?;
        let amount: u64 = self.measured(is_sizeof, operand.known_ty());
        Ok(Node::num(amount, Type::Arith(ArithType::ULong), span))
    }

    pub(crate) fn named_expr(
        &mut self,
        name: crate::types::Symbol,
        span: SourceSpan,
    ) -> (r: Result<Node, Error>)
        requires
            old(self).inv(),
        ensures
            final(self).inv(),
            named(old(self)@, name, span) == (Out { st: final(self)@, r }),
            pauses(old(self)@, final(self)@, r is Ok),
    {
        proof {
            reveal(named);
        }
        match self.find_ident(name) {
            Some(OrdinaryIdent::Local(id)) => Ok(Node::entity(EntityRef::Local(id), span)),
            Some(OrdinaryIdent::Global(id, _)) => Ok(Node::entity(EntityRef::Global(id), span)),
            Some(OrdinaryIdent::Function(id)) => Ok(Node::entity(EntityRef::Function(id), span)),
            Some(OrdinaryIdent::Enumerator(val)) => {
                proof {
                    reveal(Parser::view);
                }
                match val.bits(&self.floats) {
                    Ok(bits) => Ok(Node::num(bits, Type::from_const(val.ty), span)),
                    Err(query) => Err(Error::NeedsFloat(query)),
                }
            },
            _ => {
                if self.at(Punct::LParen) {
                    return Err(Error::Terminate(span, Message::ImplicitFunction));
                }
                Err(Error::Terminate(span, Message::UndefinedIdent))
            },
        }
    }

    /// Copy the elements of a string literal.
    pub fn string_content(&self, id: usize) -> (r: Vec<u32>)
        ensures
            r@ == string_of(self@, id),
    {
        proof {
            reveal(Parser::view);
        }
        let mut out: Vec<u32> = Vec::new();
        if id < self.strings.len() {
            let content = &self.strings[id];
            let mut i: usize = 0;
            while i < content.len()
                invariant
                    i <= content.len(),
                    out@ == content@.take(i as int),
                decreases content.len() - i,
            {
                out.push(content[i]);
                i += 1;
                assert(content@.take(i as int) =~= content@.take(i - 1).push(content@[i - 1]));
            }
            assert(content@.take(content@.len() as int) =~= content@);
        } else {
            assert(out@ =~= Seq::<u32>::empty());
        }
        out
    }

    pub(crate) fn parse_string(&mut self, id: usize, ty: Type) -> (r: Result<Node, Error>)
        requires
            old(self).inv(),
            cur(old(self)@) is Str,
        ensures
            final(self).inv(),
            string_literal(old(self)@, id, ty) == (Out { st: final(self)@, r }),
            moves(old(self)@, final(self)@, r is Ok),
    {
        proof {
            reveal(string_literal);
        }
        let span = self.here();
        if self.preprocessing() {
            return Err(Error::Terminate(span, Message::StringInPreprocessor));
        }
        let content = self.string_content(id);
        let array = self.new_array(ty, Some(content.len()), span)?;
        let label: usize = self.unique_label()?;
        let size: u64 = self.size(ty);
        let data = GlobalInitData {
            bytes: bytes_of_string(&content, size),
            relocations: Vec::new(),
        };
        let id: usize = self.create_global(
            Name::Unique(label),
            array,
            None,
            GlobalStorage::Data(data),
            true,
        );
        self.advance();
        Ok(Node::entity(EntityRef::Global(id), span))
    }

    /// ```bnf
    /// <primary> ::=
    ///   "(" "{" <compound-stmt> ")"
    ///   | "(" <expr> ")"
    ///   | "sizeof" ("(" <typename> ")" | <unary>)
    ///   | "_Alignof" ("(" <typename> ")" | <unary>)
    ///   | <ident>
    ///   | <str>
    ///   | <num>
    ///   | <flonum>
    /// ```
    pub(crate) fn parse_primary(&mut self) -> (r: Result<Node, Error>)
        requires
            old(self).inv(),
        ensures
            final(self).inv(),
            primary(old(self)@) == (Out { st: final(self)@, r }),
            moves(old(self)@, final(self)@, r is Ok),
        decreases rem(old(self)@), 3int,
    {
        assert(primary(self@) == primary_rule(self@));
        let span = self.here();
        match self.current().kind {
            TokenKind::Punct(Punct::LParen) => {
                self.advance();
                self.parse_parenthesized(span)
            },
            TokenKind::Keyword(Keyword::Sizeof) => {
                if self.preprocessing() {
                    return Err(Error::Terminate(span, Message::ExpectedExpression));
                }
                self.advance();
                self.parse_measure(true, span)
            },
            TokenKind::Keyword(Keyword::Alignof) => {
                if self.preprocessing() {
                    return Err(Error::Terminate(span, Message::ExpectedExpression));
                }
                self.advance();
                self.parse_measure(false, span)
            },
            TokenKind::Ident(name) => {
                self.advance();
                self.named_expr(name, span)
            },
            TokenKind::Str(id, ty) => self.parse_string(id, ty),
            TokenKind::Num(value, ty) => {
                self.advance();
                Ok(Node::num(value, ty, span))
            },
            TokenKind::Flonum(bits, ty) => {
                if self.preprocessing() {
                    return Err(Error::Terminate(span, Message::FloatInPreprocessor));
                }
                self.advance();
                Ok(Node::flonum(bits, ty, span))
            },
            _ => Err(Error::Terminate(span, Message::ExpectedExpression)),
        }
    }

    /// Parse what stands behind "(" in a primary expression.
    pub(crate) fn parse_parenthesized(&mut self, span: SourceSpan) -> (r: Result<Node, Error>)
        requires
            old(self).inv(),
        ensures
            final(self).inv(),
            parenthesized(old(self)@, span) == (Out { st: final(self)@, r }),
            moves(old(self)@, final(self)@, r is Ok),
        decreases rem(old(self)@), 21int,
    {
        assert(parenthesized(self@, span) == parenthesized_rule(self@, span));
        if self.at(Punct::LBrace) {
            if self.preprocessing() {
                return Err(self.error_current(Message::StmtExprInPreprocessor));
            }
            self.advance();
            let body = self.parse_compound_stmt()?;
            self.skip_punct(Punct::RParen)?;
            return Ok(Node::stmt_expr(body, span));
        }
        if self.preprocessing() {
            let node = self.parse_conditional()?;
            self.skip_punct(Punct::RParen)?;
            return Ok(node);
        }
        let node = self.parse_expr()?;
        self.skip_punct(Punct::RParen)?;
        Ok(node)
    }

    /// Copy the signature of a function, or of a pointer to one.
    fn signature(&self, ty: Type) -> (r: Option<(Type, Vec<Type>, bool)>)
        ensures
            r is Some == func_of(self@.types, ty, true) is Some,
            r is Some ==> func_of(self@.types, ty, true).unwrap() == (TypeForm::Func {
                return_ty: r.unwrap().0,
                params: r.unwrap().1@,
                is_variadic: r.unwrap().2,
            }),
    {
        proof {
            reveal(Parser::view);
        }
        match self.types.as_func(ty, true) {
            Some(func) => Some((func.return_ty, copy_types(&func.params), func.is_variadic)),
            None => None,
        }
    }

    /// ```bnf
    /// <func-call> ::= "(" (<assign> ("," <assign>)*)? ")"
    /// ```
    pub(crate) fn parse_func_call(&mut self, callee: Node) -> (r: Result<Node, Error>)
        requires
            old(self).inv(),
            at(old(self)@, Punct::LParen),
        ensures
            final(self).inv(),
            func_call(old(self)@, callee) == (Out { st: final(self)@, r }),
            moves(old(self)@, final(self)@, r is Ok),
        decreases rem(old(self)@), 3int,
    {
        assert(func_call(self@, callee) == func_call_rule(self@, callee));
        let span = self.here();
        self.advance();
        let callee = self.infer_type(callee)?;
        let Some((return_ty, params, is_variadic)) = self.signature(callee.known_ty()) else {
            return Err(Error::Terminate(span, Message::NotAFunction));
        };
        let args = self.parse_func_args(&params, is_variadic)?;
        Ok(Node::func_call(callee, NodeList::from_vec(args), return_ty, span))
    }

    /// Parse the arguments of a call up to ")", casting each to the type it is
    /// passed as.
    pub(crate) fn parse_func_args(
        &mut self,
        params: &Vec<Type>,
        is_variadic: bool,
    ) -> (r: Result<Vec<Node>, Error>)
        requires
            old(self).inv(),
        ensures
            final(self).inv(),
            func_args(old(self)@, params@, is_variadic, Seq::empty()) == (Out {
                st: final(self)@,
                r: match r {
                    Ok(x) => Ok(x@),
                    Err(e) => Err(e),
                },
            }),
            moves(old(self)@, final(self)@, r is Ok),
        decreases rem(old(self)@), 20int,
    {
        assert(func_args(
            self@,
            params@,
            is_variadic,
            Seq::empty(),
        ) == func_args_rule(self@, params@, is_variadic, Seq::empty()));
        let mut args: Vec<Node> = Vec::new();
        assert(args@ =~= Seq::<Node>::empty());
        while !self.at(Punct::RParen)
            invariant
                self.inv(),
                stays(old(self)@, self@, true),
                args@.len() == 0 || rem(self@) < rem(old(self)@),
                func_args(old(self)@, params@, is_variadic, Seq::empty()) == func_args(
                    self@,
                    params@,
                    is_variadic,
                    args@,
                ),
            decreases rem(self@),
        {
            assert(func_args(
                self@,
                params@,
                is_variadic,
                args@,
            ) == func_args_rule(self@, params@, is_variadic, args@));
            if args.len() > 0 {
                self.skip_punct(Punct::Comma)?;
            }
            let arg = self.parse_assign()?;
            let arg = self.infer_type(arg)?;
            let span = arg.span;
            let ty = if args.len() < params.len() {
                if self.is_struct_or_union(params[args.len()]) {
                    return Err(Error::Terminate(span, Message::AggregateByValue));
                }
                params[args.len()]
            } else {
                if !is_variadic {
                    return Err(Error::Terminate(span, Message::TooManyArguments));
                }
                // Variadic function call applies default argument promotions
                promoted_argument(arg.known_ty())
            };
            args.push(Node::cast(arg, ty, span));
        }
        assert(func_args(
            self@,
            params@,
            is_variadic,
            args@,
        ) == func_args_rule(self@, params@, is_variadic, args@));
        if args.len() < params.len() {
            return Err(self.error_current(Message::TooFewArguments));
        }
        self.advance();
        Ok(args)
    }

}

fn assignment_op(kind: TokenKind) -> (r: Option<BinaryOp>)
    ensures
        r == assign_op(kind),
        r is Some ==> kind is Punct,
{
    match kind {
        TokenKind::Punct(Punct::PlusEq) => Some(BinaryOp::Add),
        TokenKind::Punct(Punct::MinusEq) => Some(BinaryOp::Sub),
        TokenKind::Punct(Punct::StarEq) => Some(BinaryOp::Mul),
        TokenKind::Punct(Punct::SlashEq) => Some(BinaryOp::Div),
        TokenKind::Punct(Punct::PercentEq) => Some(BinaryOp::Mod),
        TokenKind::Punct(Punct::AmpEq) => Some(BinaryOp::BitAnd),
        TokenKind::Punct(Punct::PipeEq) => Some(BinaryOp::BitOr),
        TokenKind::Punct(Punct::CaretEq) => Some(BinaryOp::BitXor),
        TokenKind::Punct(Punct::ShlEq) => Some(BinaryOp::BitLeftShift),
        TokenKind::Punct(Punct::ShrEq) => Some(BinaryOp::BitRightShift),
        _ => None,
    }
}

fn operator(kind: TokenKind, level: u8) -> (r: Option<(BinaryOp, bool)>)
    ensures
        r == binary_op(kind, level),
        r is Some ==> kind is Punct,
{
    match (level, kind) {
        (15, TokenKind::Punct(Punct::Pipe)) => Some((BinaryOp::BitOr, false)),
        (14, TokenKind::Punct(Punct::Caret)) => Some((BinaryOp::BitXor, false)),
        (13, TokenKind::Punct(Punct::Amp)) => Some((BinaryOp::BitAnd, false)),
        (12, TokenKind::Punct(Punct::EqEq)) => Some((BinaryOp::Eq, false)),
        (12, TokenKind::Punct(Punct::Ne)) => Some((BinaryOp::Ne, false)),
        (11, TokenKind::Punct(Punct::Lt)) => Some((BinaryOp::Lt, false)),
        (11, TokenKind::Punct(Punct::Le)) => Some((BinaryOp::Le, false)),
        (11, TokenKind::Punct(Punct::Gt)) => Some((BinaryOp::Lt, true)),
        (11, TokenKind::Punct(Punct::Ge)) => Some((BinaryOp::Le, true)),
        (10, TokenKind::Punct(Punct::Shl)) => Some((BinaryOp::BitLeftShift, false)),
        (10, TokenKind::Punct(Punct::Shr)) => Some((BinaryOp::BitRightShift, false)),
        (9, TokenKind::Punct(Punct::Plus)) => Some((BinaryOp::Add, false)),
        (9, TokenKind::Punct(Punct::Minus)) => Some((BinaryOp::Sub, false)),
        (8, TokenKind::Punct(Punct::Star)) => Some((BinaryOp::Mul, false)),
        (8, TokenKind::Punct(Punct::Slash)) => Some((BinaryOp::Div, false)),
        (8, TokenKind::Punct(Punct::Percent)) => Some((BinaryOp::Mod, false)),
        _ => None,
    }
}

fn promoted_argument(ty: Type) -> (r: Type)
    ensures
        r == default_promoted(ty),
{
    if ty.is_flonum() {
        Type::Arith(ArithType::Double)
    } else {
        match ty.promote_int() {
            Some(ty) => ty,
            None => ty,
        }
    }
}

/// The elements of a string as bytes, low byte first.
fn bytes_of_string(content: &Vec<u32>, size: u64) -> (r: Vec<u8>)
    ensures
        r@ == string_bytes(content@, size),
{
    let mut out: Vec<u8> = Vec::new();
    let mut i: usize = 0;
    assert(content@.take(0) =~= Seq::<u32>::empty());
    assert(out@ =~= Seq::<u8>::empty());
    while i < content.len()
        invariant
            i <= content.len(),
            out@ == string_bytes(content@.take(i as int), size),
        decreases content.len() - i,
    {
        let ghost before = out@;
        push_bits(&mut out, size, content[i] as u64);
        i += 1;
        assert(content@.take(i as int).drop_last() =~= content@.take(i - 1));
    }
    assert(content@.take(content@.len() as int) =~= content@);
    out
}

/// Append an integer of `size` bytes, low byte first.
fn push_bits(out: &mut Vec<u8>, size: u64, bits: u64)
    ensures
        final(out)@ == old(out)@ + crate::parse::construct::put_bits(
            zeroed(size as nat),
            0,
            size as nat,
            bits,
        ),
{
    let ghost before = out@;
    let mut left: u64 = size;
    let mut rest: u64 = bits;
    let ghost done = Seq::<u8>::empty();
    assert(before + done =~= before);
    assert(done + zeroed(size as nat) =~= zeroed(size as nat));
    while left > 0
        invariant
            left <= size,
            before == old(out)@,
            out@ == before + done,
            done.len() == size - left,
            crate::parse::construct::put_bits(zeroed(size as nat), 0, size as nat, bits)
                == crate::parse::construct::put_bits(
                done + zeroed(left as nat),
                size - left,
                left as nat,
                rest,
            ),
        decreases left,
    {
        let byte: u8 = (rest % 256) as u8;
        out.push(byte);
        proof {
            assert((done + zeroed(left as nat)).update(size - left, byte) =~= done.push(byte)
                + zeroed((left - 1) as nat));
            assert(before + done.push(byte) =~= (before + done).push(byte));
            done = done.push(byte);
        }
        left -= 1;
        rest = rest / 256;
    }
    assert(done + zeroed(0) =~= done);
}

} // verus!
