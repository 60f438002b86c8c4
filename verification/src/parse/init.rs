//! Parsing of initializers.

use vstd::prelude::*;
use crate::ast::{node_ty, Node};
use crate::constexpr::{signed_value, wrap, ConstValue};
use crate::error::{Error, Message};
use crate::parse::construct::{InitList, Initializer};
use crate::parse::grammar::{
    aggregate_initializer, aggregate_initializer_rule, array_elements, array_elements_rule,
    array_initializer, array_initializer_rule, at_copy_initializer, at_copy_initializer_rule,
    element_init, initializer, initializer_rule, skip_initializer, skip_initializer_rule,
    skip_initializers, skip_initializers_rule, string_initializer, struct_initializer,
    struct_initializer_rule, union_initializer, union_initializer_rule,
};
use crate::parse::infer::infer;
use crate::parse::state::{at, cur, keeps, moves, pauses, rem, stays, Out, Parser};
use crate::source::SourceSpan;
use crate::tokenize::{Punct, TokenKind};
use crate::types::{ArithType, ArrayTypeData, ConstType, Member, Type};

verus! {

impl Parser {
    /// ```bnf
    /// <initializer> ::=
    ///   <string-initializer>
    ///   | <array-initializer>
    ///   | <struct-initializer>
    ///   | <union-initializer>
    ///   | "{" <initializer> "}"
    ///   | <assign>
    /// ```
    ///
    /// Aggregates are nested at most `depth` deep.
    pub fn parse_initializer(&mut self, ty: Type, depth: usize) -> (r: Result<Initializer, Error>)
        requires
            old(self).inv(),
        ensures
            final(self).inv(),
            initializer(old(self)@, ty, depth as nat) == (Out { st: final(self)@, r }),
            stays(old(self)@, final(self)@, r is Ok),
        decreases rem(old(self)@), 100 + 8 * depth + 6,
    {
        assert(initializer(self@, ty, depth as nat) == initializer_rule(self@, ty, depth as nat));
        let span = self.here();
        if let Some(array) = self.as_array(ty) {
            let elements = self.parse_array_elements(array, depth)?;
            if array.len.is_none() {
                // If array length is omitted we infer from the length of the
                // initializer; note that we have to create new type instead of
                // completing the original, because e.g., "typedef int T[];",
                // then "T a1 = {1};" and "T a2 = {1,2};" have different types
                let ty = self.new_array(array.base, Some(elements.len()), span)?;
                return Ok(Initializer::Aggregate(ty, InitList::from_vec(elements)));
            }
            return Ok(Initializer::Aggregate(ty, InitList::from_vec(elements)));
        }
        if self.is_struct_or_union(ty) {
            return self.parse_aggregate_initializer(ty, depth);
        }
        if self.at(Punct::LBrace) {
            self.advance();
            let init = self.parse_initializer(ty, depth)?;
            self.skip_punct(Punct::RBrace)?;
            return Ok(init);
        }
        let node = self.parse_assign()?;
        Ok(Initializer::Expr(ty, Box::new(node)))
    }

    pub(crate) fn parse_array_elements(
        &mut self,
        array: ArrayTypeData,
        depth: usize,
    ) -> (r: Result<Vec<Initializer>, Error>)
        requires
            old(self).inv(),
        ensures
            final(self).inv(),
            array_elements(old(self)@, array, depth as nat) == (Out {
                st: final(self)@,
                r: match r {
                    Ok(x) => Ok(x@),
                    Err(e) => Err(e),
                },
            }),
            stays(old(self)@, final(self)@, r is Ok),
        decreases rem(old(self)@), 100 + 8 * depth + 5,
    {
        assert(array_elements(
            self@,
            array,
            depth as nat,
        ) == array_elements_rule(self@, array, depth as nat));
        if let TokenKind::Str(id, ty) = self.current().kind {
            if ty == array.base {
                return Ok(self.parse_string_initializer(id, array));
            }
        }
        if self.at(Punct::LBrace) {
            self.advance();
            return self.parse_array_initializer(array, true, depth);
        }
        self.parse_array_initializer(array, false, depth)
    }

    /// ```bnf
    /// <string-initializer> ::= <str>
    /// ```
    fn parse_string_initializer(&mut self, id: usize, array: ArrayTypeData) -> (r: Vec<Initializer>)
        requires
            old(self).inv(),
            cur(old(self)@) is Str,
        ensures
            final(self).inv(),
            (final(self)@, r@) == string_initializer(old(self)@, id, array),
            moves(old(self)@, final(self)@, true),
    {
        let span = self.here();
        let content = self.string_content(id);
        let len: usize = match array.len {
            Some(len) => len,
            None => content.len(),
        };
        if content.len() > len && content.len() - len > 1 {
            // The terminating null character is automatically not
            // included (allowed per C spec) if there is no room for it,
            // so we warn only if the content is at least 2 bytes longer
            self.warn_current(Message::StringTooLong);
        }
        let n: usize = if content.len() < len {
            content.len()
        } else {
            len
        };
        let mut elements: Vec<Initializer> = Vec::new();
        let mut i: usize = 0;
        let ghost want = string_initializer(old(self)@, id, array).1;
        while i < n
            invariant
                i <= n <= content.len(),
                want == Seq::new(n as nat, |k: int| element_init(content@[k], array.base, span)),
                elements@ =~= want.take(i as int),
            decreases n - i,
        {
            elements.push(initializer_of_element(content[i], array.base, span));
            i += 1;
            assert(elements@ =~= want.take(i as int));
        }
        assert(want.take(n as int) =~= want);
        self.advance();
        elements
    }

    /// ```bnf
    /// <array-initializer> ::=
    ///   "{" <initializer> ("," <initializer>)* ","? "}"
    ///   | <initializer> ("," <initializer>)*
    /// ```
    ///
    /// The opening brace, if there is one, has been taken.
    pub(crate) fn parse_array_initializer(
        &mut self,
        array: ArrayTypeData,
        braced: bool,
        depth: usize,
    ) -> (r: Result<Vec<Initializer>, Error>)
        requires
            old(self).inv(),
        ensures
            final(self).inv(),
            array_initializer(old(self)@, array, braced, Seq::empty(), 0, depth as nat) == (Out {
                st: final(self)@,
                r: match r {
                    Ok(x) => Ok(x@),
                    Err(e) => Err(e),
                },
            }),
            stays(old(self)@, final(self)@, r is Ok),
        decreases rem(old(self)@), 100 + 8 * depth + 1,
    {
        assert(array_initializer(
            self@,
            array,
            braced,
            Seq::empty(),
            0,
            depth as nat,
        ) == array_initializer_rule(self@, array, braced, Seq::empty(), 0, depth as nat));
        let mut elements: Vec<Initializer> = Vec::new();
        let mut i: usize = 0;
        assert(elements@ =~= Seq::<Initializer>::empty());
        loop
            invariant
                self.inv(),
                stays(old(self)@, self@, true),
                array_initializer(old(self)@, array, braced, Seq::empty(), 0, depth as nat)
                    == array_initializer(self@, array, braced, elements@, i as int, depth as nat),
            decreases rem(self@), (if i == 0 { 1int } else { 0int }),
        {
            assert(array_initializer(
                self@,
                array,
                braced,
                elements@,
                i as int,
                depth as nat,
            ) == array_initializer_rule(self@, array, braced, elements@, i as int, depth as nat));
            if self.maybe_skip_list_end(braced) {
                return Ok(elements);
            }
            let has_space = match array.len {
                Some(len) => i < len,
                None => true,
            };
            if !braced && !has_space {
                // In flattened form, once the array is full, the remaining
                // tokens are no longer considered excess elements of this
                // array, so we have to break rather than keep consuming
                return Ok(elements);
            }
            if i == usize::MAX || depth == 0 {
                return Err(Error::Overflow);
            }
            if i > 0 {
                self.skip_punct(Punct::Comma)?;
            }
            if has_space {
                let element = self.parse_initializer(array.base, depth - 1)?;
                elements.push(element);
            } else {
                self.warn_current(Message::ExcessArrayElements);
                self.skip_initializer()?;
            }
            i += 1;
        }
    }

    /// Parse an initializer for a struct or union.
    pub(crate) fn parse_aggregate_initializer(
        &mut self,
        ty: Type,
        depth: usize,
    ) -> (r: Result<Initializer, Error>)
        requires
            old(self).inv(),
        ensures
            final(self).inv(),
            aggregate_initializer(old(self)@, ty, depth as nat) == (Out { st: final(self)@, r }),
            stays(old(self)@, final(self)@, r is Ok),
        decreases rem(old(self)@), 100 + 8 * depth + 5,
    {
        assert(aggregate_initializer(
            self@,
            ty,
            depth as nat,
        ) == aggregate_initializer_rule(self@, ty, depth as nat));
        if !self.at(Punct::LBrace) {
            // Check whether this is initializing a struct/union with
            // another struct/union of **exactly** the same type
            if self.at_copy_initializer(ty)? {
                let node = self.parse_assign()?;
                let node = self.infer_type(node)?;
                return Ok(Initializer::Expr(ty, Box::new(node)));
            }
        }
        let is_struct = self.is_kind_of_tag(ty, true);
        let members = self.members(ty);
        let braced = self.at(Punct::LBrace);
        if braced {
            self.advance();
        }
        let elements = if is_struct {
            self.parse_struct_initializer(&members, braced, depth)?
        } else {
            self.parse_union_initializer(&members, braced, depth)?
        };
        Ok(Initializer::Aggregate(ty, InitList::from_vec(elements)))
    }

    /// Look ahead for an expression of exactly the given type.
    pub(crate) fn at_copy_initializer(&mut self, ty: Type) -> (r: Result<bool, Error>)
        requires
            old(self).inv(),
        ensures
            final(self).inv(),
            at_copy_initializer(old(self)@, ty) == (Out { st: final(self)@, r }),
            pauses(old(self)@, final(self)@, r is Ok),
        decreases rem(old(self)@), 22int,
    {
        assert(at_copy_initializer(self@, ty) == at_copy_initializer_rule(self@, ty));
        let ghost before = self@;
        let cp = self.begin_speculation();
        let r = self.assign_has_type(ty);
        self.end_speculation(cp, Ghost(before));
        r
    }

    /// Parse an expression, and compare its type.
    fn assign_has_type(&mut self, ty: Type) -> (r: Result<bool, Error>)
        requires
            old(self).inv(),
        ensures
            final(self).inv(),
            ({
                let a = crate::parse::grammar::assign(old(self)@);
                let i = infer(a.st, a.val());
                if a.r is Err {
                    final(self)@ == a.st && r == Err::<bool, Error>(a.r->Err_0)
                } else if i.r is Err {
                    final(self)@ == i.st && r == Err::<bool, Error>(i.r->Err_0)
                } else {
                    final(self)@ == i.st && r == Ok::<bool, Error>(node_ty(i.val()) == ty)
                }
            }),
            keeps(old(self)@, final(self)@, false),
        decreases rem(old(self)@), 20int,
    {
        let node = self.parse_assign()?;
        let node = self.infer_type(node)?;
        Ok(node.known_ty() == ty)
    }

    /// ```bnf
    /// <struct-initializer> ::=
    ///   "{" <initializer> ("," <initializer>)* ","? "}"
    ///   | <initializer> ("," <initializer>)*
    /// ```
    ///
    /// The opening brace, if there is one, has been taken.
    pub(crate) fn parse_struct_initializer(
        &mut self,
        members: &Vec<Member>,
        braced: bool,
        depth: usize,
    ) -> (r: Result<Vec<Initializer>, Error>)
        requires
            old(self).inv(),
        ensures
            final(self).inv(),
            struct_initializer(old(self)@, members@, braced, Seq::empty(), 0, depth as nat) == (Out {
                st: final(self)@,
                r: match r {
                    Ok(x) => Ok(x@),
                    Err(e) => Err(e),
                },
            }),
            stays(old(self)@, final(self)@, r is Ok),
        decreases rem(old(self)@), 100 + 8 * depth + 1,
    {
        assert(struct_initializer(
            self@,
            members@,
            braced,
            Seq::empty(),
            0,
            depth as nat,
        ) == struct_initializer_rule(self@, members@, braced, Seq::empty(), 0, depth as nat));
        let mut elements: Vec<Initializer> = Vec::new();
        let mut i: usize = 0;
        assert(elements@ =~= Seq::<Initializer>::empty());
        loop
            invariant
                self.inv(),
                stays(old(self)@, self@, true),
                struct_initializer(old(self)@, members@, braced, Seq::empty(), 0, depth as nat)
                    == struct_initializer(
                        self@,
                        members@,
                        braced,
                        elements@,
                        i as int,
                        depth as nat,
                    ),
            decreases rem(self@), (if i == 0 { 1int } else { 0int }),
        {
            assert(struct_initializer(
                self@,
                members@,
                braced,
                elements@,
                i as int,
                depth as nat,
            ) == struct_initializer_rule(self@, members@, braced, elements@, i as int, depth as nat));
            if self.maybe_skip_list_end(braced) {
                return Ok(elements);
            }
            if !braced && i >= members.len() {
                // In flattened form, once all members are filled, the remaining
                // tokens are no longer considered excess elements of this
                // struct/union, so we have to break rather than keep consuming
                return Ok(elements);
            }
            if i == usize::MAX || depth == 0 {
                return Err(Error::Overflow);
            }
            if i > 0 {
                self.skip_punct(Punct::Comma)?;
            }
            if i < members.len() {
                let ty = members[i].ty;
                if self.is_incomplete(ty) {
                    return Err(self.error_current(Message::InitFlexible));
                }
                let element = self.parse_initializer(ty, depth - 1)?;
                elements.push(element);
            } else {
                self.warn_current(Message::ExcessStructElements);
                self.skip_initializer()?;
            }
            i += 1;
        }
    }

    /// ```bnf
    /// <union-initializer> ::= "{" <initializer> ","? "}" | <initializer>
    /// ```
    ///
    /// The opening brace, if there is one, has been taken.
    pub(crate) fn parse_union_initializer(
        &mut self,
        members: &Vec<Member>,
        braced: bool,
        depth: usize,
    ) -> (r: Result<Vec<Initializer>, Error>)
        requires
            old(self).inv(),
        ensures
            final(self).inv(),
            union_initializer(old(self)@, members@, braced, depth as nat) == (Out {
                st: final(self)@,
                r: match r {
                    Ok(x) => Ok(x@),
                    Err(e) => Err(e),
                },
            }),
            stays(old(self)@, final(self)@, r is Ok),
        decreases rem(old(self)@), 100 + 8 * depth,
    {
        assert(union_initializer(
            self@,
            members@,
            braced,
            depth as nat,
        ) == union_initializer_rule(self@, members@, braced, depth as nat));
        let mut elements: Vec<Initializer> = Vec::new();
        // Union initializer takes only one initializer and initializes the
        // first union member
        if members.len() > 0 {
            if depth == 0 {
                return Err(Error::Overflow);
            }
            let element = self.parse_initializer(members[0].ty, depth - 1)?;
            elements.push(element);
            assert(elements@ =~= seq![element]);
        } else {
            assert(elements@ =~= Seq::<Initializer>::empty());
        }
        if braced && !self.maybe_skip_list_end(true) {
            return Err(self.error_current(Message::ExpectedRBrace));
        }
        Ok(elements)
    }

    /// Skip one excess initializer.
    pub(crate) fn skip_initializer(&mut self) -> (r: Result<(), Error>)
        requires
            old(self).inv(),
        ensures
            final(self).inv(),
            skip_initializer(old(self)@) == (Out { st: final(self)@, r }),
            moves(old(self)@, final(self)@, r is Ok),
        decreases rem(old(self)@), 20int,
    {
        assert(skip_initializer(self@) == skip_initializer_rule(self@));
        if self.at(Punct::LBrace) {
            self.advance();
            return self.skip_initializers();
        }
        let _ = self.parse_assign()?;
        Ok(())
    }

    pub(crate) fn skip_initializers(&mut self) -> (r: Result<(), Error>)
        requires
            old(self).inv(),
        ensures
            final(self).inv(),
            skip_initializers(old(self)@, true) == (Out { st: final(self)@, r }),
            moves(old(self)@, final(self)@, r is Ok),
        decreases rem(old(self)@), 21int,
    {
        assert(skip_initializers(self@, true) == skip_initializers_rule(self@, true));
        let mut first = true;
        loop
            invariant
                self.inv(),
                stays(old(self)@, self@, true),
                first || rem(self@) < rem(old(self)@),
                skip_initializers(old(self)@, true) == skip_initializers(self@, first),
            decreases rem(self@),
        {
            assert(skip_initializers(self@, first) == skip_initializers_rule(self@, first));
            if self.maybe_skip_list_end(true) {
                return Ok(());
            }
            if !first {
                self.skip_punct(Punct::Comma)?;
            }
            first = false;
            self.skip_initializer()?;
        }
    }

}

fn initializer_of_element(element: u32, base: Type, span: SourceSpan) -> (r: Initializer)
    ensures
        r == element_init(element, base, span),
{
    proof {
        reveal(wrap);
        reveal(signed_value);
    }
    let value: u64 = if base == Type::Arith(ArithType::Char) {
        let byte = ConstValue::integer(element as u64, ConstType::Arith(ArithType::Char));
        sign_extended(byte.int_bits_as_signed())
    } else {
        element as u64
    };
    Initializer::Expr(base, Box::new(Node::num(value, Type::Arith(ArithType::Int), span)))
}

/// The bits of a signed integer.
#[verifier::truncate]
fn sign_extended(value: i64) -> (r: u64)
    ensures
        r == value as u64,
{
    value as u64
}

} // verus!
