//! Parsing of declaration specifiers and declarators.

use vstd::prelude::*;
use crate::constexpr::ConstValue;
use crate::error::{DeclspecContext, Error, Message};
use crate::parse::grammar::{
    abstract_declarator, abstract_declarator_rule, abstract_nested_end, abstract_nested_end_rule,
    alignas, alignas_rule, alignas_value, alignas_value_rule, array_bound, array_bound_rule,
    array_dimensions, array_dimensions_rule, array_length, array_length_rule, array_qualifiers,
    array_qualifiers_rule, array_size_expr, array_size_expr_rule, at_pos, at_qualifier, combined,
    complete_tag, counted, decayed, declarator, declarator_rule, declspec, declspec_atoms,
    declspec_atoms_rule, declspec_keyword, declspec_keyword_rule, declspec_rule, end_params,
    enum_list, enum_list_rule, enum_specifier, enum_specifier_rule, enum_value, enum_value_rule,
    func_params, func_params_rule, has_param, has_sign, has_type, is_kind_of_tag, member_decl,
    member_decl_rule, members_decl, members_decl_rule, nested_end, nested_end_rule, next_enumerator,
    param, param_rule, param_tys, past_qualifiers, past_qualifiers_rule, pointers, pointers_rule,
    specified, specified_ty, storage_class_fits, storage_class_of, struct_body, struct_body_rule,
    struct_decl, struct_decl_rule, tag_use, type_suffix, type_suffix_rule, typename, typename_rule,
    with_incomplete, words_agree, words_ty, DeclaratorView, Declspec, MembersView, Parameter,
    PendingMember, Specifiers, StorageClass, TypeWords,
};
use crate::parse::state::{
    at, at_typename, keeps, larger_align, moves, pauses, rem, stays, with_types, Out, Parser,
};
use crate::scope::OrdinaryIdent;
use crate::source::SourceSpan;
use crate::tokenize::{Keyword, Punct, TokenKind};
use crate::types::{next_type, ArithType, ConstType, Member, Symbol, Type};

verus! {

/// An object declarator.
#[derive(Debug)]
pub struct Declarator {
    pub name: Option<Symbol>,
    pub ty: Type,
    /// Where the declarator stands in the source code.
    pub span: SourceSpan,
    /// The parameter declarations for a function declarator.
    ///
    /// This keeps parameter names alongside the semantic function type in `ty`.
    /// Non-function declarators leave it empty and it is necessary to check
    /// that `ty` is a function type before using this field.
    pub params: Vec<Parameter>,
}

impl Declarator {
    pub open spec fn view(&self) -> DeclaratorView {
        DeclaratorView {
            name: self.name,
            ty: self.ty,
            span: self.span,
            params: self.params@,
        }
    }
}

/// The members declared so far.
#[derive(Debug)]
pub struct Members {
    pub members: Vec<Member>,
    pub pending: Option<PendingMember>,
}

impl Members {
    pub open spec fn view(&self) -> MembersView {
        MembersView { members: self.members@, pending: self.pending }
    }
}

fn storage_class(keyword: Keyword) -> (r: Option<StorageClass>)
    ensures
        r == storage_class_of(keyword),
{
    match keyword {
        Keyword::Typedef => Some(StorageClass::Typedef),
        Keyword::Static => Some(StorageClass::Static),
        Keyword::Extern => Some(StorageClass::Extern),
        Keyword::Auto => Some(StorageClass::Auto),
        Keyword::Register => Some(StorageClass::Register),
        _ => None,
    }
}

fn storage_class_allowed(class: StorageClass, context: DeclspecContext) -> (r: bool)
    ensures
        r == storage_class_fits(class, context),
{
    matches!(
        (class, context),
        (
            StorageClass::Typedef | StorageClass::Static | StorageClass::Extern,
            DeclspecContext::FileScopeDecl | DeclspecContext::BlockScopeDecl,
        ) | (
            StorageClass::Auto,
            DeclspecContext::BlockScopeDecl | DeclspecContext::ForLoopInitializer,
        ) | (
            StorageClass::Register,
            DeclspecContext::BlockScopeDecl | DeclspecContext::ForLoopInitializer
            | DeclspecContext::ParameterDecl,
        )
    )
}

/// Count one more type keyword.
fn count_word(w: TypeWords, keyword: Keyword) -> (r: TypeWords)
    ensures
        r == counted(w, keyword),
{
    let mut w = w;
    match keyword {
        Keyword::Void => w.voids = w.voids.saturating_add(1),
        Keyword::Bool => w.bools = w.bools.saturating_add(1),
        Keyword::Char => w.chars = w.chars.saturating_add(1),
        Keyword::Short => w.shorts = w.shorts.saturating_add(1),
        Keyword::Int => w.ints = w.ints.saturating_add(1),
        Keyword::Long => w.longs = w.longs.saturating_add(1),
        Keyword::Float => w.floats = w.floats.saturating_add(1),
        Keyword::Double => w.doubles = w.doubles.saturating_add(1),
        Keyword::Signed => w.signeds = w.signeds.saturating_add(1),
        Keyword::Unsigned => w.unsigneds = w.unsigneds.saturating_add(1),
        _ => {},
    }
    w
}

/// Return whether type keywords go together.
fn is_legal(w: TypeWords) -> (r: bool)
    ensures
        r == words_agree(w),
{
    let signs: u32 = w.signeds as u32 + w.unsigneds as u32;
    let widths: u32 = w.shorts as u32 + w.ints as u32 + w.longs as u32;
    let lone: u32 = w.voids as u32 + w.bools as u32 + w.floats as u32;
    if signs > 1 || w.shorts > 1 || w.ints > 1 || w.longs > 2 {
        return false;
    }
    if lone + w.chars as u32 + w.doubles as u32 > 1 {
        return false;
    }
    if lone > 0 {
        signs == 0 && widths == 0
    } else if w.chars > 0 {
        widths == 0
    } else if w.doubles > 0 {
        signs == 0 && w.shorts == 0 && w.ints == 0 && w.longs <= 1
    } else {
        w.shorts == 0 || w.longs == 0
    }
}

/// Combine the type specifiers with one more type keyword.
///
/// As per C language specification, type specifiers are order-insensitive, but
/// only certain combinations are legal.
pub fn combine(s: Specifiers, keyword: Keyword) -> (r: Option<Specifiers>)
    ensures
        r == combined(s, keyword),
{
    proof {
        reveal(combined);
    }
    let is_word = matches!(
        keyword,
        Keyword::Void | Keyword::Bool | Keyword::Char | Keyword::Short | Keyword::Int
        | Keyword::Long | Keyword::Float | Keyword::Double | Keyword::Signed | Keyword::Unsigned
    );
    if !is_word || s.named.is_some() {
        return None;
    }
    let mut s = s;
    s.words = count_word(s.words, keyword);
    if !is_legal(s.words) {
        return None;
    }
    if matches!(keyword, Keyword::Signed | Keyword::Unsigned) {
        s.defaults_to_int = true;
    }
    Some(s)
}

/// Take up one more keyword that needs no further tokens.
pub fn specify(s: Specifiers, keyword: Keyword, context: DeclspecContext) -> (r: Result<
    Specifiers,
    Message,
>)
    ensures
        r == specified(s, keyword, context),
{
    proof {
        reveal(specified);
    }
    let mut s = s;
    if let Some(class) = storage_class(keyword) {
        if !storage_class_allowed(class, context) {
            return Err(Message::StorageClassNotAllowed(context));
        }
        if s.storage_class.is_some() {
            return Err(Message::MultipleStorageClasses);
        }
        s.storage_class = Some(class);
        s.defaults_to_int = true;
        return Ok(s);
    }
    match keyword {
        Keyword::Noreturn => {
            if matches!(context, DeclspecContext::Typename | DeclspecContext::MemberDecl(_)) {
                return Err(Message::NoreturnNotAllowed(context));
            }
            s.noreturn = true;
            s.defaults_to_int = true;
            Ok(s)
        },
        Keyword::Const | Keyword::Volatile | Keyword::Restrict => {
            s.defaults_to_int = true;
            Ok(s)
        },
        _ => match combine(s, keyword) {
            Some(s) => Ok(s),
            None => Err(Message::MultipleTypes),
        },
    }
}

/// Return the type that type keywords stand for.
fn word_type(w: TypeWords) -> (r: Type)
    ensures
        r == words_ty(w),
{
    let unsigned = w.unsigneds > 0;
    let arith = if w.voids > 0 {
        return Type::Void;
    } else if w.bools > 0 {
        ArithType::Bool
    } else if w.chars > 0 {
        if unsigned {
            ArithType::UChar
        } else {
            ArithType::Char
        }
    } else if w.shorts > 0 {
        if unsigned {
            ArithType::UShort
        } else {
            ArithType::Short
        }
    } else if w.floats > 0 {
        ArithType::Float
    } else if w.doubles > 0 {
        ArithType::Double
    } else if w.longs > 0 {
        if unsigned {
            ArithType::ULong
        } else {
            ArithType::Long
        }
    } else if unsigned {
        ArithType::UInt
    } else {
        ArithType::Int
    };
    Type::Arith(arith)
}

impl Specifiers {
    /// Return whether the type specifiers say more than a sign.
    pub fn has_type(self) -> (r: bool)
        ensures
            r == has_type(self),
    {
        let w = self.words;
        self.named.is_some() || w.voids > 0 || w.bools > 0 || w.chars > 0 || w.shorts > 0 || w.ints
            > 0 || w.longs > 0 || w.floats > 0 || w.doubles > 0
    }

    /// Return whether there is a sign among the type specifiers.
    pub fn has_sign(self) -> (r: bool)
        ensures
            r == has_sign(self.words),
    {
        self.words.signeds > 0 || self.words.unsigneds > 0
    }
}

/// Return the type that type specifiers stand for.
pub fn specified_type(s: Specifiers) -> (r: Type)
    ensures
        r == specified_ty(s),
{
    match s.named {
        Some(ty) => ty,
        None => word_type(s.words),
    }
}

impl Parser {
    /// ```bnf
    /// <declspec> ::= <declspec-atom>+
    /// ```
    pub fn parse_declspec(&mut self, context: DeclspecContext) -> (r: Result<Declspec, Error>)
        requires
            old(self).inv(),
        ensures
            final(self).inv(),
            declspec(old(self)@, context) == (Out { st: final(self)@, r }),
            moves(old(self)@, final(self)@, r is Ok),
        decreases rem(old(self)@), 6int,
    {
        assert(declspec(self@, context) == declspec_rule(self@, context));
        let s = self.parse_declspec_atoms(
            context,
            Specifiers {
                words: TypeWords {
                    voids: 0,
                    bools: 0,
                    chars: 0,
                    shorts: 0,
                    ints: 0,
                    longs: 0,
                    floats: 0,
                    doubles: 0,
                    signeds: 0,
                    unsigneds: 0,
                },
                named: None,
                storage_class: None,
                align: None,
                noreturn: false,
                defaults_to_int: false,
            },
        )?;
        if !s.has_type() {
            if !s.defaults_to_int {
                return Err(self.error_current(Message::ExpectedTypename));
            }
            if !s.has_sign() {
                // "signed/unsigned x" is valid without warning
                self.warn_current(Message::MissingTypeSpecifier);
            }
        }
        Ok(
            Declspec {
                ty: specified_type(s),
                align: s.align,
                storage_class: s.storage_class,
                noreturn: s.noreturn,
            },
        )
    }

    /// Parse as many declaration specifiers as there are.
    pub(crate) fn parse_declspec_atoms(
        &mut self,
        context: DeclspecContext,
        s: Specifiers,
    ) -> (r: Result<Specifiers, Error>)
        requires
            old(self).inv(),
        ensures
            final(self).inv(),
            declspec_atoms(old(self)@, context, s) == (Out { st: final(self)@, r }),
            stays(old(self)@, final(self)@, r is Ok),
            r is Ok && !has_type(s) && !s.defaults_to_int ==> rem(final(self)@) < rem(old(self)@)
                || r->Ok_0 == s,
        decreases rem(old(self)@), 5int,
    {
        assert(declspec_atoms(self@, context, s) == declspec_atoms_rule(self@, context, s));
        if !self.at_typename() {
            return Ok(s);
        }
        proof {
            reveal(at_typename);
        }
        let span = self.here();
        match self.typedef_name() {
            Some(ty) => {
                if s.has_type() {
                    // There is already a type specifier, so another ident, even if
                    // it can be interpreted as a typedef name, we should not treat
                    // it as part of the declspec but rather break before advance to
                    // let other parsing logic handle it
                    return Ok(s);
                }
                self.advance();
                if s.has_sign() {
                    return Err(Error::Terminate(span, Message::MultipleTypes));
                }
                let s = Specifiers { named: Some(ty), ..s };
                self.parse_declspec_atoms(context, s)
            },
            None => {
                let s = self.parse_declspec_keyword(context, s)?;
                self.parse_declspec_atoms(context, s)
            },
        }
    }

    /// Parse one declaration specifier that begins with a keyword.
    pub(crate) fn parse_declspec_keyword(
        &mut self,
        context: DeclspecContext,
        s: Specifiers,
    ) -> (r: Result<Specifiers, Error>)
        requires
            old(self).inv(),
        ensures
            final(self).inv(),
            declspec_keyword(old(self)@, context, s) == (Out { st: final(self)@, r }),
            moves(old(self)@, final(self)@, r is Ok),
        decreases rem(old(self)@), 4int,
    {
        assert(declspec_keyword(self@, context, s) == declspec_keyword_rule(self@, context, s));
        let span = self.here();
        let free = !s.has_type() && !s.has_sign();
        match self.current().kind {
            TokenKind::Keyword(Keyword::Struct) => {
                self.advance();
                if !free {
                    return Err(Error::Terminate(span, Message::MultipleTypes));
                }
                let ty = self.parse_struct_or_union_decl(true, context)?;
                Ok(Specifiers { named: Some(ty), ..s })
            },
            TokenKind::Keyword(Keyword::Union) => {
                self.advance();
                if !free {
                    return Err(Error::Terminate(span, Message::MultipleTypes));
                }
                let ty = self.parse_struct_or_union_decl(false, context)?;
                Ok(Specifiers { named: Some(ty), ..s })
            },
            TokenKind::Keyword(Keyword::Enum) => {
                self.advance();
                if !free {
                    return Err(Error::Terminate(span, Message::MultipleTypes));
                }
                let ty = self.parse_enum_specifier()?;
                Ok(Specifiers { named: Some(ty), ..s })
            },
            TokenKind::Keyword(Keyword::Alignas) => {
                self.advance();
                if !matches!(
                    context,
                    DeclspecContext::FileScopeDecl | DeclspecContext::BlockScopeDecl
                    | DeclspecContext::MemberDecl(_)
                ) {
                    return Err(Error::Terminate(span, Message::AlignasNotAllowed(context)));
                }
                let align: u64 = self.parse_alignas()?;
                Ok(Specifiers { align: larger_align(s.align, Some(align)), ..s })
            },
            TokenKind::Keyword(keyword) => {
                self.advance();
                match specify(s, keyword, context) {
                    Ok(s) => Ok(s),
                    Err(message) => Err(Error::Terminate(span, message)),
                }
            },
            _ => Err(Error::Terminate(span, Message::ExpectedTypename)),
        }
    }

    /// ```bnf
    /// "(" (<typename> | <constexpr>) ")"
    /// ```
    pub(crate) fn parse_alignas(&mut self) -> (r: Result<u64, Error>)
        requires
            old(self).inv(),
        ensures
            final(self).inv(),
            alignas(old(self)@) == (Out { st: final(self)@, r }),
            moves(old(self)@, final(self)@, r is Ok),
        decreases rem(old(self)@), 3int,
    {
        assert(alignas(self@) == alignas_rule(self@));
        self.skip_punct(Punct::LParen)?;
        let align: u64 = self.parse_alignas_value()?;
        self.skip_punct(Punct::RParen)?;
        Ok(align)
    }

    pub(crate) fn parse_alignas_value(&mut self) -> (r: Result<u64, Error>)
        requires
            old(self).inv(),
        ensures
            final(self).inv(),
            alignas_value(old(self)@) == (Out { st: final(self)@, r }),
            moves(old(self)@, final(self)@, r is Ok),
        decreases rem(old(self)@), 22int,
    {
        assert(alignas_value(self@) == alignas_value_rule(self@));
        if self.at_typename() {
            let ty = self.parse_typename()?;
            return Ok(self.align(ty));
        }
        let val = self.parse_constexpr()?;
        match val.to_u64() {
            Some(align) => Ok(align),
            None => Err(self.error_current(Message::ConstOutOfRange)),
        }
    }

    fn at_qualifier(&self) -> (r: bool)
        requires
            self.inv(),
        ensures
            r == at_qualifier(self@),
    {
        self.at_keyword(Keyword::Const) || self.at_keyword(Keyword::Volatile) || self.at_keyword(
            Keyword::Restrict,
        )
    }

    fn skip_qualifiers(&mut self)
        requires
            old(self).inv(),
        ensures
            final(self).inv(),
            final(self)@ == past_qualifiers(old(self)@),
            stays(old(self)@, final(self)@, true),
    {
        while self.at_qualifier()
            invariant
                self.inv(),
                stays(old(self)@, self@, true),
                past_qualifiers(old(self)@) == past_qualifiers(self@),
            decreases rem(self@),
        {
            assert(past_qualifiers(self@) == past_qualifiers_rule(self@));
            self.advance();
        }
        assert(past_qualifiers(self@) == past_qualifiers_rule(self@));
    }

    /// ```bnf
    /// <pointers> ::= ("*" ("const" | "volatile" | "restrict")*)*
    /// ```
    fn parse_pointers(&mut self, ty: Type) -> (r: Type)
        requires
            old(self).inv(),
        ensures
            final(self).inv(),
            (final(self)@, r) == pointers(old(self)@, ty),
            stays(old(self)@, final(self)@, true),
    {
        let ghost first = ty;
        let mut ty = ty;
        while self.at(Punct::Star)
            invariant
                self.inv(),
                stays(old(self)@, self@, true),
                pointers(old(self)@, first) == pointers(self@, ty),
            decreases rem(self@),
        {
            assert(pointers(self@, ty) == pointers_rule(self@, ty));
            self.advance();
            ty = self.new_ptr(ty);
            self.skip_qualifiers();
        }
        assert(pointers(self@, ty) == pointers_rule(self@, ty));
        ty
    }

    /// ```bnf
    /// <declarator> ::= <pointers> (<ident>? | "(" <declarator> ")") <type-suffix>
    /// ```
    pub fn parse_declarator(&mut self, ty: Type, in_param: bool) -> (r: Result<Declarator, Error>)
        requires
            old(self).inv(),
        ensures
            final(self).inv(),
            declarator(old(self)@, ty, in_param) == (Out {
                st: final(self)@,
                r: match r {
                    Ok(x) => Ok(x@),
                    Err(e) => Err(e),
                },
            }),
            stays(old(self)@, final(self)@, r is Ok),
        decreases rem(old(self)@), 4int,
    {
        assert(declarator(self@, ty, in_param) == declarator_rule(self@, ty, in_param));
        let ty = self.parse_pointers(ty);
        if self.at(Punct::LParen) {
            self.advance();
            let inner_pos: usize = self.position(); // After "("
            // Try to parse the inner declarator to find where it ends, i.e.,
            // the matching ")"
            let next_pos: usize = self.nested_end(in_param)?;
            // Parse the type suffix after ")"
            self.set_position(next_pos);
            let (ty, params) = self.parse_type_suffix(ty, in_param)?;
            let next_pos: usize = self.position();
            // Rewind to parse the inner declarator again, this time with the
            // real type; we don't go through the type suffix again but rather
            // directly take its params
            self.set_position(inner_pos);
            let mut declarator = self.parse_declarator(ty, in_param)?;
            if !self.is_func(declarator.ty) {
                declarator.params = Vec::new();
                assert(declarator.params@ =~= Seq::<Parameter>::empty());
            } else if declarator.ty == ty {
                declarator.params = params;
            }
            self.set_position(next_pos);
            return Ok(declarator);
        }
        let span = self.here();
        let name = self.ident();
        if name.is_some() {
            self.advance();
        }
        let (ty, params) = self.parse_type_suffix(ty, in_param)?;
        Ok(Declarator { name, ty, span, params })
    }

    /// Look ahead for the token after a nested declarator and its ")".
    pub(crate) fn nested_end(&mut self, in_param: bool) -> (r: Result<usize, Error>)
        requires
            old(self).inv(),
        ensures
            final(self).inv(),
            nested_end(old(self)@, in_param) == (Out {
                st: final(self)@,
                r: match r {
                    Ok(x) => Ok(x as int),
                    Err(e) => Err(e),
                },
            }),
            pauses(old(self)@, final(self)@, r is Ok),
            r is Ok ==> r->Ok_0 < old(self)@.input.tokens.len() && rem(
                at_pos(old(self)@, r->Ok_0 as int),
            ) < rem(old(self)@),
        decreases rem(old(self)@), 6int,
    {
        assert(nested_end(self@, in_param) == nested_end_rule(self@, in_param));
        let ghost before = self@;
        let cp = self.begin_speculation();
        let r = self.nested_end_inner(in_param);
        self.end_speculation(cp, Ghost(before));
        r
    }

    fn nested_end_inner(&mut self, in_param: bool) -> (r: Result<usize, Error>)
        requires
            old(self).inv(),
        ensures
            final(self).inv(),
            ({
                let d = declarator(old(self)@, Type::Dummy, in_param);
                let e = crate::parse::state::skip_punct(d.st, Punct::RParen);
                if d.r is Err {
                    final(self)@ == d.st && r == Err::<usize, Error>(d.r->Err_0)
                } else if e.r is Err {
                    final(self)@ == e.st && r == Err::<usize, Error>(e.r->Err_0)
                } else {
                    final(self)@ == e.st && r is Ok && r->Ok_0 == e.st.pos
                }
            }),
            keeps(old(self)@, final(self)@, false),
            r is Ok ==> rem(final(self)@) < rem(old(self)@),
        decreases rem(old(self)@), 5int,
    {
        let _ = self.parse_declarator(Type::Dummy, in_param)?;
        self.skip_punct(Punct::RParen)?;
        Ok(self.position())
    }

    fn abstract_nested_end_inner(&mut self, in_param: bool) -> (r: Result<usize, Error>)
        requires
            old(self).inv(),
        ensures
            final(self).inv(),
            ({
                let d = abstract_declarator(old(self)@, Type::Dummy, in_param);
                let e = crate::parse::state::skip_punct(d.st, Punct::RParen);
                if d.r is Err {
                    final(self)@ == d.st && r == Err::<usize, Error>(d.r->Err_0)
                } else if e.r is Err {
                    final(self)@ == e.st && r == Err::<usize, Error>(e.r->Err_0)
                } else {
                    final(self)@ == e.st && r is Ok && r->Ok_0 == e.st.pos
                }
            }),
            keeps(old(self)@, final(self)@, false),
            r is Ok ==> rem(final(self)@) < rem(old(self)@),
        decreases rem(old(self)@), 5int,
    {
        let _ = self.parse_abstract_declarator(Type::Dummy, in_param)?;
        self.skip_punct(Punct::RParen)?;
        Ok(self.position())
    }

    /// ```bnf
    /// <abstract-declarator> ::=
    ///   <pointers> ("(" <abstract-declarator> ")")? <type-suffix>
    /// ```
    pub(crate) fn parse_abstract_declarator(
        &mut self,
        ty: Type,
        in_param: bool,
    ) -> (r: Result<Type, Error>)
        requires
            old(self).inv(),
        ensures
            final(self).inv(),
            abstract_declarator(old(self)@, ty, in_param) == (Out { st: final(self)@, r }),
            stays(old(self)@, final(self)@, r is Ok),
        decreases rem(old(self)@), 4int,
    {
        assert(abstract_declarator(self@, ty, in_param) == abstract_declarator_rule(self@, ty, in_param));
        let ty = self.parse_pointers(ty);
        // The following part of logic is analogous to "parse_declarator"
        if self.at(Punct::LParen) {
            self.advance();
            let inner_pos: usize = self.position();
            let next_pos: usize = self.abstract_nested_end(in_param)?;
            self.set_position(next_pos);
            let (ty, _) = self.parse_type_suffix(ty, in_param)?;
            let next_pos: usize = self.position();
            self.set_position(inner_pos);
            let ty = self.parse_abstract_declarator(ty, in_param)?;
            self.set_position(next_pos);
            return Ok(ty);
        }
        let (ty, _) = self.parse_type_suffix(ty, in_param)?;
        Ok(ty)
    }

    /// Look ahead for the token after a nested abstract declarator and its ")".
    pub(crate) fn abstract_nested_end(&mut self, in_param: bool) -> (r: Result<usize, Error>)
        requires
            old(self).inv(),
        ensures
            final(self).inv(),
            abstract_nested_end(old(self)@, in_param) == (Out {
                st: final(self)@,
                r: match r {
                    Ok(x) => Ok(x as int),
                    Err(e) => Err(e),
                },
            }),
            pauses(old(self)@, final(self)@, r is Ok),
            r is Ok ==> r->Ok_0 < old(self)@.input.tokens.len() && rem(
                at_pos(old(self)@, r->Ok_0 as int),
            ) < rem(old(self)@),
        decreases rem(old(self)@), 6int,
    {
        assert(abstract_nested_end(self@, in_param) == abstract_nested_end_rule(self@, in_param));
        let ghost before = self@;
        let cp = self.begin_speculation();
        let r = self.abstract_nested_end_inner(in_param);
        self.end_speculation(cp, Ghost(before));
        r
    }

    /// ```bnf
    /// <typename> ::= <declspec> <abstract-declarator>
    /// ```
    pub fn parse_typename(&mut self) -> (r: Result<Type, Error>)
        requires
            old(self).inv(),
        ensures
            final(self).inv(),
            typename(old(self)@) == (Out { st: final(self)@, r }),
            moves(old(self)@, final(self)@, r is Ok),
        decreases rem(old(self)@), 7int,
    {
        assert(typename(self@) == typename_rule(self@));
        let declspec = self.parse_declspec(DeclspecContext::Typename)?;
        self.parse_abstract_declarator(declspec.ty, false)
    }

    /// ```bnf
    /// <type-suffix> ::= "(" <func-params> | <array-dimensions>
    /// ```
    pub(crate) fn parse_type_suffix(&mut self, ty: Type, in_param: bool) -> (r: Result<(Type, Vec<Parameter>), Error>)
        requires
            old(self).inv(),
        ensures
            final(self).inv(),
            type_suffix(old(self)@, ty, in_param) == (Out {
                st: final(self)@,
                r: match r {
                    Ok(x) => Ok((x.0, x.1@)),
                    Err(e) => Err(e),
                },
            }),
            stays(old(self)@, final(self)@, r is Ok),
        decreases rem(old(self)@), 3int,
    {
        assert(type_suffix(self@, ty, in_param) == type_suffix_rule(self@, ty, in_param));
        if self.at(Punct::LParen) {
            self.advance();
            let params: Vec<Parameter> = Vec::new();
            assert(params@ =~= Seq::<Parameter>::empty());
            return self.parse_func_params(ty, params);
        }
        let ty = self.parse_array_dimensions(ty, in_param)?;
        let params: Vec<Parameter> = Vec::new();
        assert(params@ =~= Seq::<Parameter>::empty());
        Ok((ty, params))
    }

    /// Store a function type at the end of its parameters.
    pub(crate) fn end_params(
        &mut self,
        return_ty: Type,
        params: Vec<Parameter>,
        is_variadic: bool,
    ) -> (r: Result<(Type, Vec<Parameter>), Error>)
        requires
            old(self).inv(),
        ensures
            final(self).inv(),
            end_params(old(self)@, return_ty, params@, is_variadic) == (Out {
                st: final(self)@,
                r: match r {
                    Ok(x) => Ok((x.0, x.1@)),
                    Err(e) => Err(e),
                },
            }),
            moves(old(self)@, final(self)@, r is Ok),
    {
        self.skip_punct(Punct::RParen)?;
        proof {
            reveal(Parser::view);
        }
        let ty = self.types.func(return_ty, types_of_params(&params), is_variadic);
        Ok((ty, params))
    }

    /// ```bnf
    /// <func-params> ::= ("void" | <param> ("," <param>)* ("," "...")?)? ")"
    /// <param> ::= <declspec> <declarator>
    /// ```
    pub(crate) fn parse_func_params(
        &mut self,
        return_ty: Type,
        params: Vec<Parameter>,
    ) -> (r: Result<(Type, Vec<Parameter>), Error>)
        requires
            old(self).inv(),
        ensures
            final(self).inv(),
            func_params(old(self)@, return_ty, params@) == (Out {
                st: final(self)@,
                r: match r {
                    Ok(x) => Ok((x.0, x.1@)),
                    Err(e) => Err(e),
                },
            }),
            moves(old(self)@, final(self)@, r is Ok),
        decreases rem(old(self)@), 9int,
    {
        assert(func_params(self@, return_ty, params@) == func_params_rule(self@, return_ty, params@));
        if self.at(Punct::RParen) {
            return self.end_params(return_ty, params, false);
        }
        if params.len() > 0 {
            self.skip_punct(Punct::Comma)?;
        }
        if self.at(Punct::Ellipsis) {
            self.advance();
            return self.end_params(return_ty, params, true);
        }
        let span = self.here();
        let declspec = self.parse_declspec(DeclspecContext::ParameterDecl)?;
        if params.len() == 0 && declspec.ty == Type::Void {
            if self.at(Punct::RParen) {
                return self.end_params(return_ty, params, false);
            }
            if self.at(Punct::Comma) {
                return Err(Error::Terminate(span, Message::VoidMustBeOnly));
            }
        }
        let param = self.parse_param(declspec, &params)?;
        let mut params = params;
        params.push(param);
        self.parse_func_params(return_ty, params)
    }

    /// Parse a parameter whose declaration specifiers have been taken.
    pub(crate) fn parse_param(
        &mut self,
        ds: Declspec,
        params: &Vec<Parameter>,
    ) -> (r: Result<Parameter, Error>)
        requires
            old(self).inv(),
        ensures
            final(self).inv(),
            param(old(self)@, ds, params@) == (Out { st: final(self)@, r }),
            stays(old(self)@, final(self)@, r is Ok),
        decreases rem(old(self)@), 8int,
    {
        assert(param(self@, ds, params@) == param_rule(self@, ds, params@));
        let span = self.here();
        let declarator = self.parse_declarator(ds.ty, true)?;
        if ds.noreturn {
            self.warn_at(declarator.span, Message::ParamNoreturn);
        }
        let ty = self.decay(declarator.ty);
        if self.is_incomplete(ty) {
            return Err(Error::Terminate(span, Message::ParamIncomplete));
        }
        if param_exists(params, declarator.name) {
            return Err(Error::Terminate(span, Message::RedefinitionOfParam));
        }
        Ok(Parameter { name: declarator.name, ty, span: declarator.span })
    }

    /// Convert an array or function into a pointer, as in parameters.
    fn decay(&mut self, ty: Type) -> (r: Type)
        requires
            old(self).inv(),
        ensures
            final(self).inv(),
            r == decayed(old(self)@.types, ty).1,
            final(self)@ == with_types(old(self)@, decayed(old(self)@.types, ty).0),
    {
        if let Some(array) = self.as_array(ty) {
            // Array decay will convert "array of T" to "pointer to T" in
            // parameter declarations; e.g., "*argv[]" being converted to
            // "**argv" is because of this rule
            self.new_ptr(array.base)
        } else if self.is_func(ty) {
            // Likewise, a function in a parameter would be decayed to a
            // pointer to that function
            self.new_ptr(ty)
        } else {
            ty
        }
    }

    pub(crate) fn parse_array_qualifiers(
        &mut self,
        in_param: bool,
        seen: Option<SourceSpan>,
    ) -> (r: Result<Option<SourceSpan>, Error>)
        requires
            old(self).inv(),
        ensures
            final(self).inv(),
            array_qualifiers(old(self)@, in_param, seen) == (Out { st: final(self)@, r }),
            stays(old(self)@, final(self)@, r is Ok),
        decreases rem(old(self)@), 0int,
    {
        proof {
            reveal(array_qualifiers);
        }
        assert(array_qualifiers(self@, in_param, seen) == array_qualifiers_rule(self@, in_param, seen));
        let is_static = self.at_keyword(Keyword::Static);
        if !is_static && !self.at_qualifier() {
            return Ok(seen);
        }
        let span = self.here();
        if !in_param {
            return Err(Error::Terminate(span, Message::ArrayQualifiers));
        }
        if is_static && seen.is_some() {
            return Err(Error::Terminate(span, Message::DuplicateStatic));
        }
        self.advance();
        if is_static {
            self.parse_array_qualifiers(in_param, Some(span))
        } else {
            self.parse_array_qualifiers(in_param, seen)
        }
    }

    /// ```bnf
    /// <array-dimensions> ::= ("[" <array-qualifier>* <constexpr>? "]")*
    /// <array-qualifier> ::= "static" | "const" | "volatile" | "restrict"
    /// ```
    pub(crate) fn parse_array_dimensions(
        &mut self,
        ty: Type,
        in_param: bool,
    ) -> (r: Result<Type, Error>)
        requires
            old(self).inv(),
        ensures
            final(self).inv(),
            array_dimensions(old(self)@, ty, in_param) == (Out { st: final(self)@, r }),
            stays(old(self)@, final(self)@, r is Ok),
        decreases rem(old(self)@), 2int,
    {
        assert(array_dimensions(self@, ty, in_param) == array_dimensions_rule(self@, ty, in_param));
        if !self.at(Punct::LBracket) {
            return Ok(ty);
        }
        let span = self.here();
        self.advance();
        let len = self.parse_array_length(in_param)?;
        let ty = self.parse_array_dimensions(ty, in_param)?;
        if self.is_incomplete(ty) {
            return Err(Error::Terminate(span, Message::ArrayElementIncomplete));
        }
        if self.is_func(ty) {
            return Err(Error::Terminate(span, Message::ArrayElementFunction));
        }
        self.new_array(ty, len, span)
    }

    pub(crate) fn parse_array_length(&mut self, in_param: bool) -> (r: Result<Option<usize>, Error>)
        requires
            old(self).inv(),
        ensures
            final(self).inv(),
            array_length(old(self)@, in_param) == (Out { st: final(self)@, r }),
            moves(old(self)@, final(self)@, r is Ok),
        decreases rem(old(self)@), 24int,
    {
        assert(array_length(self@, in_param) == array_length_rule(self@, in_param));
        let static_span = self.parse_array_qualifiers(in_param, None)?;
        let len = self.parse_array_bound(static_span)?;
        self.skip_punct(Punct::RBracket)?;
        Ok(len)
    }

    pub(crate) fn parse_array_bound(
        &mut self,
        static_span: Option<SourceSpan>,
    ) -> (r: Result<Option<usize>, Error>)
        requires
            old(self).inv(),
        ensures
            final(self).inv(),
            array_bound(old(self)@, static_span) == (Out { st: final(self)@, r }),
            stays(old(self)@, final(self)@, r is Ok),
        decreases rem(old(self)@), 23int,
    {
        assert(array_bound(self@, static_span) == array_bound_rule(self@, static_span));
        if self.at(Punct::RBracket) {
            return match static_span {
                Some(span) => Err(Error::Terminate(span, Message::StaticWithoutBound)),
                None => Ok(None),
            };
        }
        let len: usize = self.parse_array_size()?;
        Ok(Some(len))
    }

    pub(crate) fn parse_array_size(&mut self) -> (r: Result<usize, Error>)
        requires
            old(self).inv(),
        ensures
            final(self).inv(),
            array_size_expr(old(self)@) == (Out { st: final(self)@, r }),
            moves(old(self)@, final(self)@, r is Ok),
        decreases rem(old(self)@), 22int,
    {
        assert(array_size_expr(self@) == array_size_expr_rule(self@));
        let val = self.parse_constexpr()?;
        match val.to_usize() {
            Some(len) => Ok(len),
            None => Err(self.error_current(Message::ArraySizeRange)),
        }
    }

    /// Return whether a type is a struct (or union, if not `is_struct`).
    pub fn is_kind_of_tag(&self, ty: Type, is_struct: bool) -> (r: bool)
        ensures
            r == is_kind_of_tag(self@.types, ty, is_struct),
    {
        proof {
            reveal(Parser::view);
        }
        match self.types.as_struct_or_union(ty) {
            Some(sou) => sou.is_struct == is_struct,
            None => false,
        }
    }

    fn new_incomplete(&mut self, is_struct: bool) -> (r: Type)
        requires
            old(self).inv(),
        ensures
            final(self).inv(),
            r == next_type(old(self)@.types),
            final(self)@ == with_types(old(self)@, with_incomplete(old(self)@.types, is_struct)),
    {
        proof {
            reveal(Parser::view);
        }
        self.types.incomplete_struct_or_union(is_struct)
    }

    pub(crate) fn use_tag(
        &mut self,
        tag: Symbol,
        found: Option<Type>,
        is_struct: bool,
        span: SourceSpan,
    ) -> (r: Result<Type, Error>)
        requires
            old(self).inv(),
        ensures
            final(self).inv(),
            tag_use(old(self)@, tag, found, is_struct, span) == (Out { st: final(self)@, r }),
            pauses(old(self)@, final(self)@, r is Ok),
    {
        match found {
            None => {
                let ty = self.new_incomplete(is_struct);
                self.push_scope_tag(tag, ty);
                Ok(ty)
            },
            Some(ty) => {
                if !self.is_kind_of_tag(ty, is_struct) {
                    return Err(Error::Terminate(span, Message::WrongKindOfTag));
                }
                Ok(ty)
            },
        }
    }

    pub(crate) fn complete_tag(
        &mut self,
        is_struct: bool,
        members: Vec<Member>,
        ty: Type,
        span: SourceSpan,
    ) -> (r: Result<Type, Error>)
        requires
            old(self).inv(),
        ensures
            final(self).inv(),
            complete_tag(old(self)@, is_struct, members@, ty, span) == (Out { st: final(self)@, r }),
            pauses(old(self)@, final(self)@, r is Ok),
    {
        proof {
            reveal(Parser::view);
        }
        if self.types.complete_struct_or_union(is_struct, members, ty) {
            Ok(ty)
        } else {
            Err(Error::Terminate(span, Message::TypeTooLarge))
        }
    }

    /// ```bnf
    /// <struct-or-union-decl> ::= <ident> | <ident>? "{" <members-decl>
    /// ```
    pub(crate) fn parse_struct_or_union_decl(
        &mut self,
        is_struct: bool,
        context: DeclspecContext,
    ) -> (r: Result<Type, Error>)
        requires
            old(self).inv(),
        ensures
            final(self).inv(),
            struct_decl(old(self)@, is_struct, context) == (Out { st: final(self)@, r }),
            moves(old(self)@, final(self)@, r is Ok),
        decreases rem(old(self)@), 3int,
    {
        assert(struct_decl(self@, is_struct, context) == struct_decl_rule(self@, is_struct, context));
        let span = self.here();
        let Some(tag) = self.ident() else {
            // "struct {...}", which is an anonymous definition
            self.skip_punct(Punct::LBrace)?;
            let members = self.parse_members_decl(is_struct, no_members())?;
            let ty = self.new_incomplete(is_struct);
            return self.complete_tag(is_struct, members, ty, span);
        };
        self.advance();
        if !self.at(Punct::LBrace) {
            if self.at(Punct::Semi) && matches!(
                context,
                DeclspecContext::FileScopeDecl | DeclspecContext::BlockScopeDecl
            ) {
                // "struct T;" in file/block scope, which is a forward
                // declaration within the same scope
                let found = self.find_tag_current(tag);
                return self.use_tag(tag, found, is_struct, span);
            }
            // "struct T" not followed by "{" or ";"; which is a tag use
            // rather than a declaration, so we should look it up not only
            // in the current scope; only if it is not found in any visible
            // scope should we introduce a new incomplete type
            let found = self.find_tag(tag);
            return self.use_tag(tag, found, is_struct, span);
        }
        // "struct T {...}", which is a concrete definition
        match self.find_tag_current(tag) {
            None => {
                // Note: We have to create an incomplete type first, then parse
                // the members and complete the type; this is to handle self-
                // referential structs, so members can see that this type is
                // already declared and will not create a separate declaration
                let ty = self.new_incomplete(is_struct);
                self.push_scope_tag(tag, ty);
                self.advance();
                self.parse_struct_body(is_struct, ty, span)
            },
            Some(ty) => {
                if !self.is_kind_of_tag(ty, is_struct) {
                    return Err(Error::Terminate(span, Message::WrongKindOfTag));
                }
                if !self.is_incomplete(ty) {
                    return Err(Error::Terminate(span, Message::RedefinitionOfTag(is_struct)));
                }
                self.advance();
                self.parse_struct_body(is_struct, ty, span)
            },
        }
    }

    pub(crate) fn parse_struct_body(
        &mut self,
        is_struct: bool,
        ty: Type,
        span: SourceSpan,
    ) -> (r: Result<Type, Error>)
        requires
            old(self).inv(),
        ensures
            final(self).inv(),
            struct_body(old(self)@, is_struct, ty, span) == (Out { st: final(self)@, r }),
            moves(old(self)@, final(self)@, r is Ok),
        decreases rem(old(self)@), 9int,
    {
        assert(struct_body(self@, is_struct, ty, span) == struct_body_rule(self@, is_struct, ty, span));
        let members = self.parse_members_decl(is_struct, no_members())?;
        self.complete_tag(is_struct, members, ty, span)
    }

    /// ```bnf
    /// <members-decl> ::= <member-decl>* "}"
    /// ```
    pub(crate) fn parse_members_decl(
        &mut self,
        is_struct: bool,
        m: Members,
    ) -> (r: Result<Vec<Member>, Error>)
        requires
            old(self).inv(),
        ensures
            final(self).inv(),
            members_decl(old(self)@, is_struct, m@) == (Out {
                st: final(self)@,
                r: match r {
                    Ok(x) => Ok(x@),
                    Err(e) => Err(e),
                },
            }),
            moves(old(self)@, final(self)@, r is Ok),
        decreases rem(old(self)@), 8int,
    {
        assert(members_decl(self@, is_struct, m@) == members_decl_rule(self@, is_struct, m@));
        if self.at(Punct::RBrace) {
            self.advance();
            if let Some(pending) = m.pending {
                if !pending.is_flexible_array {
                    return Err(Error::Terminate(pending.span, Message::FieldIncomplete));
                }
                if !is_struct {
                    return Err(Error::Terminate(pending.span, Message::FlexibleInUnion));
                }
                if m.members.len() <= 1 {
                    return Err(Error::Terminate(pending.span, Message::FlexibleAlone));
                }
            }
            return Ok(m.members);
        }
        let declspec = self.parse_declspec(DeclspecContext::MemberDecl(is_struct))?;
        if let Some(pending) = m.pending {
            if !pending.is_flexible_array {
                return Err(Error::Terminate(pending.span, Message::FieldIncomplete));
            }
            if !is_struct {
                return Err(Error::Terminate(pending.span, Message::FlexibleInUnion));
            }
            return Err(Error::Terminate(pending.span, Message::FlexibleNotAtEnd));
        }
        if self.at(Punct::Semi) {
            self.warn_current(Message::DeclaresNothing);
            self.advance();
            return self.parse_members_decl(is_struct, m);
        }
        if self.at(Punct::RBrace) {
            return Err(self.error_current(Message::ExpectedSemi));
        }
        let m = self.parse_member_decl(declspec, m)?;
        self.parse_members_decl(is_struct, m)
    }

    /// ```bnf
    /// <member-decl> ::= <declspec> <declarator> ("," <declarator>)* ";"
    /// ```
    ///
    /// The declaration specifiers have been taken.
    pub(crate) fn parse_member_decl(
        &mut self,
        ds: Declspec,
        m: Members,
    ) -> (r: Result<Members, Error>)
        requires
            old(self).inv(),
        ensures
            final(self).inv(),
            member_decl(old(self)@, ds, m@) == (Out {
                st: final(self)@,
                r: match r {
                    Ok(x) => Ok(x@),
                    Err(e) => Err(e),
                },
            }),
            moves(old(self)@, final(self)@, r is Ok),
        decreases rem(old(self)@), 7int,
    {
        assert(member_decl(self@, ds, m@) == member_decl_rule(self@, ds, m@));
        let mut m = m;
        let declarator = self.parse_declarator(ds.ty, false)?;
        if self.is_incomplete(declarator.ty) {
            m.pending = Some(
                PendingMember {
                    is_flexible_array: self.as_array(declarator.ty).is_some(),
                    span: declarator.span,
                },
            );
        }
        let Some(name) = declarator.name else {
            return Err(Error::Terminate(declarator.span, Message::MissingMemberName));
        };
        m.members.push(
            Member {
                name,
                ty: declarator.ty,
                align: ds.align,
                offset: 0, // union requires 0; struct fills in later
                bit_field: None,
            },
        );
        if self.at(Punct::Comma) {
            self.advance();
            return self.parse_member_decl(ds, m);
        }
        if self.at(Punct::Semi) {
            self.advance();
            return Ok(m);
        }
        if self.at(Punct::RBrace) {
            return Err(self.error_current(Message::ExpectedSemi));
        }
        Err(self.error_current(Message::ExpectedCommaOrSemi))
    }

    /// ```bnf
    /// <enum-specifier> ::= <ident>? "{" <enum-list>? "}" | <ident>
    /// ```
    pub(crate) fn parse_enum_specifier(&mut self) -> (r: Result<Type, Error>)
        requires
            old(self).inv(),
        ensures
            final(self).inv(),
            enum_specifier(old(self)@) == (Out { st: final(self)@, r }),
            moves(old(self)@, final(self)@, r is Ok),
        decreases rem(old(self)@), 3int,
    {
        assert(enum_specifier(self@) == enum_specifier_rule(self@));
        let span = self.here();
        if let Some(tag) = self.ident() {
            self.advance();
            if !self.at(Punct::LBrace) {
                let Some(ty) = self.find_tag(tag) else {
                    return Err(Error::Terminate(span, Message::UnknownEnum));
                };
                if ty != Type::Enum {
                    return Err(Error::Terminate(span, Message::NotAnEnumTag));
                }
                return Ok(ty);
            }
            if let Some(ty) = self.find_tag_current(tag) {
                if ty == Type::Enum {
                    return Err(Error::Terminate(span, Message::RedeclarationOfEnumTag));
                }
                return Err(Error::Terminate(span, Message::WrongKindOfTag));
            }
            self.skip_punct(Punct::LBrace)?;
            self.parse_enum_list()?;
            self.push_scope_tag(tag, Type::Enum);
            return Ok(Type::Enum);
        }
        self.skip_punct(Punct::LBrace)?;
        self.parse_enum_list()?;
        Ok(Type::Enum)
    }

    /// ```bnf
    /// <enum-list> ::=
    ///   <ident> ("=" <constexpr>)? ("," <ident> ("=" <constexpr>)?)* ","?
    /// ```
    pub(crate) fn parse_enum_list(&mut self) -> (r: Result<(), Error>)
        requires
            old(self).inv(),
        ensures
            final(self).inv(),
            enum_list(
                old(self)@,
                true,
                ConstValue::spec_int(0, ConstType::Arith(ArithType::Int)),
            ) == (Out { st: final(self)@, r }),
            moves(old(self)@, final(self)@, r is Ok),
        decreases rem(old(self)@), 2int,
    {
        assert(enum_list(
            self@,
            true,
            ConstValue::spec_int(0, ConstType::Arith(ArithType::Int)),
        ) == enum_list_rule(self@, true, ConstValue::spec_int(0, ConstType::Arith(ArithType::Int))));
        let mut first = true;
        let mut val = ConstValue::integer(0, ConstType::Arith(ArithType::Int));
        let ghost zero = val;
        loop
            invariant
                self.inv(),
                zero == ConstValue::spec_int(0, ConstType::Arith(ArithType::Int)),
                stays(old(self)@, self@, true),
                enum_list(old(self)@, true, zero) == enum_list(self@, first, val),
            decreases rem(self@),
        {
            assert(enum_list(self@, first, val) == enum_list_rule(self@, first, val));
            if self.maybe_skip_list_end(true) {
                return Ok(());
            }
            if !first {
                self.skip_punct(Punct::Comma)?;
            }
            let span = self.here();
            let Some(name) = self.ident() else {
                return Err(Error::Terminate(span, Message::ExpectedIdent));
            };
            self.advance();
            val = self.parse_enum_value(val)?;
            if let Some(ident) = self.find_ident_current(name) {
                return match ident {
                    OrdinaryIdent::Enumerator(_) => {
                        Err(Error::Terminate(span, Message::RedeclarationOfEnumerator))
                    },
                    _ => Err(Error::Terminate(span, Message::DifferentKindOfSymbol)),
                };
            }
            self.push_scope_ident(name, OrdinaryIdent::Enumerator(val));
            val = self.successor(val)?;
            first = false;
        }
    }

    pub(crate) fn parse_enum_value(&mut self, val: ConstValue) -> (r: Result<ConstValue, Error>)
        requires
            old(self).inv(),
        ensures
            final(self).inv(),
            enum_value(old(self)@, val) == (Out { st: final(self)@, r }),
            stays(old(self)@, final(self)@, r is Ok),
        decreases rem(old(self)@), 1int,
    {
        assert(enum_value(self@, val) == enum_value_rule(self@, val));
        if self.at(Punct::Assign) {
            self.advance();
            return self.parse_constexpr();
        }
        Ok(val)
    }

    fn successor(&self, val: ConstValue) -> (r: Result<ConstValue, Error>)
        ensures
            crate::parse::state::floated(
                self@,
                next_enumerator(val, self@.input.floats),
            ) == (Out { st: self@, r }),
    {
        proof {
            reveal(next_enumerator);
            reveal(Parser::view);
        }
        match val.add(ConstValue::integer(1, val.ty), val.ty, &self.floats) {
            Ok(val) => Ok(val),
            Err(query) => Err(Error::NeedsFloat(query)),
        }
    }
}

fn no_members() -> (r: Members)
    ensures
        r@ == (MembersView { members: Seq::empty(), pending: None }),
{
    let r = Members { members: Vec::new(), pending: None };
    assert(r@.members =~= Seq::<Member>::empty());
    r
}

fn types_of_params(params: &Vec<Parameter>) -> (r: Vec<Type>)
    ensures
        r@ == param_tys(params@),
{
    let mut out: Vec<Type> = Vec::new();
    let mut i: usize = 0;
    while i < params.len()
        invariant
            i <= params.len(),
            out@ =~= param_tys(params@.take(i as int)),
        decreases params.len() - i,
    {
        out.push(params[i].ty);
        i += 1;
        assert(out@ =~= param_tys(params@.take(i as int)));
    }
    assert(params@.take(params@.len() as int) =~= params@);
    out
}

fn param_exists(params: &Vec<Parameter>, name: Option<Symbol>) -> (r: bool)
    ensures
        r == has_param(params@, name),
{
    if name.is_none() {
        return false;
    }
    let mut i: usize = 0;
    while i < params.len()
        invariant
            i <= params.len(),
            name is Some,
            forall|k: int| 0 <= k < i ==> (#[trigger] params@[k]).name != name,
        decreases params.len() - i,
    {
        if let (Some(a), Some(b)) = (params[i].name, name) {
            if a == b {
                assert(params@[i as int].name == name);
                return true;
            }
        }
        i += 1;
    }
    false
}

} // verus!
