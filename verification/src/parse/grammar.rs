//! The grammar, as functions from one parser state to the next.
//!
//! Each rule gives the state after the tokens it takes, and what it came to.
//! Where a rule goes on behind another one, it relies on that one having taken
//! tokens, and fails as [`stuck`] otherwise. The functions that parse state that
//! they take tokens where they succeed, so none of them is ever stuck.

use vstd::prelude::*;
use crate::ast::{
    node_list, node_ty, BinaryOp, EntityRef, GlobalView, Name, Node, NodeKind, StorageView,
};
use crate::constexpr::{ConstValue, FloatAnswer, FloatQuery};
use crate::error::{DeclspecContext, Error, Message};
use crate::parse::construct::{
    assign_node, binary_node, comma_node, deref_node, entity_node, init_list, members_of, new_add,
    new_compound_assign, new_compound_literal, new_member_access, new_post_inc_dec, new_sub,
    num_node, Initializer,
};
use crate::parse::eval::eval;
use crate::parse::grammar_stmt::compound_stmt;
use crate::parse::infer::{cast_node, infer};
use crate::parse::state::{
    adv, at, at_kw, at_list_end, at_typename, bound, cur, done, floated, fresh_label, here,
    ident_at, max_align, new_array, past_list_end, rem, rolled_back, skip_punct, speculation, stuck,
    tagged, typedef_at, warned, with_global, with_types, wrong, Out, ParserState,
};
use crate::scope::{ident_in, tag_in, visible_ident, visible_tag, OrdinaryIdent};
use crate::source::SourceSpan;
use crate::tokenize::{Keyword, Punct, TokenKind};
use crate::types::{
    align_of, array_of, completed, func_of, is_func_ty, is_incomplete_ty, is_sou_ty, lookup,
    next_type, same, size_of, ty_is_flonum, ty_promote, with_ptr, with_type, ArithType,
    ArrayTypeData, ConstType, Member, Symbol, Type, TypeForm, Types,
};

verus! {

/// Declaration of a function parameter.
#[derive(Clone, Copy, Debug, PartialEq, Eq, Structural)]
pub struct Parameter {
    pub name: Option<Symbol>,
    pub ty: Type,
    pub span: SourceSpan,
}

/// The mathematical form of an object declarator.
pub struct DeclaratorView {
    pub name: Option<Symbol>,
    pub ty: Type,
    pub span: SourceSpan,
    /// The parameter declarations for a function declarator.
    ///
    /// Non-function declarators leave it empty.
    pub params: Seq<Parameter>,
}

/// A storage class specifier.
#[derive(Clone, Copy, Debug, PartialEq, Eq, Structural)]
pub enum StorageClass {
    Typedef,
    Static,
    Extern,
    Auto,
    Register,
}

/// A declaration specifier.
#[derive(Clone, Copy, Debug, PartialEq, Eq, Structural)]
pub struct Declspec {
    pub ty: Type,
    pub align: Option<u64>,
    pub storage_class: Option<StorageClass>,
    pub noreturn: bool,
}

/// How often each type keyword occurs among declaration specifiers.
#[derive(Clone, Copy, Debug, PartialEq, Eq, Structural)]
pub struct TypeWords {
    pub voids: u8,
    pub bools: u8,
    pub chars: u8,
    pub shorts: u8,
    pub ints: u8,
    pub longs: u8,
    pub floats: u8,
    pub doubles: u8,
    pub signeds: u8,
    pub unsigneds: u8,
}

/// The declaration specifiers seen so far.
#[derive(Clone, Copy, Debug, PartialEq, Eq, Structural)]
pub struct Specifiers {
    pub words: TypeWords,
    /// A struct, a union, an enum, or the type of a typedef name.
    pub named: Option<Type>,
    pub storage_class: Option<StorageClass>,
    pub align: Option<u64>,
    pub noreturn: bool,
    pub defaults_to_int: bool,
}

/// A member of incomplete type that may only come last.
#[derive(Clone, Copy, Debug, PartialEq, Eq, Structural)]
pub struct PendingMember {
    pub is_flexible_array: bool,
    pub span: SourceSpan,
}

/// The members declared so far.
pub struct MembersView {
    pub members: Seq<Member>,
    pub pending: Option<PendingMember>,
}

pub open spec fn no_type_words() -> TypeWords {
    TypeWords {
        voids: 0,
        bools: 0,
        chars: 0,
        shorts: 0,
        ints: 0,
        longs: 0,
        floats: 0,
        doubles: 0,
        signeds: 0,
        unsigneds: 0,
    }
}

pub open spec fn no_specifiers() -> Specifiers {
    Specifiers {
        words: no_type_words(),
        named: None,
        storage_class: None,
        align: None,
        noreturn: false,
        defaults_to_int: false,
    }
}

/// Whether a storage class may stand in a context.
pub open spec fn storage_class_fits(class: StorageClass, context: DeclspecContext) -> bool {
    match class {
        StorageClass::Typedef | StorageClass::Static | StorageClass::Extern => context
            == DeclspecContext::FileScopeDecl || context == DeclspecContext::BlockScopeDecl,
        StorageClass::Auto => context == DeclspecContext::BlockScopeDecl || context
            == DeclspecContext::ForLoopInitializer,
        StorageClass::Register => context == DeclspecContext::BlockScopeDecl || context
            == DeclspecContext::ForLoopInitializer || context == DeclspecContext::ParameterDecl,
    }
}

/// The storage class that a keyword names.
pub open spec fn storage_class_of(keyword: Keyword) -> Option<StorageClass> {
    match keyword {
        Keyword::Typedef => Some(StorageClass::Typedef),
        Keyword::Static => Some(StorageClass::Static),
        Keyword::Extern => Some(StorageClass::Extern),
        Keyword::Auto => Some(StorageClass::Auto),
        Keyword::Register => Some(StorageClass::Register),
        _ => None,
    }
}

/// Whether a keyword is a type specifier by itself.
pub open spec fn is_type_word(keyword: Keyword) -> bool {
    match keyword {
        Keyword::Void | Keyword::Bool | Keyword::Char | Keyword::Short | Keyword::Int
        | Keyword::Long | Keyword::Float | Keyword::Double | Keyword::Signed
        | Keyword::Unsigned => true,
        _ => false,
    }
}

pub open spec fn one_more(n: u8) -> u8 {
    if n < u8::MAX {
        (n + 1) as u8
    } else {
        n
    }
}

/// Type keywords with one more among them.
pub open spec fn counted(w: TypeWords, keyword: Keyword) -> TypeWords {
    match keyword {
        Keyword::Void => TypeWords { voids: one_more(w.voids), ..w },
        Keyword::Bool => TypeWords { bools: one_more(w.bools), ..w },
        Keyword::Char => TypeWords { chars: one_more(w.chars), ..w },
        Keyword::Short => TypeWords { shorts: one_more(w.shorts), ..w },
        Keyword::Int => TypeWords { ints: one_more(w.ints), ..w },
        Keyword::Long => TypeWords { longs: one_more(w.longs), ..w },
        Keyword::Float => TypeWords { floats: one_more(w.floats), ..w },
        Keyword::Double => TypeWords { doubles: one_more(w.doubles), ..w },
        Keyword::Signed => TypeWords { signeds: one_more(w.signeds), ..w },
        Keyword::Unsigned => TypeWords { unsigneds: one_more(w.unsigneds), ..w },
        _ => w,
    }
}

/// Whether type keywords go together: `void`, `_Bool`, and `float` stand
/// alone, `double` may be `long`, `char` has at most a sign, and `short`,
/// `int`, and up to two `long` combine with each other, but for `short` with
/// `long`, and with a sign.
pub open spec fn words_agree(w: TypeWords) -> bool {
    let signs = w.signeds + w.unsigneds;
    let widths = w.shorts + w.ints + w.longs;
    &&& signs <= 1 && w.shorts <= 1 && w.ints <= 1 && w.longs <= 2
    &&& w.voids + w.bools + w.chars + w.floats + w.doubles <= 1
    &&& w.voids + w.bools + w.floats > 0 ==> signs == 0 && widths == 0
    &&& w.chars > 0 ==> widths == 0
    &&& w.doubles > 0 ==> signs == 0 && widths == w.longs && w.longs <= 1
    &&& w.shorts > 0 ==> w.longs == 0
}

/// Whether there is a sign among type keywords.
pub open spec fn has_sign(w: TypeWords) -> bool {
    w.signeds > 0 || w.unsigneds > 0
}

/// Whether type specifiers say more than a sign.
pub open spec fn has_type(s: Specifiers) -> bool {
    let w = s.words;
    ||| s.named is Some
    ||| w.voids > 0 || w.bools > 0 || w.chars > 0 || w.shorts > 0 || w.ints > 0 || w.longs > 0
    ||| w.floats > 0 || w.doubles > 0
}

/// The type specifiers after one more type keyword, if they go together.
///
/// Which keywords occur decides that; their order does not matter.
#[verifier::opaque]
pub open spec fn combined(s: Specifiers, keyword: Keyword) -> Option<Specifiers> {
    let words = counted(s.words, keyword);
    if is_type_word(keyword) && s.named is None && words_agree(words) {
        Some(
            Specifiers {
                words,
                defaults_to_int: s.defaults_to_int || keyword == Keyword::Signed || keyword
                    == Keyword::Unsigned,
                ..s
            },
        )
    } else {
        None
    }
}

/// The specifiers after one more keyword that needs no further tokens.
#[verifier::opaque]
pub open spec fn specified(s: Specifiers, keyword: Keyword, context: DeclspecContext) -> Result<
    Specifiers,
    Message,
> {
    match storage_class_of(keyword) {
        Some(class) => if !storage_class_fits(class, context) {
            Err(Message::StorageClassNotAllowed(context))
        } else if s.storage_class is Some {
            Err(Message::MultipleStorageClasses)
        } else {
            Ok(Specifiers { storage_class: Some(class), defaults_to_int: true, ..s })
        },
        None => match keyword {
            Keyword::Noreturn => match context {
                DeclspecContext::Typename | DeclspecContext::MemberDecl(_) => Err(
                    Message::NoreturnNotAllowed(context),
                ),
                _ => Ok(Specifiers { noreturn: true, defaults_to_int: true, ..s }),
            },
            Keyword::Const | Keyword::Volatile | Keyword::Restrict => Ok(
                Specifiers { defaults_to_int: true, ..s },
            ),
            _ => match combined(s, keyword) {
                Some(s) => Ok(s),
                None => Err(Message::MultipleTypes),
            },
        },
    }
}

/// Whether an alignment specifier may stand in a context.
pub open spec fn alignas_fits(context: DeclspecContext) -> bool {
    match context {
        DeclspecContext::FileScopeDecl | DeclspecContext::BlockScopeDecl
        | DeclspecContext::MemberDecl(_) => true,
        _ => false,
    }
}

/// The type that type keywords stand for, `int` if they do not say.
pub open spec fn words_ty(w: TypeWords) -> Type {
    let unsigned = w.unsigneds > 0;
    if w.voids > 0 {
        Type::Void
    } else if w.bools > 0 {
        Type::Arith(ArithType::Bool)
    } else if w.chars > 0 {
        Type::Arith(if unsigned { ArithType::UChar } else { ArithType::Char })
    } else if w.shorts > 0 {
        Type::Arith(if unsigned { ArithType::UShort } else { ArithType::Short })
    } else if w.floats > 0 {
        Type::Arith(ArithType::Float)
    } else if w.doubles > 0 {
        Type::Arith(ArithType::Double)
    } else if w.longs > 0 {
        Type::Arith(if unsigned { ArithType::ULong } else { ArithType::Long })
    } else {
        Type::Arith(if unsigned { ArithType::UInt } else { ArithType::Int })
    }
}

/// The type that type specifiers stand for.
pub open spec fn specified_ty(s: Specifiers) -> Type {
    match s.named {
        Some(ty) => ty,
        None => words_ty(s.words),
    }
}

/// The state moved to another token.
pub open spec fn at_pos(st: ParserState, pos: int) -> ParserState {
    ParserState { pos, ..st }
}

/// ```bnf
/// <declspec> ::= <declspec-atom>+
/// ```
pub open spec fn declspec(st: ParserState, context: DeclspecContext) -> Out<Declspec>
    decreases rem(st), 13int,
{
    declspec_rule(st, context)
}

pub open spec fn declspec_rule(st: ParserState, context: DeclspecContext) -> Out<Declspec>
    decreases rem(st), 12int,
{
    let o = declspec_atoms(st, context, no_specifiers());
    if o.r is Err {
        o.fail()
    } else {
        let s = o.val();
        let st1 = if !has_type(s) && s.defaults_to_int && !has_sign(s.words) {
            warned(o.st, here(o.st), Message::MissingTypeSpecifier)
        } else {
            o.st
        };
        if !has_type(s) && !s.defaults_to_int {
            wrong(st1, here(st1), Message::ExpectedTypename)
        } else {
            done(
                st1,
                Declspec {
                    ty: specified_ty(s),
                    align: s.align,
                    storage_class: s.storage_class,
                    noreturn: s.noreturn,
                },
            )
        }
    }
}

/// ```bnf
/// <declspec-atom> ::=
///   "typedef" | "static" | "extern" | "auto" | "register"
///   | "void" | "_Bool" | "char" | "short" | "int" | "long"
///   | "float" | "double" | "signed" | "unsigned"
///   | "const" | "volatile" | "restrict" | "_Noreturn"
///   | "_Alignas" "(" (<typename> | <constexpr>) ")"
///   | <struct-or-union-decl>
///   | <typedef-name>
///   | <enum-specifier>
/// ```
pub open spec fn declspec_atoms(st: ParserState, context: DeclspecContext, s: Specifiers) -> Out<
    Specifiers,
>
    decreases rem(st), 11int,
{
    declspec_atoms_rule(st, context, s)
}

pub open spec fn declspec_atoms_rule(
    st: ParserState,
    context: DeclspecContext,
    s: Specifiers,
) -> Out<
    Specifiers,
>
    decreases rem(st), 10int,
{
    if !at_typename(st) {
        done(st, s)
    } else {
        match typedef_at(st) {
            Some(ty) => if has_type(s) {
                done(st, s)
            } else if has_sign(s.words) {
                wrong(adv(st), here(st), Message::MultipleTypes)
            } else {
                declspec_atoms(
                    adv(st),
                    context,
                    Specifiers { named: Some(ty), ..s },
                )
            },
            None => {
                let o = declspec_keyword(st, context, s);
                if o.r is Err {
                    o.fail()
                } else if rem(o.st) >= rem(st) {
                    stuck(st)
                } else {
                    declspec_atoms(o.st, context, o.val())
                }
            },
        }
    }
}

/// One declaration specifier that begins with a keyword.
pub open spec fn declspec_keyword(st: ParserState, context: DeclspecContext, s: Specifiers) -> Out<
    Specifiers,
>
    decreases rem(st), 9int,
{
    declspec_keyword_rule(st, context, s)
}

pub open spec fn declspec_keyword_rule(
    st: ParserState,
    context: DeclspecContext,
    s: Specifiers,
) -> Out<
    Specifiers,
>
    decreases rem(st), 8int,
{
    let span = here(st);
    let free = !has_type(s) && !has_sign(s.words);
    match cur(st) {
        TokenKind::Keyword(Keyword::Struct) | TokenKind::Keyword(Keyword::Union) => if !free {
            wrong(adv(st), span, Message::MultipleTypes)
        } else {
            let o = struct_decl(adv(st), at_kw(st, Keyword::Struct), context);
            if o.r is Err {
                o.fail()
            } else {
                done(o.st, Specifiers { named: Some(o.val()), ..s })
            }
        },
        TokenKind::Keyword(Keyword::Enum) => if !free {
            wrong(adv(st), span, Message::MultipleTypes)
        } else {
            let o = enum_specifier(adv(st));
            if o.r is Err {
                o.fail()
            } else {
                done(o.st, Specifiers { named: Some(o.val()), ..s })
            }
        },
        TokenKind::Keyword(Keyword::Alignas) => if !alignas_fits(context) {
            wrong(adv(st), span, Message::AlignasNotAllowed(context))
        } else {
            let o = alignas(adv(st));
            if o.r is Err {
                o.fail()
            } else {
                done(o.st, Specifiers { align: max_align(s.align, Some(o.val())), ..s })
            }
        },
        TokenKind::Keyword(keyword) => match specified(s, keyword, context) {
            Ok(s) => done(adv(st), s),
            Err(message) => wrong(adv(st), span, message),
        },
        _ => wrong(st, span, Message::ExpectedTypename),
    }
}

/// ```bnf
/// "(" (<typename> | <constexpr>) ")"
/// ```
pub open spec fn alignas(st: ParserState) -> Out<u64>
    decreases rem(st), 7int,
{
    alignas_rule(st)
}

pub open spec fn alignas_rule(st: ParserState) -> Out<u64>
    decreases rem(st), 6int,
{
    let p = skip_punct(st, Punct::LParen);
    if p.r is Err {
        p.fail()
    } else if rem(p.st) >= rem(st) {
        stuck(st)
    } else {
        let a = alignas_value(p.st);
        if a.r is Err {
            a.fail()
        } else {
            let e = skip_punct(a.st, Punct::RParen);
            if e.r is Err {
                e.fail()
            } else {
                done(e.st, a.val())
            }
        }
    }
}

/// ```bnf
/// <typename> | <constexpr>
/// ```
pub open spec fn alignas_value(st: ParserState) -> Out<u64>
    decreases rem(st), 45int,
{
    alignas_value_rule(st)
}

pub open spec fn alignas_value_rule(st: ParserState) -> Out<u64>
    decreases rem(st), 44int,
{
    if at_typename(st) {
        let t = typename(st);
        if t.r is Err {
            t.fail()
        } else {
            done(t.st, align_of(t.st.types, t.val()))
        }
    } else {
        let c = constexpr(st);
        if c.r is Err {
            c.fail()
        } else {
            match c.val().spec_to_u64() {
                None => wrong(c.st, here(c.st), Message::ConstOutOfRange),
                Some(align) => done(c.st, align),
            }
        }
    }
}

/// ```bnf
/// <pointers> ::= ("*" ("const" | "volatile" | "restrict")*)*
/// ```
pub open spec fn pointers(st: ParserState, ty: Type) -> (ParserState, Type)
    decreases rem(st), 3int,
{
    pointers_rule(st, ty)
}

pub open spec fn pointers_rule(st: ParserState, ty: Type) -> (ParserState, Type)
    decreases rem(st), 2int,
{
    if at(st, Punct::Star) {
        let st1 = with_types(adv(st), with_ptr(st.types, ty));
        let st2 = past_qualifiers(st1);
        if rem(st2) >= rem(st) {
            (st, ty)
        } else {
            pointers(st2, next_type(st.types))
        }
    } else {
        (st, ty)
    }
}

/// Whether a type qualifier is here.
pub open spec fn at_qualifier(st: ParserState) -> bool {
    at_kw(st, Keyword::Const) || at_kw(st, Keyword::Volatile) || at_kw(st, Keyword::Restrict)
}

pub open spec fn past_qualifiers(st: ParserState) -> ParserState
    decreases rem(st), 1int,
{
    past_qualifiers_rule(st)
}

pub open spec fn past_qualifiers_rule(st: ParserState) -> ParserState
    decreases rem(st), 0int,
{
    if at_qualifier(st) {
        past_qualifiers(adv(st))
    } else {
        st
    }
}

/// The parameters of a declarator around which a type suffix stands in
/// parentheses: those of the suffix if they belong to what is declared, else its
/// own, and none unless it declares a function.
pub open spec fn declared_params(
    st: ParserState,
    d: DeclaratorView,
    suffix_ty: Type,
    suffix_params: Seq<Parameter>,
) -> Seq<Parameter> {
    if !is_func_ty(st.types, d.ty) {
        Seq::empty()
    } else if d.ty == suffix_ty {
        suffix_params
    } else {
        d.params
    }
}

/// ```bnf
/// <declarator> ::= <pointers> (<ident>? | "(" <declarator> ")") <type-suffix>
/// ```
pub open spec fn declarator(st: ParserState, ty: Type, in_param: bool) -> Out<DeclaratorView>
    decreases rem(st), 9int,
{
    declarator_rule(st, ty, in_param)
}

pub open spec fn declarator_rule(st: ParserState, ty: Type, in_param: bool) -> Out<DeclaratorView>
    decreases rem(st), 8int,
{
    let (st0, ty) = pointers(st, ty);
    if rem(st0) > rem(st) {
        stuck(st)
    } else if at(st0, Punct::LParen) {
        let st1 = adv(st0);
        let e = nested_end(st1, in_param);
        if e.r is Err {
            e.fail()
        } else {
            let st2 = at_pos(e.st, e.val());
            if rem(st2) >= rem(st) {
                stuck(st)
            } else {
                let s = type_suffix(st2, ty, in_param);
                if s.r is Err {
                    s.fail()
                } else {
                    let st3 = at_pos(s.st, st1.pos);
                    if rem(st3) >= rem(st) {
                        stuck(st)
                    } else {
                        let d = declarator(st3, s.val().0, in_param);
                        if d.r is Err {
                            d.fail()
                        } else {
                            let params = declared_params(d.st, d.val(), s.val().0, s.val().1);
                            done(at_pos(d.st, s.st.pos), DeclaratorView { params, ..d.val() })
                        }
                    }
                }
            }
        }
    } else {
        let span = here(st0);
        let name = ident_at(st0);
        let st1 = if name is Some {
            adv(st0)
        } else {
            st0
        };
        let s = type_suffix(st1, ty, in_param);
        if s.r is Err {
            s.fail()
        } else {
            done(s.st, DeclaratorView { name, ty: s.val().0, span, params: s.val().1 })
        }
    }
}

/// Find the token after a nested declarator and its ")", taking nothing.
pub open spec fn nested_end(st: ParserState, in_param: bool) -> Out<int>
    decreases rem(st), 11int,
{
    nested_end_rule(st, in_param)
}

pub open spec fn nested_end_rule(st: ParserState, in_param: bool) -> Out<int>
    decreases rem(st), 10int,
{
    let d = declarator(speculation(st), Type::Dummy, in_param);
    if d.r is Err {
        Out { st: rolled_back(st, d.st), r: Err(d.r->Err_0) }
    } else {
        let e = skip_punct(d.st, Punct::RParen);
        if e.r is Err {
            Out { st: rolled_back(st, e.st), r: Err(e.r->Err_0) }
        } else {
            done(rolled_back(st, e.st), e.st.pos)
        }
    }
}

/// ```bnf
/// <abstract-declarator> ::=
///   <pointers> ("(" <abstract-declarator> ")")? <type-suffix>
/// ```
pub open spec fn abstract_declarator(st: ParserState, ty: Type, in_param: bool) -> Out<Type>
    decreases rem(st), 9int,
{
    abstract_declarator_rule(st, ty, in_param)
}

pub open spec fn abstract_declarator_rule(st: ParserState, ty: Type, in_param: bool) -> Out<Type>
    decreases rem(st), 8int,
{
    let (st0, ty) = pointers(st, ty);
    if rem(st0) > rem(st) {
        stuck(st)
    } else if at(st0, Punct::LParen) {
        let st1 = adv(st0);
        let e = abstract_nested_end(st1, in_param);
        if e.r is Err {
            e.fail()
        } else {
            let st2 = at_pos(e.st, e.val());
            if rem(st2) >= rem(st) {
                stuck(st)
            } else {
                let s = type_suffix(st2, ty, in_param);
                if s.r is Err {
                    s.fail()
                } else {
                    let st3 = at_pos(s.st, st1.pos);
                    if rem(st3) >= rem(st) {
                        stuck(st)
                    } else {
                        let d = abstract_declarator(st3, s.val().0, in_param);
                        if d.r is Err {
                            d.fail()
                        } else {
                            done(at_pos(d.st, s.st.pos), d.val())
                        }
                    }
                }
            }
        }
    } else {
        let s = type_suffix(st0, ty, in_param);
        if s.r is Err {
            s.fail()
        } else {
            done(s.st, s.val().0)
        }
    }
}

/// Find the token after a nested abstract declarator and its ")", taking
/// nothing.
pub open spec fn abstract_nested_end(st: ParserState, in_param: bool) -> Out<int>
    decreases rem(st), 11int,
{
    abstract_nested_end_rule(st, in_param)
}

pub open spec fn abstract_nested_end_rule(st: ParserState, in_param: bool) -> Out<int>
    decreases rem(st), 10int,
{
    let d = abstract_declarator(speculation(st), Type::Dummy, in_param);
    if d.r is Err {
        Out { st: rolled_back(st, d.st), r: Err(d.r->Err_0) }
    } else {
        let e = skip_punct(d.st, Punct::RParen);
        if e.r is Err {
            Out { st: rolled_back(st, e.st), r: Err(e.r->Err_0) }
        } else {
            done(rolled_back(st, e.st), e.st.pos)
        }
    }
}

/// ```bnf
/// <typename> ::= <declspec> <abstract-declarator>
/// ```
pub open spec fn typename(st: ParserState) -> Out<Type>
    decreases rem(st), 15int,
{
    typename_rule(st)
}

pub open spec fn typename_rule(st: ParserState) -> Out<Type>
    decreases rem(st), 14int,
{
    let d = declspec(st, DeclspecContext::Typename);
    if d.r is Err {
        d.fail()
    } else if rem(d.st) >= rem(st) {
        stuck(st)
    } else {
        abstract_declarator(d.st, d.val().ty, false)
    }
}

/// ```bnf
/// <type-suffix> ::= "(" <func-params> | <array-dimensions>
/// ```
pub open spec fn type_suffix(st: ParserState, ty: Type, in_param: bool) -> Out<
    (Type, Seq<Parameter>),
>
    decreases rem(st), 7int,
{
    type_suffix_rule(st, ty, in_param)
}

pub open spec fn type_suffix_rule(st: ParserState, ty: Type, in_param: bool) -> Out<
    (Type, Seq<Parameter>),
>
    decreases rem(st), 6int,
{
    if at(st, Punct::LParen) {
        func_params(adv(st), ty, Seq::empty())
    } else {
        let o = array_dimensions(st, ty, in_param);
        if o.r is Err {
            o.fail()
        } else {
            done(o.st, (o.val(), Seq::empty()))
        }
    }
}

/// The types of parameters.
pub open spec fn param_tys(params: Seq<Parameter>) -> Seq<Type> {
    Seq::new(params.len(), |k: int| params[k].ty)
}

/// Store a function type at the end of its parameters.
pub open spec fn end_params(
    st: ParserState,
    return_ty: Type,
    params: Seq<Parameter>,
    is_variadic: bool,
) -> Out<(Type, Seq<Parameter>)> {
    let e = skip_punct(st, Punct::RParen);
    if e.r is Err {
        e.fail()
    } else {
        let form = TypeForm::Func { return_ty, params: param_tys(params), is_variadic };
        done(
            with_types(e.st, with_type(e.st.types, form, 0, 0)),
            (next_type(e.st.types), params),
        )
    }
}

/// ```bnf
/// <func-params> ::= ("void" | <param> ("," <param>)* ("," "...")?)? ")"
/// ```
pub open spec fn func_params(st: ParserState, return_ty: Type, params: Seq<Parameter>) -> Out<
    (Type, Seq<Parameter>),
>
    decreases rem(st), 19int,
{
    func_params_rule(st, return_ty, params)
}

pub open spec fn func_params_rule(st: ParserState, return_ty: Type, params: Seq<Parameter>) -> Out<
    (Type, Seq<Parameter>),
>
    decreases rem(st), 18int,
{
    if at(st, Punct::RParen) {
        end_params(st, return_ty, params, false)
    } else {
        let c = if params.len() > 0 {
            skip_punct(st, Punct::Comma)
        } else {
            done(st, ())
        };
        if c.r is Err {
            c.fail()
        } else if rem(c.st) > rem(st) {
            stuck(st)
        } else if at(c.st, Punct::Ellipsis) {
            end_params(adv(c.st), return_ty, params, true)
        } else {
            let d = declspec(c.st, DeclspecContext::ParameterDecl);
            if d.r is Err {
                d.fail()
            } else if rem(d.st) >= rem(st) {
                stuck(st)
            } else if params.len() == 0 && d.val().ty == Type::Void && at(d.st, Punct::RParen) {
                end_params(d.st, return_ty, params, false)
            } else if params.len() == 0 && d.val().ty == Type::Void && at(d.st, Punct::Comma) {
                wrong(d.st, here(c.st), Message::VoidMustBeOnly)
            } else {
                let p = param(d.st, d.val(), params);
                if p.r is Err {
                    p.fail()
                } else if rem(p.st) >= rem(st) {
                    stuck(st)
                } else {
                    func_params(p.st, return_ty, params.push(p.val()))
                }
            }
        }
    }
}

/// The type of a parameter: arrays and functions become pointers.
pub open spec fn decayed(types: Types, ty: Type) -> (Types, Type) {
    match array_of(types, ty) {
        Some(array) => (with_ptr(types, array.base), next_type(types)),
        None => if is_func_ty(types, ty) {
            (with_ptr(types, ty), next_type(types))
        } else {
            (types, ty)
        },
    }
}

/// Whether a parameter of the given name is already there.
pub open spec fn has_param(params: Seq<Parameter>, name: Option<Symbol>) -> bool {
    name is Some && exists|k: int| 0 <= k < params.len() && (#[trigger] params[k]).name == name
}

/// ```bnf
/// <param> ::= <declspec> <declarator>
/// ```
///
/// The declaration specifiers have been taken.
pub open spec fn param(st: ParserState, ds: Declspec, params: Seq<Parameter>) -> Out<Parameter>
    decreases rem(st), 17int,
{
    param_rule(st, ds, params)
}

pub open spec fn param_rule(st: ParserState, ds: Declspec, params: Seq<Parameter>) -> Out<Parameter>
    decreases rem(st), 16int,
{
    let span = here(st);
    let d = declarator(st, ds.ty, true);
    if d.r is Err {
        d.fail()
    } else {
        let st1 = if ds.noreturn {
            warned(d.st, d.val().span, Message::ParamNoreturn)
        } else {
            d.st
        };
        let (types, ty) = decayed(st1.types, d.val().ty);
        let st2 = with_types(st1, types);
        if is_incomplete_ty(types, ty) {
            wrong(st2, span, Message::ParamIncomplete)
        } else if has_param(params, d.val().name) {
            wrong(st2, span, Message::RedefinitionOfParam)
        } else {
            done(st2, Parameter { name: d.val().name, ty, span: d.val().span })
        }
    }
}

/// The qualifiers of an array parameter; where "static" stands comes back.
#[verifier::opaque]
pub open spec fn array_qualifiers(st: ParserState, in_param: bool, seen: Option<SourceSpan>) -> Out<
    Option<SourceSpan>,
>
    decreases rem(st), 1int,
{
    array_qualifiers_rule(st, in_param, seen)
}

pub open spec fn array_qualifiers_rule(
    st: ParserState,
    in_param: bool,
    seen: Option<SourceSpan>,
) -> Out<
    Option<SourceSpan>,
>
    decreases rem(st), 0int,
{
    if !at_qualifier(st) && !at_kw(st, Keyword::Static) {
        done(st, seen)
    } else if !in_param {
        wrong(st, here(st), Message::ArrayQualifiers)
    } else if at_kw(st, Keyword::Static) && seen is Some {
        wrong(st, here(st), Message::DuplicateStatic)
    } else {
        array_qualifiers(
            adv(st),
            in_param,
            if at_kw(st, Keyword::Static) {
                Some(here(st))
            } else {
                seen
            },
        )
    }
}

/// ```bnf
/// <array-dimensions> ::= ("[" <array-qualifier>* <constexpr>? "]")*
/// <array-qualifier> ::= "static" | "const" | "volatile" | "restrict"
/// ```
pub open spec fn array_dimensions(st: ParserState, ty: Type, in_param: bool) -> Out<Type>
    decreases rem(st), 5int,
{
    array_dimensions_rule(st, ty, in_param)
}

pub open spec fn array_dimensions_rule(st: ParserState, ty: Type, in_param: bool) -> Out<Type>
    decreases rem(st), 4int,
{
    if !at(st, Punct::LBracket) {
        done(st, ty)
    } else {
        let span = here(st);
        let l = array_length(adv(st), in_param);
        if l.r is Err {
            l.fail()
        } else if rem(l.st) >= rem(st) {
            stuck(st)
        } else {
            let i = array_dimensions(l.st, ty, in_param);
            if i.r is Err {
                i.fail()
            } else if is_incomplete_ty(i.st.types, i.val()) {
                wrong(i.st, span, Message::ArrayElementIncomplete)
            } else if is_func_ty(i.st.types, i.val()) {
                wrong(i.st, span, Message::ArrayElementFunction)
            } else {
                new_array(i.st, i.val(), l.val(), span)
            }
        }
    }
}

/// ```bnf
/// <array-qualifier>* <constexpr>? "]"
/// ```
pub open spec fn array_length(st: ParserState, in_param: bool) -> Out<Option<usize>>
    decreases rem(st), 49int,
{
    array_length_rule(st, in_param)
}

pub open spec fn array_length_rule(st: ParserState, in_param: bool) -> Out<Option<usize>>
    decreases rem(st), 48int,
{
    let q = array_qualifiers(st, in_param, None);
    if q.r is Err {
        q.fail()
    } else if rem(q.st) > rem(st) {
        stuck(st)
    } else {
        let b = array_bound(q.st, q.val());
        if b.r is Err {
            b.fail()
        } else {
            let e = skip_punct(b.st, Punct::RBracket);
            if e.r is Err {
                e.fail()
            } else {
                done(e.st, b.val())
            }
        }
    }
}

/// ```bnf
/// <constexpr>?
/// ```
pub open spec fn array_bound(st: ParserState, static_span: Option<SourceSpan>) -> Out<Option<usize>>
    decreases rem(st), 47int,
{
    array_bound_rule(st, static_span)
}

pub open spec fn array_bound_rule(st: ParserState, static_span: Option<SourceSpan>) -> Out<
    Option<usize>,
>
    decreases rem(st), 46int,
{
    if at(st, Punct::RBracket) {
        match static_span {
            Some(span) => wrong(st, span, Message::StaticWithoutBound),
            None => done(st, None),
        }
    } else {
        let b = array_size_expr(st);
        if b.r is Err {
            b.fail()
        } else {
            done(b.st, Some(b.val()))
        }
    }
}

/// A constant expression that is a size.
pub open spec fn array_size_expr(st: ParserState) -> Out<usize>
    decreases rem(st), 45int,
{
    array_size_expr_rule(st)
}

pub open spec fn array_size_expr_rule(st: ParserState) -> Out<usize>
    decreases rem(st), 44int,
{
    let c = constexpr(st);
    if c.r is Err {
        c.fail()
    } else {
        match c.val().spec_to_usize() {
            None => wrong(c.st, here(c.st), Message::ArraySizeRange),
            Some(len) => done(c.st, len),
        }
    }
}

/// Whether a type is a struct (or union, if not `is_struct`).
pub open spec fn is_kind_of_tag(types: Types, ty: Type, is_struct: bool) -> bool {
    match lookup(types, ty) {
        Some(entry) => match entry.form {
            TypeForm::StructOrUnion { is_struct: s, .. } => s == is_struct,
            _ => false,
        },
        None => false,
    }
}

/// A use of a tag that gives no members.
pub open spec fn tag_use(
    st: ParserState,
    tag: Symbol,
    found: Option<Type>,
    is_struct: bool,
    span: SourceSpan,
) -> Out<Type> {
    match found {
        None => {
            let st1 = with_types(st, with_incomplete(st.types, is_struct));
            done(tagged(st1, tag, next_type(st.types)), next_type(st.types))
        },
        Some(ty) => if is_kind_of_tag(st.types, ty, is_struct) {
            done(st, ty)
        } else {
            wrong(st, span, Message::WrongKindOfTag)
        },
    }
}

pub open spec fn with_incomplete(types: Types, is_struct: bool) -> Types {
    with_type(types, TypeForm::StructOrUnion { is_struct, members: None }, 0, 1)
}

/// ```bnf
/// <struct-or-union-decl> ::= <ident> | <ident>? "{" <members-decl>
/// ```
pub open spec fn struct_decl(
    st: ParserState,
    is_struct: bool,
    context: DeclspecContext,
) -> Out<Type>
    decreases rem(st), 7int,
{
    struct_decl_rule(st, is_struct, context)
}

pub open spec fn struct_decl_rule(
    st: ParserState,
    is_struct: bool,
    context: DeclspecContext,
) -> Out<Type>
    decreases rem(st), 6int,
{
    let span = here(st);
    match ident_at(st) {
        Some(tag) => {
            let st1 = adv(st);
            if !at(st1, Punct::LBrace) {
                if at(st1, Punct::Semi) && (context == DeclspecContext::FileScopeDecl || context
                    == DeclspecContext::BlockScopeDecl) {
                    tag_use(st1, tag, tag_in(st1.scopes.last(), tag), is_struct, span)
                } else {
                    tag_use(st1, tag, visible_tag(st1.scopes, tag), is_struct, span)
                }
            } else {
                match tag_in(st1.scopes.last(), tag) {
                    None => {
                        let ty = next_type(st1.types);
                        let st2 = with_types(st1, with_incomplete(st1.types, is_struct));
                        struct_body(adv(tagged(st2, tag, ty)), is_struct, ty, span)
                    },
                    Some(ty) => if !is_kind_of_tag(st1.types, ty, is_struct) {
                        wrong(st1, span, Message::WrongKindOfTag)
                    } else if !is_incomplete_ty(st1.types, ty) {
                        wrong(st1, span, Message::RedefinitionOfTag(is_struct))
                    } else {
                        struct_body(adv(st1), is_struct, ty, span)
                    },
                }
            }
        },
        None => {
            let p = skip_punct(st, Punct::LBrace);
            if p.r is Err {
                p.fail()
            } else if rem(p.st) >= rem(st) {
                stuck(st)
            } else {
                let m = members_decl(
                    p.st,
                    is_struct,
                    MembersView { members: Seq::empty(), pending: None },
                );
                if m.r is Err {
                    m.fail()
                } else {
                    let ty = next_type(m.st.types);
                    let st1 = with_types(m.st, with_incomplete(m.st.types, is_struct));
                    complete_tag(st1, is_struct, m.val(), ty, span)
                }
            }
        },
    }
}

/// Give an incomplete type its members.
pub open spec fn complete_tag(
    st: ParserState,
    is_struct: bool,
    members: Seq<Member>,
    ty: Type,
    span: SourceSpan,
) -> Out<Type> {
    match completed(st.types, is_struct, members, ty) {
        Some(types) => done(with_types(st, types), ty),
        None => wrong(st, span, Message::TypeTooLarge),
    }
}

/// The members of a tagged type, which is known already so that members can
/// refer to it.
pub open spec fn struct_body(st: ParserState, is_struct: bool, ty: Type, span: SourceSpan) -> Out<
    Type,
>
    decreases rem(st), 19int,
{
    struct_body_rule(st, is_struct, ty, span)
}

pub open spec fn struct_body_rule(
    st: ParserState,
    is_struct: bool,
    ty: Type,
    span: SourceSpan,
) -> Out<
    Type,
>
    decreases rem(st), 18int,
{
    let m = members_decl(st, is_struct, MembersView { members: Seq::empty(), pending: None });
    if m.r is Err {
        m.fail()
    } else {
        complete_tag(m.st, is_struct, m.val(), ty, span)
    }
}

/// ```bnf
/// <members-decl> ::= <member-decl>* "}"
/// ```
pub open spec fn members_decl(st: ParserState, is_struct: bool, m: MembersView) -> Out<Seq<Member>>
    decreases rem(st), 17int,
{
    members_decl_rule(st, is_struct, m)
}

pub open spec fn members_decl_rule(
    st: ParserState,
    is_struct: bool,
    m: MembersView,
) -> Out<Seq<Member>>
    decreases rem(st), 16int,
{
    if at(st, Punct::RBrace) {
        match m.pending {
            Some(p) => if !p.is_flexible_array {
                wrong(adv(st), p.span, Message::FieldIncomplete)
            } else if !is_struct {
                wrong(adv(st), p.span, Message::FlexibleInUnion)
            } else if m.members.len() <= 1 {
                wrong(adv(st), p.span, Message::FlexibleAlone)
            } else {
                done(adv(st), m.members)
            },
            None => done(adv(st), m.members),
        }
    } else {
        let d = declspec(st, DeclspecContext::MemberDecl(is_struct));
        if d.r is Err {
            d.fail()
        } else if rem(d.st) >= rem(st) {
            stuck(st)
        } else {
            match m.pending {
                Some(p) => if !p.is_flexible_array {
                    wrong(d.st, p.span, Message::FieldIncomplete)
                } else if !is_struct {
                    wrong(d.st, p.span, Message::FlexibleInUnion)
                } else {
                    wrong(d.st, p.span, Message::FlexibleNotAtEnd)
                },
                None => if at(d.st, Punct::Semi) {
                    let st1 = adv(warned(d.st, here(d.st), Message::DeclaresNothing));
                    members_decl(st1, is_struct, m)
                } else if at(d.st, Punct::RBrace) {
                    wrong(d.st, here(d.st), Message::ExpectedSemi)
                } else {
                    let n = member_decl(d.st, d.val(), m);
                    if n.r is Err {
                        n.fail()
                    } else if rem(n.st) >= rem(st) {
                        stuck(st)
                    } else {
                        members_decl(n.st, is_struct, n.val())
                    }
                },
            }
        }
    }
}

/// ```bnf
/// <member-decl> ::= <declspec> <declarator> ("," <declarator>)* ";"
/// ```
///
/// The declaration specifiers have been taken.
pub open spec fn member_decl(st: ParserState, ds: Declspec, m: MembersView) -> Out<MembersView>
    decreases rem(st), 15int,
{
    member_decl_rule(st, ds, m)
}

pub open spec fn member_decl_rule(st: ParserState, ds: Declspec, m: MembersView) -> Out<MembersView>
    decreases rem(st), 14int,
{
    let d = declarator(st, ds.ty, false);
    if d.r is Err {
        d.fail()
    } else {
        let dv = d.val();
        let pending = if is_incomplete_ty(d.st.types, dv.ty) {
            Some(
                PendingMember {
                    is_flexible_array: array_of(d.st.types, dv.ty) is Some,
                    span: dv.span,
                },
            )
        } else {
            m.pending
        };
        match dv.name {
            None => wrong(d.st, dv.span, Message::MissingMemberName),
            Some(name) => {
                let member = Member {
                    name,
                    ty: dv.ty,
                    align: ds.align,
                    offset: 0,
                    bit_field: None,
                };
                let m1 = MembersView { members: m.members.push(member), pending };
                if at(d.st, Punct::Comma) {
                    if rem(adv(d.st)) >= rem(st) {
                        stuck(st)
                    } else {
                        member_decl(adv(d.st), ds, m1)
                    }
                } else if at(d.st, Punct::Semi) {
                    done(adv(d.st), m1)
                } else if at(d.st, Punct::RBrace) {
                    wrong(d.st, here(d.st), Message::ExpectedSemi)
                } else {
                    wrong(d.st, here(d.st), Message::ExpectedCommaOrSemi)
                }
            },
        }
    }
}

/// ```bnf
/// <enum-specifier> ::= <ident>? "{" <enum-list>? "}" | <ident>
/// ```
pub open spec fn enum_specifier(st: ParserState) -> Out<Type>
    decreases rem(st), 7int,
{
    enum_specifier_rule(st)
}

pub open spec fn enum_specifier_rule(st: ParserState) -> Out<Type>
    decreases rem(st), 6int,
{
    let span = here(st);
    let tag = ident_at(st);
    let st1 = if tag is Some {
        adv(st)
    } else {
        st
    };
    if tag is Some && !at(st1, Punct::LBrace) {
        match visible_tag(st1.scopes, tag.unwrap()) {
            None => wrong(st1, span, Message::UnknownEnum),
            Some(ty) => if ty != Type::Enum {
                wrong(st1, span, Message::NotAnEnumTag)
            } else {
                done(st1, ty)
            },
        }
    } else if tag is Some && tag_in(st1.scopes.last(), tag.unwrap()) is Some {
        if tag_in(st1.scopes.last(), tag.unwrap()) == Some(Type::Enum) {
            wrong(st1, span, Message::RedeclarationOfEnumTag)
        } else {
            wrong(st1, span, Message::WrongKindOfTag)
        }
    } else {
        let p = skip_punct(st1, Punct::LBrace);
        if p.r is Err {
            p.fail()
        } else if rem(p.st) >= rem(st) {
            stuck(st)
        } else {
            let zero = ConstValue::spec_int(0, ConstType::Arith(ArithType::Int));
            let l = enum_list(p.st, true, zero);
            if l.r is Err {
                l.fail()
            } else {
                match tag {
                    Some(tag) => done(tagged(l.st, tag, Type::Enum), Type::Enum),
                    None => done(l.st, Type::Enum),
                }
            }
        }
    }
}

/// The value that the enumerator after one is due.
#[verifier::opaque]
pub open spec fn next_enumerator(val: ConstValue, floats: Seq<FloatAnswer>) -> Result<
    ConstValue,
    FloatQuery,
> {
    val.spec_add(ConstValue::spec_int(1, val.ty), val.ty, floats)
}

/// ```bnf
/// <enum-list> ::=
///   <ident> ("=" <constexpr>)? ("," <ident> ("=" <constexpr>)?)* ","?
/// ```
pub open spec fn enum_list(st: ParserState, first: bool, val: ConstValue) -> Out<()>
    decreases rem(st), 5int,
{
    enum_list_rule(st, first, val)
}

pub open spec fn enum_list_rule(st: ParserState, first: bool, val: ConstValue) -> Out<()>
    decreases rem(st), 4int,
{
    if at_list_end(st) {
        done(past_list_end(st), ())
    } else {
        let c = if first {
            done(st, ())
        } else {
            skip_punct(st, Punct::Comma)
        };
        if c.r is Err {
            c.fail()
        } else if rem(c.st) > rem(st) {
            stuck(st)
        } else {
            match ident_at(c.st) {
                None => wrong(c.st, here(c.st), Message::ExpectedIdent),
                Some(name) => {
                    let v = enum_value(adv(c.st), val);
                    if v.r is Err {
                        v.fail()
                    } else {
                        match ident_in(v.st.scopes.last(), name) {
                            Some(OrdinaryIdent::Enumerator(_)) => wrong(
                                v.st,
                                here(c.st),
                                Message::RedeclarationOfEnumerator,
                            ),
                            Some(_) => wrong(v.st, here(c.st), Message::DifferentKindOfSymbol),
                            None => {
                                let st1 = bound(v.st, name, OrdinaryIdent::Enumerator(v.val()));
                                let n = floated(st1, next_enumerator(v.val(), st1.input.floats));
                                if n.r is Err {
                                    n.fail()
                                } else if rem(st1) >= rem(st) {
                                    stuck(st)
                                } else {
                                    enum_list(st1, false, n.val())
                                }
                            },
                        }
                    }
                },
            }
        }
    }
}

/// The value of an enumerator: as given behind "=", else the one it is due.
pub open spec fn enum_value(st: ParserState, val: ConstValue) -> Out<ConstValue>
    decreases rem(st), 3int,
{
    enum_value_rule(st, val)
}

pub open spec fn enum_value_rule(st: ParserState, val: ConstValue) -> Out<ConstValue>
    decreases rem(st), 2int,
{
    if at(st, Punct::Assign) {
        constexpr(adv(st))
    } else {
        done(st, val)
    }
}

/// A constant expression that stands by itself.
#[verifier::opaque]
pub open spec fn lone_constexpr(st: ParserState) -> Out<ConstValue> {
    constexpr(st)
}

/// ```bnf
/// <constexpr> ::= <conditional>
/// ```
pub open spec fn constexpr(st: ParserState) -> Out<ConstValue>
    decreases rem(st), 43int,
{
    constexpr_rule(st)
}

pub open spec fn constexpr_rule(st: ParserState) -> Out<ConstValue>
    decreases rem(st), 42int,
{
    let o = conditional(st);
    if o.r is Err {
        o.fail()
    } else {
        let v = eval(o.st, o.val());
        if v.r is Err {
            v.fail()
        } else if st.input.preprocess && cur(v.st) != TokenKind::Eof {
            wrong(v.st, here(v.st), Message::ExtraneousTokens)
        } else {
            v
        }
    }
}

/// ```bnf
/// <expr> ::= <assign> ("," <expr>)?
/// ```
pub open spec fn expr(st: ParserState) -> Out<Node>
    decreases rem(st), 41int,
{
    expr_rule(st)
}

pub open spec fn expr_rule(st: ParserState) -> Out<Node>
    decreases rem(st), 40int,
{
    let o = assign(st);
    if o.r is Err {
        o.fail()
    } else if at(o.st, Punct::Comma) {
        if rem(adv(o.st)) >= rem(st) {
            stuck(st)
        } else {
            let r = expr(adv(o.st));
            if r.r is Err {
                r.fail()
            } else {
                done(r.st, comma_node(o.val(), r.val(), here(o.st)))
            }
        }
    } else {
        o
    }
}

/// The operator of a compound assignment.
pub open spec fn assign_op(kind: TokenKind) -> Option<BinaryOp> {
    match kind {
        TokenKind::Punct(Punct::PlusEq) => Some(BinaryOp::Add),
        TokenKind::Punct(Punct::MinusEq) => Some(BinaryOp::Sub),
        TokenKind::Punct(Punct::StarEq) => Some(BinaryOp::Mul),
        TokenKind::Punct(Punct::SlashEq) => Some(BinaryOp::Div),
        TokenKind::Punct(Punct::PercentEq) => Some(BinaryOp::Mod),
        TokenKind::Punct(Punct::AmpEq) => Some(BinaryOp::BitAnd),
        TokenKind::Punct(Punct::PipeEq) => Some(BinaryOp::BitOr),
        TokenKind::Punct(Punct::CaretEq) => Some(BinaryOp::BitXor),
        TokenKind::Punct(Punct::ShlEq) => Some(BinaryOp::BitLeftShift),
        TokenKind::Punct(Punct::ShrEq) => Some(BinaryOp::BitRightShift),
        _ => None,
    }
}

/// A binary operation on two operands; sums scale pointers.
pub open spec fn operation(
    st: ParserState,
    op: BinaryOp,
    lhs: Node,
    rhs: Node,
    span: SourceSpan,
) -> Out<
    Node,
> {
    match op {
        BinaryOp::Add => new_add(st, lhs, rhs, span),
        BinaryOp::Sub => new_sub(st, lhs, rhs, span),
        _ => done(st, binary_node(op, lhs, rhs, span)),
    }
}

/// ```bnf
/// <assign> ::= <conditional> (<assign-op> <assign>)?
/// <assign-op> ::=
///   "=" | "+=" | "-=" | "*=" | "/=" | "%=" | "&=" | "|=" | "^=" | "<<=" | ">>="
/// ```
pub open spec fn assign(st: ParserState) -> Out<Node>
    decreases rem(st), 39int,
{
    assign_rule(st)
}

pub open spec fn assign_rule(st: ParserState) -> Out<Node>
    decreases rem(st), 38int,
{
    let o = conditional(st);
    if o.r is Err {
        o.fail()
    } else {
        let span = here(o.st);
        if at(o.st, Punct::Assign) || assign_op(cur(o.st)) is Some {
            if rem(adv(o.st)) >= rem(st) {
                stuck(st)
            } else {
                let r = assign(adv(o.st));
                if r.r is Err {
                    r.fail()
                } else if at(o.st, Punct::Assign) {
                    done(r.st, assign_node(o.val(), r.val(), span))
                } else {
                    let op = assign_op(cur(o.st)).unwrap();
                    let b = operation(r.st, op, o.val(), r.val(), span);
                    if b.r is Err {
                        b.fail()
                    } else {
                        new_compound_assign(b.st, b.val(), span)
                    }
                }
            }
        } else {
            o
        }
    }
}

/// ```bnf
/// <conditional> ::= <or> ("?" <expr> ":" <conditional>)?
/// ```
pub open spec fn conditional(st: ParserState) -> Out<Node>
    decreases rem(st), 37int,
{
    conditional_rule(st)
}

pub open spec fn conditional_rule(st: ParserState) -> Out<Node>
    decreases rem(st), 36int,
{
    let o = or_expr(st);
    if o.r is Err {
        o.fail()
    } else if !at(o.st, Punct::Question) {
        o
    } else if rem(adv(o.st)) >= rem(st) {
        stuck(st)
    } else {
        let t = expr(adv(o.st));
        if t.r is Err {
            t.fail()
        } else {
            let c = skip_punct(t.st, Punct::Colon);
            if c.r is Err {
                c.fail()
            } else if rem(c.st) >= rem(st) {
                stuck(st)
            } else {
                let e = conditional(c.st);
                if e.r is Err {
                    e.fail()
                } else {
                    done(
                        e.st,
                        Node {
                            kind: NodeKind::Conditional {
                                cond: Box::new(o.val()),
                                then_expr: Box::new(t.val()),
                                else_expr: Box::new(e.val()),
                            },
                            span: here(o.st),
                            ty: None,
                        },
                    )
                }
            }
        }
    }
}

/// ```bnf
/// <or> ::= <and> ("||" <and>)*
/// ```
pub open spec fn or_expr(st: ParserState) -> Out<Node>
    decreases rem(st), 35int,
{
    or_expr_rule(st)
}

pub open spec fn or_expr_rule(st: ParserState) -> Out<Node>
    decreases rem(st), 34int,
{
    let o = and_expr(st);
    if o.r is Err {
        o.fail()
    } else if rem(o.st) >= rem(st) {
        stuck(st)
    } else {
        or_tail(o.st, o.val())
    }
}

pub open spec fn or_tail(st: ParserState, node: Node) -> Out<Node>
    decreases rem(st), 35int,
{
    or_tail_rule(st, node)
}

pub open spec fn or_tail_rule(st: ParserState, node: Node) -> Out<Node>
    decreases rem(st), 34int,
{
    if !at(st, Punct::OrOr) {
        done(st, node)
    } else {
        let r = and_expr(adv(st));
        if r.r is Err {
            r.fail()
        } else if rem(r.st) >= rem(st) {
            stuck(st)
        } else {
            or_tail(
                r.st,
                Node {
                    kind: NodeKind::LogicalOr { lhs: Box::new(node), rhs: Box::new(r.val()) },
                    span: here(st),
                    ty: None,
                },
            )
        }
    }
}

/// ```bnf
/// <and> ::= <bit-or> ("&&" <bit-or>)*
/// ```
pub open spec fn and_expr(st: ParserState) -> Out<Node>
    decreases rem(st), 33int,
{
    and_expr_rule(st)
}

pub open spec fn and_expr_rule(st: ParserState) -> Out<Node>
    decreases rem(st), 32int,
{
    let o = binary(st, 15);
    if o.r is Err {
        o.fail()
    } else if rem(o.st) >= rem(st) {
        stuck(st)
    } else {
        and_tail(o.st, o.val())
    }
}

pub open spec fn and_tail(st: ParserState, node: Node) -> Out<Node>
    decreases rem(st), 33int,
{
    and_tail_rule(st, node)
}

pub open spec fn and_tail_rule(st: ParserState, node: Node) -> Out<Node>
    decreases rem(st), 32int,
{
    if !at(st, Punct::AndAnd) {
        done(st, node)
    } else {
        let r = binary(adv(st), 15);
        if r.r is Err {
            r.fail()
        } else if rem(r.st) >= rem(st) {
            stuck(st)
        } else {
            and_tail(
                r.st,
                Node {
                    kind: NodeKind::LogicalAnd { lhs: Box::new(node), rhs: Box::new(r.val()) },
                    span: here(st),
                    ty: None,
                },
            )
        }
    }
}

/// The binary operator that a token is at a level of precedence, and whether
/// its operands are swapped.
pub open spec fn binary_op(kind: TokenKind, level: u8) -> Option<(BinaryOp, bool)> {
    match (level, kind) {
        (15, TokenKind::Punct(Punct::Pipe)) => Some((BinaryOp::BitOr, false)),
        (14, TokenKind::Punct(Punct::Caret)) => Some((BinaryOp::BitXor, false)),
        (13, TokenKind::Punct(Punct::Amp)) => Some((BinaryOp::BitAnd, false)),
        (12, TokenKind::Punct(Punct::EqEq)) => Some((BinaryOp::Eq, false)),
        (12, TokenKind::Punct(Punct::Ne)) => Some((BinaryOp::Ne, false)),
        (11, TokenKind::Punct(Punct::Lt)) => Some((BinaryOp::Lt, false)),
        (11, TokenKind::Punct(Punct::Le)) => Some((BinaryOp::Le, false)),
        (11, TokenKind::Punct(Punct::Gt)) => Some((BinaryOp::Lt, true)),
        (11, TokenKind::Punct(Punct::Ge)) => Some((BinaryOp::Le, true)),
        (10, TokenKind::Punct(Punct::Shl)) => Some((BinaryOp::BitLeftShift, false)),
        (10, TokenKind::Punct(Punct::Shr)) => Some((BinaryOp::BitRightShift, false)),
        (9, TokenKind::Punct(Punct::Plus)) => Some((BinaryOp::Add, false)),
        (9, TokenKind::Punct(Punct::Minus)) => Some((BinaryOp::Sub, false)),
        (8, TokenKind::Punct(Punct::Star)) => Some((BinaryOp::Mul, false)),
        (8, TokenKind::Punct(Punct::Slash)) => Some((BinaryOp::Div, false)),
        (8, TokenKind::Punct(Punct::Percent)) => Some((BinaryOp::Mod, false)),
        _ => None,
    }
}

/// ```bnf
/// <bit-or> ::= <bit-xor> ("|" <bit-xor>)*
/// <bit-xor> ::= <bit-and> ("^" <bit-and>)*
/// <bit-and> ::= <equality> ("&" <equality>)*
/// <equality> ::= <relational> ("==" <relational> | "!=" <relational>)*
/// <relational> ::=
///   <shift> ("<" <shift> | "<=" <shift> | ">" <shift> | ">=" <shift>)*
/// <shift> ::= <add> ("<<" <add> | ">>" <add>)*
/// <add> ::= <mul> ("+" <mul> | "-" <mul>)*
/// <mul> ::= <cast> (("*" | "/" | "%") <cast>)*
/// ```
///
/// The levels of precedence, from 15 down to 8, are those of [`binary_op`].
pub open spec fn binary(st: ParserState, level: u8) -> Out<Node>
    decreases rem(st), 2 * (level as int) + 1,
{
    binary_rule(st, level)
}

pub open spec fn binary_rule(st: ParserState, level: u8) -> Out<Node>
    decreases rem(st), 2 * (level as int),
{
    let o = if level > 8 {
        binary(st, (level - 1) as u8)
    } else if level == 8 {
        cast(st)
    } else {
        stuck(st)
    };
    if o.r is Err {
        o.fail()
    } else if rem(o.st) >= rem(st) {
        stuck(st)
    } else {
        binary_tail(o.st, o.val(), level)
    }
}

pub open spec fn binary_tail(st: ParserState, node: Node, level: u8) -> Out<Node>
    decreases rem(st), 2 * (level as int) + 1,
{
    binary_tail_rule(st, node, level)
}

pub open spec fn binary_tail_rule(st: ParserState, node: Node, level: u8) -> Out<Node>
    decreases rem(st), 2 * (level as int),
{
    match binary_op(cur(st), level) {
        None => done(st, node),
        Some((op, swapped)) => {
            let r = if level > 8 {
                binary(adv(st), (level - 1) as u8)
            } else if level == 8 {
                cast(adv(st))
            } else {
                stuck(st)
            };
            if r.r is Err {
                r.fail()
            } else {
                let (lhs, rhs) = if swapped {
                    (r.val(), node)
                } else {
                    (node, r.val())
                };
                let b = operation(r.st, op, lhs, rhs, here(st));
                if b.r is Err {
                    b.fail()
                } else if rem(b.st) >= rem(st) {
                    stuck(st)
                } else {
                    binary_tail(b.st, b.val(), level)
                }
            }
        },
    }
}

/// ```bnf
/// <cast> ::= "(" <typename> ")" <cast> | <unary>
/// ```
pub open spec fn cast(st: ParserState) -> Out<Node>
    decreases rem(st), 15int,
{
    cast_rule(st)
}

pub open spec fn cast_rule(st: ParserState) -> Out<Node>
    decreases rem(st), 14int,
{
    if !st.input.preprocess && at(st, Punct::LParen) && at_typename(adv(st)) {
        let t = typename(adv(st));
        if t.r is Err {
            t.fail()
        } else {
            let e = skip_punct(t.st, Punct::RParen);
            if e.r is Err {
                e.fail()
            } else if at(e.st, Punct::LBrace) {
                // A compound literal, which starts in the same way
                let st1 = at_pos(e.st, st.pos);
                if rem(st1) > rem(st) {
                    stuck(st)
                } else {
                    unary(st1)
                }
            } else if rem(e.st) >= rem(st) {
                stuck(st)
            } else {
                let c = cast(e.st);
                if c.r is Err {
                    c.fail()
                } else {
                    let i = infer(c.st, c.val());
                    if i.r is Err {
                        i.fail()
                    } else {
                        done(
                            i.st,
                            Node {
                                kind: NodeKind::Cast(Box::new(i.val())),
                                span: here(st),
                                ty: Some(t.val()),
                            },
                        )
                    }
                }
            }
        }
    } else {
        unary(st)
    }
}

/// ```bnf
/// <unary> ::=
///   ("+" | "-" | "&" | "*" | "!" | "~") <cast>
///   | ("++" | "--") <unary>
///   | <postfix>
/// ```
pub open spec fn unary(st: ParserState) -> Out<Node>
    decreases rem(st), 13int,
{
    unary_rule(st)
}

pub open spec fn unary_rule(st: ParserState) -> Out<Node>
    decreases rem(st), 12int,
{
    let span = here(st);
    if at(st, Punct::Plus) {
        cast(adv(st))
    } else if at(st, Punct::Minus) || at(st, Punct::Not) || at(st, Punct::Tilde) || (!st.input.preprocess
        && (at(st, Punct::Amp) || at(st, Punct::Star))) {
        let o = cast(adv(st));
        if o.r is Err {
            o.fail()
        } else {
            done(
                o.st,
                Node {
                    kind: match cur(st) {
                        TokenKind::Punct(Punct::Minus) => NodeKind::Neg(Box::new(o.val())),
                        TokenKind::Punct(Punct::Not) => NodeKind::Not(Box::new(o.val())),
                        TokenKind::Punct(Punct::Tilde) => NodeKind::BitNot(Box::new(o.val())),
                        TokenKind::Punct(Punct::Amp) => NodeKind::Addr(Box::new(o.val())),
                        _ => NodeKind::Deref(Box::new(o.val())),
                    },
                    span,
                    ty: None,
                },
            )
        }
    } else if !st.input.preprocess && (at(st, Punct::PlusPlus) || at(st, Punct::MinusMinus)) {
        let o = unary(adv(st));
        if o.r is Err {
            o.fail()
        } else {
            let one = num_node(1, Type::Arith(ArithType::Int), span);
            let b = if at(st, Punct::PlusPlus) {
                new_add(o.st, o.val(), one, span)
            } else {
                new_sub(o.st, o.val(), one, span)
            };
            if b.r is Err {
                b.fail()
            } else {
                new_compound_assign(b.st, b.val(), span)
            }
        }
    } else if st.input.preprocess {
        primary(st)
    } else {
        postfix(st)
    }
}

/// ```bnf
/// <postfix> ::=
///   "(" <typename> ")" "{" <initializer> "}" | <primary> <postfix-tail>*
/// ```
pub open spec fn postfix(st: ParserState) -> Out<Node>
    decreases rem(st), 11int,
{
    postfix_rule(st)
}

pub open spec fn postfix_rule(st: ParserState) -> Out<Node>
    decreases rem(st), 10int,
{
    if at(st, Punct::LParen) && at_typename(adv(st)) {
        let b = at_compound_literal(st);
        if b.r is Err {
            b.fail()
        } else if b.st.pos != st.pos || rem(b.st) > rem(st) {
            stuck(st)
        } else if b.val() {
            compound_literal(b.st)
        } else {
            primary_postfix(b.st)
        }
    } else {
        primary_postfix(st)
    }
}

/// Whether a parenthesized typename is followed by "{", taking nothing.
pub open spec fn at_compound_literal(st: ParserState) -> Out<bool>
    decreases rem(st), 5int,
{
    at_compound_literal_rule(st)
}

pub open spec fn at_compound_literal_rule(st: ParserState) -> Out<bool>
    decreases rem(st), 4int,
{
    let st1 = adv(speculation(st));
    if rem(st1) >= rem(st) {
        stuck(st)
    } else {
        let t = typename(st1);
        if t.r is Err {
            Out { st: rolled_back(st, t.st), r: Err(t.r->Err_0) }
        } else {
            let e = skip_punct(t.st, Punct::RParen);
            if e.r is Err {
                Out { st: rolled_back(st, e.st), r: Err(e.r->Err_0) }
            } else {
                done(rolled_back(st, e.st), at(e.st, Punct::LBrace))
            }
        }
    }
}

/// ```bnf
/// "(" <typename> ")" "{" <initializer> "}"
/// ```
pub open spec fn compound_literal(st: ParserState) -> Out<Node>
    decreases rem(st), 9int,
{
    compound_literal_rule(st)
}

pub open spec fn compound_literal_rule(st: ParserState) -> Out<Node>
    decreases rem(st), 8int,
{
    if rem(adv(st)) >= rem(st) {
        stuck(st)
    } else {
        let t = typename(adv(st));
        if t.r is Err {
            t.fail()
        } else {
            let e = skip_punct(t.st, Punct::RParen);
            if e.r is Err {
                e.fail()
            } else if rem(e.st) >= rem(st) {
                stuck(st)
            } else {
                let i = initializer(e.st, t.val(), e.st.types.len());
                if i.r is Err {
                    i.fail()
                } else {
                    new_compound_literal(i.st, i.val(), here(st))
                }
            }
        }
    }
}

pub open spec fn primary_postfix(st: ParserState) -> Out<Node>
    decreases rem(st), 9int,
{
    primary_postfix_rule(st)
}

pub open spec fn primary_postfix_rule(st: ParserState) -> Out<Node>
    decreases rem(st), 8int,
{
    let o = primary(st);
    if o.r is Err {
        o.fail()
    } else if rem(o.st) >= rem(st) {
        stuck(st)
    } else {
        postfix_tail(o.st, o.val())
    }
}

/// ```bnf
/// <postfix-tail> ::=
///   "[" <expr> "]"
///   | <func-call>
///   | ("." | "->") <ident>
///   | "++"
///   | "--"
/// ```
pub open spec fn postfix_tail(st: ParserState, node: Node) -> Out<Node>
    decreases rem(st), 11int,
{
    postfix_tail_rule(st, node)
}

pub open spec fn postfix_tail_rule(st: ParserState, node: Node) -> Out<Node>
    decreases rem(st), 10int,
{
    if !at_postfix(st) {
        done(st, node)
    } else {
        let o = postfix_step(st, node);
        if o.r is Err {
            o
        } else if rem(o.st) >= rem(st) {
            stuck(st)
        } else {
            postfix_tail(o.st, o.val())
        }
    }
}

/// Whether a postfix operator is here.
pub open spec fn at_postfix(st: ParserState) -> bool {
    at(st, Punct::LParen) || at(st, Punct::LBracket) || at(st, Punct::Dot) || at(st, Punct::Arrow)
        || at(st, Punct::PlusPlus) || at(st, Punct::MinusMinus)
}

/// One postfix operator.
pub open spec fn postfix_step(st: ParserState, node: Node) -> Out<Node>
    decreases rem(st), 9int,
{
    postfix_step_rule(st, node)
}

pub open spec fn postfix_step_rule(st: ParserState, node: Node) -> Out<Node>
    decreases rem(st), 8int,
{
    let span = here(st);
    if at(st, Punct::LParen) {
        func_call(st, node)
    } else if at(st, Punct::LBracket) {
        let i = expr(adv(st));
        if i.r is Err {
            i
        } else {
            let e = skip_punct(i.st, Punct::RBracket);
            if e.r is Err {
                e.fail()
            } else {
                // Canonicalize a[b] to *(a + b)
                let s = new_add(e.st, node, i.val(), span);
                if s.r is Err {
                    s
                } else {
                    done(s.st, deref_node(s.val(), span))
                }
            }
        }
    } else if at(st, Punct::Dot) || at(st, Punct::Arrow) {
        // Canonicalize a->b to (*a).b
        let parent = if at(st, Punct::Dot) {
            node
        } else {
            deref_node(node, span)
        };
        let m = new_member_access(adv(st), parent);
        if m.r is Err {
            m
        } else {
            done(adv(m.st), m.val())
        }
    } else {
        new_post_inc_dec(adv(st), node, at(st, Punct::PlusPlus), span)
    }
}

/// The type and the amount of a "sizeof" or "_Alignof".
pub open spec fn measured(st: ParserState, is_sizeof: bool, ty: Type) -> u64 {
    if is_sizeof {
        size_of(st.types, ty)
    } else {
        align_of(st.types, ty)
    }
}

/// ```bnf
/// ("sizeof" | "_Alignof") ("(" <typename> ")" | <unary>)
/// ```
///
/// The keyword, which stands at `span`, has been taken.
pub open spec fn measure(st: ParserState, is_sizeof: bool, span: SourceSpan) -> Out<Node>
    decreases rem(st), 17int,
{
    measure_rule(st, is_sizeof, span)
}

pub open spec fn measure_rule(st: ParserState, is_sizeof: bool, span: SourceSpan) -> Out<Node>
    decreases rem(st), 16int,
{
    if at(st, Punct::LParen) && at_typename(adv(st)) {
        let span = here(adv(st));
        let t = typename(adv(st));
        if t.r is Err {
            t.fail()
        } else {
            let e = skip_punct(t.st, Punct::RParen);
            if e.r is Err {
                e.fail()
            } else if is_incomplete_ty(e.st.types, t.val()) {
                wrong(
                    e.st,
                    span,
                    if is_sizeof {
                        Message::SizeofIncomplete
                    } else {
                        Message::AlignofIncomplete
                    },
                )
            } else {
                done(
                    e.st,
                    num_node(
                        measured(e.st, is_sizeof, t.val()),
                        Type::Arith(ArithType::ULong),
                        span,
                    ),
                )
            }
        }
    } else {
        let o = unary(st);
        if o.r is Err {
            o.fail()
        } else {
            let i = infer(o.st, o.val());
            if i.r is Err {
                i.fail()
            } else {
                done(
                    i.st,
                    num_node(
                        measured(i.st, is_sizeof, node_ty(i.val())),
                        Type::Arith(ArithType::ULong),
                        span,
                    ),
                )
            }
        }
    }
}

/// The expression that an identifier stands for.
#[verifier::opaque]
pub open spec fn named(st: ParserState, name: Symbol, span: SourceSpan) -> Out<Node> {
    match visible_ident(st.scopes, name) {
        Some(OrdinaryIdent::Local(id)) => done(st, entity_node(EntityRef::Local(id), span)),
        Some(OrdinaryIdent::Global(id, _)) => done(st, entity_node(EntityRef::Global(id), span)),
        Some(OrdinaryIdent::Function(id)) => done(
            st,
            entity_node(EntityRef::Function(id), span),
        ),
        Some(OrdinaryIdent::Enumerator(val)) => {
            let b = floated(st, val.storage_bits(st.input.floats));
            if b.r is Err {
                b.fail()
            } else {
                done(st, num_node(b.val(), crate::types::const_to_type(val.ty), span))
            }
        },
        _ => if at(st, Punct::LParen) {
            wrong(st, span, Message::ImplicitFunction)
        } else {
            wrong(st, span, Message::UndefinedIdent)
        },
    }
}

/// The elements of a string literal.
pub open spec fn string_of(st: ParserState, id: usize) -> Seq<u32> {
    if id < st.input.strings.len() {
        st.input.strings[id as int]
    } else {
        Seq::empty()
    }
}

/// Elements of the given size as bytes, low byte first.
pub open spec fn string_bytes(elements: Seq<u32>, size: u64) -> Seq<u8>
    decreases elements.len(),
{
    if elements.len() == 0 {
        Seq::empty()
    } else {
        string_bytes(elements.drop_last(), size) + crate::parse::construct::put_bits(
            crate::parse::construct::zeroed(size as nat),
            0,
            size as nat,
            elements.last() as u64,
        )
    }
}

/// The hidden global that a string literal stands for.
#[verifier::opaque]
pub open spec fn string_literal(st: ParserState, id: usize, ty: Type) -> Out<Node> {
    let span = here(st);
    if st.input.preprocess {
        wrong(st, span, Message::StringInPreprocessor)
    } else {
        let content = string_of(st, id);
        let a = new_array(st, ty, Some(content.len() as usize), span);
        if a.r is Err {
            a.fail()
        } else {
            let l = fresh_label(a.st);
            if l.r is Err {
                l.fail()
            } else {
                let global = GlobalView {
                    name: Name::Unique(l.val()),
                    ty: a.val(),
                    align: None,
                    storage: StorageView::Data {
                        bytes: string_bytes(content, size_of(l.st.types, ty)),
                        relocations: Seq::empty(),
                    },
                    is_static: true,
                };
                done(
                    adv(with_global(l.st, global)),
                    entity_node(EntityRef::Global(l.st.globals.len() as usize), span),
                )
            }
        }
    }
}

/// ```bnf
/// <primary> ::=
///   "(" "{" <compound-stmt> ")"
///   | "(" <expr> ")"
///   | "sizeof" ("(" <typename> ")" | <unary>)
///   | "_Alignof" ("(" <typename> ")" | <unary>)
///   | <ident>
///   | <str>
///   | <num>
///   | <flonum>
/// ```
pub open spec fn primary(st: ParserState) -> Out<Node>
    decreases rem(st), 7int,
{
    primary_rule(st)
}

pub open spec fn primary_rule(st: ParserState) -> Out<Node>
    decreases rem(st), 6int,
{
    let span = here(st);
    match cur(st) {
        TokenKind::Punct(Punct::LParen) => parenthesized(adv(st), span),
        TokenKind::Keyword(Keyword::Sizeof) => if st.input.preprocess {
            wrong(st, span, Message::ExpectedExpression)
        } else {
            measure(adv(st), true, span)
        },
        TokenKind::Keyword(Keyword::Alignof) => if st.input.preprocess {
            wrong(st, span, Message::ExpectedExpression)
        } else {
            measure(adv(st), false, span)
        },
        TokenKind::Ident(name) => named(adv(st), name, span),
        TokenKind::Str(id, ty) => string_literal(st, id, ty),
        TokenKind::Num(value, ty) => done(adv(st), num_node(value, ty, span)),
        TokenKind::Flonum(bits, ty) => if st.input.preprocess {
            wrong(st, span, Message::FloatInPreprocessor)
        } else {
            done(adv(st), Node { kind: NodeKind::Flonum(bits), span, ty: Some(ty) })
        },
        _ => wrong(st, span, Message::ExpectedExpression),
    }
}

/// What stands behind "(" in a primary expression.
pub open spec fn parenthesized(st: ParserState, span: SourceSpan) -> Out<Node>
    decreases rem(st), 43int,
{
    parenthesized_rule(st, span)
}

pub open spec fn parenthesized_rule(st: ParserState, span: SourceSpan) -> Out<Node>
    decreases rem(st), 42int,
{
    if at(st, Punct::LBrace) {
        if st.input.preprocess {
            wrong(st, here(st), Message::StmtExprInPreprocessor)
        } else {
            let b = compound_stmt(adv(st));
            if b.r is Err {
                b.fail()
            } else {
                let e = skip_punct(b.st, Punct::RParen);
                if e.r is Err {
                    e.fail()
                } else {
                    done(e.st, Node { kind: NodeKind::StmtExpr(b.val()), span, ty: None })
                }
            }
        }
    } else {
        let o = if st.input.preprocess {
            conditional(st)
        } else {
            expr(st)
        };
        if o.r is Err {
            o.fail()
        } else {
            let e = skip_punct(o.st, Punct::RParen);
            if e.r is Err {
                e.fail()
            } else {
                done(e.st, o.val())
            }
        }
    }
}

/// The type that an argument for no declared parameter is passed as.
pub open spec fn default_promoted(ty: Type) -> Type {
    if ty_is_flonum(ty) {
        Type::Arith(ArithType::Double)
    } else {
        match ty_promote(ty) {
            Some(ty) => ty,
            None => ty,
        }
    }
}

/// ```bnf
/// <func-call> ::= "(" (<assign> ("," <assign>)*)? ")"
/// ```
pub open spec fn func_call(st: ParserState, callee: Node) -> Out<Node>
    decreases rem(st), 7int,
{
    func_call_rule(st, callee)
}

pub open spec fn func_call_rule(st: ParserState, callee: Node) -> Out<Node>
    decreases rem(st), 6int,
{
    let span = here(st);
    let c = infer(adv(st), callee);
    if c.r is Err {
        c.fail()
    } else if rem(c.st) >= rem(st) {
        stuck(st)
    } else {
        match func_of(c.st.types, node_ty(c.val()), true) {
            Some(TypeForm::Func { return_ty, params, is_variadic }) => {
                let a = func_args(c.st, params, is_variadic, Seq::empty());
                if a.r is Err {
                    a.fail()
                } else {
                    done(
                        a.st,
                        Node {
                            kind: NodeKind::FuncCall {
                                callee: Box::new(c.val()),
                                args: node_list(a.val()),
                                ret_buf_local: None,
                            },
                            span,
                            ty: Some(return_ty),
                        },
                    )
                }
            },
            _ => wrong(c.st, span, Message::NotAFunction),
        }
    }
}

/// The arguments of a call up to ")", each cast to the type it is passed as.
pub open spec fn func_args(
    st: ParserState,
    params: Seq<Type>,
    is_variadic: bool,
    args: Seq<Node>,
) -> Out<Seq<Node>>
    decreases rem(st), 41int,
{
    func_args_rule(st, params, is_variadic, args)
}

pub open spec fn func_args_rule(
    st: ParserState,
    params: Seq<Type>,
    is_variadic: bool,
    args: Seq<Node>,
) -> Out<Seq<Node>>
    decreases rem(st), 40int,
{
    if at(st, Punct::RParen) {
        if args.len() < params.len() {
            wrong(st, here(st), Message::TooFewArguments)
        } else {
            done(adv(st), args)
        }
    } else {
        let c = if args.len() > 0 {
            skip_punct(st, Punct::Comma)
        } else {
            done(st, ())
        };
        if c.r is Err {
            c.fail()
        } else if rem(c.st) > rem(st) {
            stuck(st)
        } else {
            let a = assign(c.st);
            if a.r is Err {
                a.fail()
            } else {
                let i = infer(a.st, a.val());
                if i.r is Err {
                    i.fail()
                } else {
                    let arg = i.val();
                    if args.len() < params.len() && is_sou_ty(
                        i.st.types,
                        params[args.len() as int],
                    ) {
                        wrong(i.st, arg.span, Message::AggregateByValue)
                    } else if args.len() >= params.len() && !is_variadic {
                        wrong(i.st, arg.span, Message::TooManyArguments)
                    } else {
                        let ty = if args.len() < params.len() {
                            params[args.len() as int]
                        } else {
                            default_promoted(node_ty(arg))
                        };
                        if rem(i.st) >= rem(st) {
                            stuck(st)
                        } else {
                            func_args(i.st, params, is_variadic, args.push(cast_node(arg, ty)))
                        }
                    }
                }
            }
        }
    }
}

/// The string literal here, if its elements have the given type.
pub open spec fn string_at(st: ParserState, base: Type) -> Option<usize> {
    match cur(st) {
        TokenKind::Str(id, ty) => if ty == base {
            Some(id)
        } else {
            None
        },
        _ => None,
    }
}

/// The value that an element of a string literal initializes an object with.
pub open spec fn element_value(element: u32, base: Type) -> u64 {
    if base == Type::Arith(ArithType::Char) {
        crate::constexpr::signed_value(
            element as u64,
            ConstType::Arith(ArithType::Char),
        ) as i64 as u64
    } else {
        element as u64
    }
}

pub open spec fn element_init(element: u32, base: Type, span: SourceSpan) -> Initializer {
    Initializer::Expr(
        base,
        Box::new(num_node(element_value(element, base), Type::Arith(ArithType::Int), span)),
    )
}

/// ```bnf
/// <string-initializer> ::= <str>
/// ```
pub open spec fn string_initializer(st: ParserState, id: usize, array: ArrayTypeData) -> (
    ParserState,
    Seq<Initializer>,
) {
    let content = string_of(st, id);
    let len = match array.len {
        Some(len) => len as int,
        None => content.len() as int,
    };
    let st1 = if content.len() > len + 1 {
        warned(st, here(st), Message::StringTooLong)
    } else {
        st
    };
    let n = if content.len() < len {
        content.len()
    } else {
        len as nat
    };
    (adv(st1), Seq::new(n, |k: int| element_init(content[k], array.base, here(st))))
}

/// ```bnf
/// <initializer> ::=
///   <string-initializer>
///   | <array-initializer>
///   | <struct-initializer>
///   | <union-initializer>
///   | "{" <initializer> "}"
///   | <assign>
/// ```
///
/// Aggregates are nested at most `depth` deep.
pub open spec fn initializer(st: ParserState, ty: Type, depth: nat) -> Out<Initializer>
    decreases rem(st), 2 * (100 + 8 * depth + 6) + 1,
{
    initializer_rule(st, ty, depth)
}

pub open spec fn initializer_rule(st: ParserState, ty: Type, depth: nat) -> Out<Initializer>
    decreases rem(st), 2 * (100 + 8 * depth + 6),
{
    match array_of(st.types, ty) {
        Some(array) => {
            let e = array_elements(st, array, depth);
            if e.r is Err {
                e.fail()
            } else if array.len is None {
                // The length is inferred from the initializer
                let a = new_array(
                    e.st,
                    array.base,
                    Some(e.val().len() as usize),
                    here(st),
                );
                if a.r is Err {
                    a.fail()
                } else {
                    done(a.st, Initializer::Aggregate(a.val(), init_list(e.val())))
                }
            } else {
                done(e.st, Initializer::Aggregate(ty, init_list(e.val())))
            }
        },
        None => if is_sou_ty(st.types, ty) {
            aggregate_initializer(st, ty, depth)
        } else if at(st, Punct::LBrace) {
            let i = initializer(adv(st), ty, depth);
            if i.r is Err {
                i.fail()
            } else {
                let e = skip_punct(i.st, Punct::RBrace);
                if e.r is Err {
                    e.fail()
                } else {
                    done(e.st, i.val())
                }
            }
        } else {
            let a = assign(st);
            if a.r is Err {
                a.fail()
            } else {
                done(a.st, Initializer::Expr(ty, Box::new(a.val())))
            }
        },
    }
}

pub open spec fn array_elements(st: ParserState, array: ArrayTypeData, depth: nat) -> Out<
    Seq<Initializer>,
>
    decreases rem(st), 2 * (100 + 8 * depth + 5) + 1,
{
    array_elements_rule(st, array, depth)
}

pub open spec fn array_elements_rule(st: ParserState, array: ArrayTypeData, depth: nat) -> Out<
    Seq<Initializer>,
>
    decreases rem(st), 2 * (100 + 8 * depth + 5),
{
    match string_at(st, array.base) {
        Some(id) => {
            let (st1, inits) = string_initializer(st, id, array);
            done(st1, inits)
        },
        None => if at(st, Punct::LBrace) {
            array_initializer(adv(st), array, true, Seq::empty(), 0, depth)
        } else {
            array_initializer(st, array, false, Seq::empty(), 0, depth)
        },
    }
}

/// ```bnf
/// <array-initializer> ::=
///   "{" <initializer> ("," <initializer>)* ","? "}"
///   | <initializer> ("," <initializer>)*
/// ```
pub open spec fn array_initializer(
    st: ParserState,
    array: ArrayTypeData,
    braced: bool,
    elements: Seq<Initializer>,
    i: int,
    depth: nat,
) -> Out<Seq<Initializer>>
    decreases rem(st), 2 * (100 + 8 * depth + (if i == 0 { 1int } else { 0int })) + 1,
{
    array_initializer_rule(st, array, braced, elements, i, depth)
}

pub open spec fn array_initializer_rule(
    st: ParserState,
    array: ArrayTypeData,
    braced: bool,
    elements: Seq<Initializer>,
    i: int,
    depth: nat,
) -> Out<Seq<Initializer>>
    decreases rem(st), 2 * (100 + 8 * depth + (if i == 0 { 1int } else { 0int })),
{
    let has_space = match array.len {
        Some(len) => i < len,
        None => true,
    };
    if at_list_end(st) {
        done(
            if braced {
                past_list_end(st)
            } else {
                st
            },
            elements,
        )
    } else if !braced && !has_space {
        done(st, elements)
    } else if i < 0 || i >= usize::MAX || depth == 0 {
        Out { st, r: Err(Error::Overflow) }
    } else {
        let c = if i > 0 {
            skip_punct(st, Punct::Comma)
        } else {
            done(st, ())
        };
        if c.r is Err {
            c.fail()
        } else if rem(c.st) > rem(st) || (i > 0 && rem(c.st) >= rem(st)) {
            stuck(st)
        } else if has_space {
            let e = initializer(c.st, array.base, (depth - 1) as nat);
            if e.r is Err {
                e.fail()
            } else if rem(e.st) > rem(c.st) {
                stuck(st)
            } else {
                array_initializer(e.st, array, braced, elements.push(e.val()), i + 1, depth)
            }
        } else {
            let w = warned(c.st, here(c.st), Message::ExcessArrayElements);
            let s = skip_initializer(w);
            if s.r is Err {
                s.fail()
            } else if rem(s.st) > rem(c.st) {
                stuck(st)
            } else {
                array_initializer(s.st, array, braced, elements, i + 1, depth)
            }
        }
    }
}

/// An initializer for a struct or union: another value of exactly the same
/// type, or one for each member.
pub open spec fn aggregate_initializer(st: ParserState, ty: Type, depth: nat) -> Out<Initializer>
    decreases rem(st), 2 * (100 + 8 * depth + 5) + 1,
{
    aggregate_initializer_rule(st, ty, depth)
}

pub open spec fn aggregate_initializer_rule(
    st: ParserState,
    ty: Type,
    depth: nat,
) -> Out<Initializer>
    decreases rem(st), 2 * (100 + 8 * depth + 5),
{
    let c = if at(st, Punct::LBrace) {
        done(st, false)
    } else {
        at_copy_initializer(st, ty)
    };
    if c.r is Err {
        c.fail()
    } else if rem(c.st) > rem(st) {
        stuck(st)
    } else if c.val() {
        let a = assign(c.st);
        if a.r is Err {
            a.fail()
        } else {
            let i = infer(a.st, a.val());
            if i.r is Err {
                i.fail()
            } else {
                done(i.st, Initializer::Expr(ty, Box::new(i.val())))
            }
        }
    } else {
        let braced = at(c.st, Punct::LBrace);
        let st1 = if braced {
            adv(c.st)
        } else {
            c.st
        };
        let members = members_of(c.st.types, ty);
        let e = if is_kind_of_tag(c.st.types, ty, true) {
            struct_initializer(st1, members, braced, Seq::empty(), 0, depth)
        } else {
            union_initializer(st1, members, braced, depth)
        };
        if e.r is Err {
            e.fail()
        } else {
            done(e.st, Initializer::Aggregate(ty, init_list(e.val())))
        }
    }
}

/// Whether an expression of exactly the given type is here, taking nothing.
pub open spec fn at_copy_initializer(st: ParserState, ty: Type) -> Out<bool>
    decreases rem(st), 45int,
{
    at_copy_initializer_rule(st, ty)
}

pub open spec fn at_copy_initializer_rule(st: ParserState, ty: Type) -> Out<bool>
    decreases rem(st), 44int,
{
    let a = assign(speculation(st));
    if a.r is Err {
        Out { st: rolled_back(st, a.st), r: Err(a.r->Err_0) }
    } else {
        let i = infer(a.st, a.val());
        if i.r is Err {
            Out { st: rolled_back(st, i.st), r: Err(i.r->Err_0) }
        } else {
            done(rolled_back(st, i.st), node_ty(i.val()) == ty)
        }
    }
}

/// ```bnf
/// <struct-initializer> ::=
///   "{" <initializer> ("," <initializer>)* ","? "}"
///   | <initializer> ("," <initializer>)*
/// ```
pub open spec fn struct_initializer(
    st: ParserState,
    members: Seq<Member>,
    braced: bool,
    elements: Seq<Initializer>,
    i: int,
    depth: nat,
) -> Out<Seq<Initializer>>
    decreases rem(st), 2 * (100 + 8 * depth + (if i == 0 { 1int } else { 0int })) + 1,
{
    struct_initializer_rule(st, members, braced, elements, i, depth)
}

pub open spec fn struct_initializer_rule(
    st: ParserState,
    members: Seq<Member>,
    braced: bool,
    elements: Seq<Initializer>,
    i: int,
    depth: nat,
) -> Out<Seq<Initializer>>
    decreases rem(st), 2 * (100 + 8 * depth + (if i == 0 { 1int } else { 0int })),
{
    if at_list_end(st) {
        done(
            if braced {
                past_list_end(st)
            } else {
                st
            },
            elements,
        )
    } else if !braced && i >= members.len() {
        done(st, elements)
    } else if i < 0 || i >= usize::MAX || depth == 0 {
        Out { st, r: Err(Error::Overflow) }
    } else {
        let c = if i > 0 {
            skip_punct(st, Punct::Comma)
        } else {
            done(st, ())
        };
        if c.r is Err {
            c.fail()
        } else if rem(c.st) > rem(st) || (i > 0 && rem(c.st) >= rem(st)) {
            stuck(st)
        } else if i < members.len() {
            if is_incomplete_ty(c.st.types, members[i].ty) {
                wrong(c.st, here(c.st), Message::InitFlexible)
            } else {
                let e = initializer(c.st, members[i].ty, (depth - 1) as nat);
                if e.r is Err {
                    e.fail()
                } else if rem(e.st) > rem(c.st) {
                    stuck(st)
                } else {
                    struct_initializer(e.st, members, braced, elements.push(e.val()), i + 1, depth)
                }
            }
        } else {
            let w = warned(c.st, here(c.st), Message::ExcessStructElements);
            let s = skip_initializer(w);
            if s.r is Err {
                s.fail()
            } else if rem(s.st) > rem(c.st) {
                stuck(st)
            } else {
                struct_initializer(s.st, members, braced, elements, i + 1, depth)
            }
        }
    }
}

/// ```bnf
/// <union-initializer> ::= "{" <initializer> ","? "}" | <initializer>
/// ```
pub open spec fn union_initializer(
    st: ParserState,
    members: Seq<Member>,
    braced: bool,
    depth: nat,
) -> Out<Seq<Initializer>>
    decreases rem(st), 2 * (100 + 8 * depth) + 1,
{
    union_initializer_rule(st, members, braced, depth)
}

pub open spec fn union_initializer_rule(
    st: ParserState,
    members: Seq<Member>,
    braced: bool,
    depth: nat,
) -> Out<Seq<Initializer>>
    decreases rem(st), 2 * (100 + 8 * depth),
{
    if members.len() > 0 && depth == 0 {
        Out { st, r: Err(Error::Overflow) }
    } else {
        let e = if members.len() > 0 {
            let i = initializer(st, members[0].ty, (depth - 1) as nat);
            if i.r is Err {
                i.fail()
            } else {
                done(i.st, seq![i.val()])
            }
        } else {
            done(st, Seq::empty())
        };
        if e.r is Err || !braced {
            e
        } else if at_list_end(e.st) {
            done(past_list_end(e.st), e.val())
        } else {
            wrong(e.st, here(e.st), Message::ExpectedRBrace)
        }
    }
}

/// Skip one excess initializer.
pub open spec fn skip_initializer(st: ParserState) -> Out<()>
    decreases rem(st), 41int,
{
    skip_initializer_rule(st)
}

pub open spec fn skip_initializer_rule(st: ParserState) -> Out<()>
    decreases rem(st), 40int,
{
    if at(st, Punct::LBrace) {
        skip_initializers(adv(st), true)
    } else {
        let a = assign(st);
        if a.r is Err {
            a.fail()
        } else {
            done(a.st, ())
        }
    }
}

pub open spec fn skip_initializers(st: ParserState, first: bool) -> Out<()>
    decreases rem(st), 43int,
{
    skip_initializers_rule(st, first)
}

pub open spec fn skip_initializers_rule(st: ParserState, first: bool) -> Out<()>
    decreases rem(st), 42int,
{
    if at_list_end(st) {
        done(past_list_end(st), ())
    } else {
        let c = if first {
            done(st, ())
        } else {
            skip_punct(st, Punct::Comma)
        };
        if c.r is Err {
            c.fail()
        } else if rem(c.st) > rem(st) {
            stuck(st)
        } else {
            let s = skip_initializer(c.st);
            if s.r is Err {
                s.fail()
            } else if rem(s.st) >= rem(st) {
                stuck(st)
            } else {
                skip_initializers(s.st, false)
            }
        }
    }
}

} // verus!
