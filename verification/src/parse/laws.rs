//! What holds of declarations and declarators whatever is declared.

use vstd::prelude::*;
use vstd::seq_lib::group_to_multiset_ensures;
use crate::ast::StorageView;
use crate::constexpr::ConstValue;
use crate::error::{DeclspecContext, Error, Message};
use crate::parse::grammar::{
    at_pos, at_qualifier, combined, counted, declarator, declspec, declspec_atoms,
    declspec_atoms_rule, declspec_keyword, declspec_keyword_rule, declspec_rule, enum_list,
    enum_list_rule, enum_specifier, enum_specifier_rule, enum_value, is_type_word, no_specifiers,
    past_qualifiers, past_qualifiers_rule, pointers, pointers_rule, specified, words_agree,
    Specifiers, TypeWords,
};
use crate::parse::grammar_stmt::{typedefs, typedefs_rule};
use crate::parse::state::{
    adv, at, at_list_end, at_typename, bound, cur, declare_function, declare_global, done, here,
    ident_at, rem, skip_punct, typedef_at, with_types, wrong, ParserState,
};
use crate::scope::{ident_in, linked_function, linked_global, tag_in, visible_ident, OrdinaryIdent};
use crate::source::SourceSpan;
use crate::tokenize::{Keyword, Punct, TokenKind};
use crate::types::{next_type, same, with_ptr, Symbol, Type};

verus! {

/// The type specifiers after some type keywords one after the other, if they
/// go together.
pub open spec fn all_combined(s: Specifiers, keywords: Seq<Keyword>) -> Option<Specifiers>
    decreases keywords.len(),
{
    if keywords.len() == 0 {
        Some(s)
    } else {
        match combined(s, keywords[0]) {
            None => None,
            Some(s) => all_combined(s, keywords.skip(1)),
        }
    }
}

/// Fewer type keywords go together where more do.
pub proof fn fewer_words_agree(w: TypeWords, keyword: Keyword)
    requires
        words_agree(counted(w, keyword)),
    ensures
        words_agree(w),
{
}

/// Two type keywords combine in either order, or in none.
pub proof fn two_words_combine_either_way(s: Specifiers, a: Keyword, b: Keyword)
    ensures
        all_combined(s, seq![a, b]) == all_combined(s, seq![b, a]),
{
    reveal(combined);
    let wa = counted(s.words, a);
    let wb = counted(s.words, b);
    assert(counted(wa, b) == counted(wb, a));
    if words_agree(counted(wa, b)) {
        fewer_words_agree(wa, b);
        fewer_words_agree(wb, a);
    }
    reveal_with_fuel(all_combined, 3);
    assert(seq![a, b].skip(1) =~= seq![b]);
    assert(seq![b, a].skip(1) =~= seq![a]);
}

proof fn word_moves_to_the_front(s: Specifiers, keywords: Seq<Keyword>, i: int)
    requires
        0 <= i < keywords.len(),
    ensures
        all_combined(s, keywords) == all_combined(s, seq![keywords[i]] + keywords.remove(i)),
    decreases keywords.len(),
{
    let word = keywords[i];
    let moved = seq![word] + keywords.remove(i);
    if i == 0 {
        assert(moved =~= keywords);
    } else {
        let first = keywords[0];
        let rest = keywords.skip(1);
        let others = rest.remove(i - 1);
        assert(moved.skip(1) =~= keywords.remove(i));
        assert(keywords.remove(i).skip(1) =~= others);
        assert(keywords.remove(i)[0] == first);
        two_words_combine_either_way(s, first, word);
        reveal_with_fuel(all_combined, 3);
        assert(seq![first, word].skip(1) =~= seq![word]);
        assert(seq![word, first].skip(1) =~= seq![first]);
        if let Some(t) = combined(s, first) {
            word_moves_to_the_front(t, rest, i - 1);
            assert((seq![word] + others).skip(1) =~= others);
            assert((seq![word] + others)[0] == word);
        }
        assert(moved[0] == word);
    }
}

/// The order of type keywords does not matter: the same keywords in another
/// order combine to the same, or do not go together either.
pub proof fn order_of_type_keywords_is_free(s: Specifiers, a: Seq<Keyword>, b: Seq<Keyword>)
    requires
        a.to_multiset() == b.to_multiset(),
    ensures
        all_combined(s, a) == all_combined(s, b),
    decreases a.len(),
{
    broadcast use {group_to_multiset_ensures, vstd::multiset::group_multiset_axioms};

    assert(a.len() == a.to_multiset().len());
    assert(b.len() == b.to_multiset().len());
    if a.len() > 0 {
        let word = a[0];
        assert(a.contains(word));
        assert(b.to_multiset().count(word) > 0);
        let i = b.index_of(word);
        word_moves_to_the_front(s, b, i);
        let moved = seq![word] + b.remove(i);
        assert(moved.skip(1) =~= b.remove(i));
        assert(a.remove(0) =~= a.skip(1));
        assert(a.skip(1).to_multiset() == b.remove(i).to_multiset());
        if let Some(t) = combined(s, word) {
            order_of_type_keywords_is_free(t, a.skip(1), b.remove(i));
        }
    }
}

/// Whether the tokens from the current one on are some type keywords, behind
/// which no declaration specifier follows.
pub open spec fn stands_at_words(st: ParserState, keywords: Seq<Keyword>) -> bool {
    &&& forall|i: int|
        0 <= i < keywords.len() ==> is_type_word(#[trigger] keywords[i]) && st.pos + i
            < st.input.tokens.len() && st.input.tokens[st.pos + i].kind == TokenKind::Keyword(
            keywords[i],
        )
    &&& !at_typename(at_pos(st, st.pos + keywords.len()))
}

proof fn one_word_is_read(
    st: ParserState,
    context: DeclspecContext,
    s: Specifiers,
    word: Keyword,
)
    requires
        is_type_word(word),
        cur(st) == TokenKind::Keyword(word),
    ensures
        declspec_keyword(st, context, s) == (match combined(s, word) {
            Some(t) => done(adv(st), t),
            None => wrong(adv(st), here(st), Message::MultipleTypes),
        }),
{
    reveal(specified);
    assert(specified(s, word, context) == (match combined(s, word) {
        Some(t) => Ok::<Specifiers, Message>(t),
        None => Err(Message::MultipleTypes),
    }));
    assert(declspec_keyword(st, context, s) == declspec_keyword_rule(st, context, s));
}

proof fn one_word_leads_on(
    st: ParserState,
    context: DeclspecContext,
    s: Specifiers,
    word: Keyword,
)
    requires
        is_type_word(word),
        cur(st) == TokenKind::Keyword(word),
    ensures
        declspec_atoms(st, context, s) == (match combined(s, word) {
            Some(t) => declspec_atoms(adv(st), context, t),
            None => wrong(adv(st), here(st), Message::MultipleTypes),
        }),
{
    one_word_is_read(st, context, s, word);
    assert(at_typename(st)) by {
        reveal(at_typename);
    }
    assert(typedef_at(st) is None);
    assert(rem(adv(st)) < rem(st));
    assert(declspec_atoms(st, context, s) == declspec_atoms_rule(st, context, s));
}

proof fn no_word_is_read(st: ParserState, context: DeclspecContext, s: Specifiers)
    requires
        !at_typename(st),
    ensures
        declspec_atoms(st, context, s) == done(st, s),
{
    assert(declspec_atoms(st, context, s) == declspec_atoms_rule(st, context, s));
}

proof fn words_go_on(st: ParserState, keywords: Seq<Keyword>)
    requires
        keywords.len() > 0,
        stands_at_words(st, keywords),
    ensures
        is_type_word(keywords[0]),
        cur(st) == TokenKind::Keyword(keywords[0]),
        stands_at_words(adv(st), keywords.skip(1)),
        at_pos(adv(st), adv(st).pos + keywords.skip(1).len()) == at_pos(
            st,
            st.pos + keywords.len(),
        ),
{
    let rest = keywords.skip(1);
    assert(st.input.tokens[st.pos + 0].kind == TokenKind::Keyword(keywords[0]));
    assert forall|i: int| 0 <= i < rest.len() implies is_type_word(#[trigger] rest[i]) && adv(
        st,
    ).pos + i < st.input.tokens.len() && st.input.tokens[adv(st).pos + i].kind
        == TokenKind::Keyword(rest[i]) by {
        assert(rest[i] == keywords[i + 1]);
    }
}

#[verifier::rlimit(30)]
proof fn words_are_read_in_turn(
    st: ParserState,
    context: DeclspecContext,
    s: Specifiers,
    keywords: Seq<Keyword>,
)
    requires
        stands_at_words(st, keywords),
    ensures
        match all_combined(s, keywords) {
            Some(t) => declspec_atoms(st, context, s) == done(
                at_pos(st, st.pos + keywords.len()),
                t,
            ),
            None => declspec_atoms(st, context, s).r is Err,
        },
    decreases keywords.len(),
{
    if keywords.len() == 0 {
        assert(at_pos(st, st.pos + keywords.len()) == st);
        no_word_is_read(st, context, s);
    } else {
        words_go_on(st, keywords);
        one_word_leads_on(st, context, s, keywords[0]);
        if let Some(t) = combined(s, keywords[0]) {
            words_are_read_in_turn(adv(st), context, t, keywords.skip(1));
        }
    }
}

/// Type specifiers are order-insensitive: where the same type keywords stand in
/// another order, they are refused too, or make the same declaration specifiers.
pub proof fn type_specifiers_are_order_insensitive(
    a: ParserState,
    b: ParserState,
    context: DeclspecContext,
    keywords: Seq<Keyword>,
    others: Seq<Keyword>,
)
    requires
        stands_at_words(a, keywords),
        stands_at_words(b, others),
        keywords.to_multiset() == others.to_multiset(),
    ensures
        declspec(a, context).r is Ok <==> declspec(b, context).r is Ok,
        declspec(a, context).r is Ok ==> declspec(a, context).r == declspec(b, context).r,
{
    words_are_read_in_turn(a, context, no_specifiers(), keywords);
    words_are_read_in_turn(b, context, no_specifiers(), others);
    order_of_type_keywords_is_free(no_specifiers(), keywords, others);
    assert(declspec(a, context) == declspec_rule(a, context));
    assert(declspec(b, context) == declspec_rule(b, context));
}

/// A typedef name may be declared again in its scope with the same type only,
/// and a name that means anything else there cannot become one.
pub proof fn typedef_names_keep_their_type(st: ParserState, base: Type, noreturn: bool)
    requires
        declarator(st, base, false).r is Ok,
        declarator(st, base, false).val().name is Some,
    ensures
        ({
            let d = declarator(st, base, false);
            let o = typedefs(st, base, noreturn);
            let span = d.val().span;
            match ident_in(d.st.scopes.last(), d.val().name.unwrap()) {
                None => true,
                Some(OrdinaryIdent::Typedef(ty)) => if same(d.st.types, ty, d.val().ty) {
                    at(d.st, Punct::Semi) ==> o.r is Ok
                } else {
                    o.r == Err::<(), Error>(Error::Terminate(span, Message::ConflictingTypes))
                },
                Some(_) => o.r == Err::<(), Error>(
                    Error::Terminate(span, Message::DifferentKindOfSymbol),
                ),
            }
        }),
{
    assert(typedefs(st, base, noreturn) == typedefs_rule(st, base, noreturn));
}

/// An enumerator cannot be declared where its name is bound already in the
/// same scope, be it to another enumerator. One that is accepted is bound.
pub proof fn enumerators_are_declared_once(
    st: ParserState,
    first: bool,
    val: ConstValue,
    name: Symbol,
)
    requires
        st.scopes.len() > 0,
        !at_list_end(st),
        first || at(st, Punct::Comma),
        ident_at(if first { st } else { adv(st) }) == Some(name),
    ensures
        ({
            let at_name = if first { st } else { adv(st) };
            let v = enum_value(adv(at_name), val);
            let o = enum_list(st, first, val);
            v.r is Ok ==> match ident_in(v.st.scopes.last(), name) {
                Some(OrdinaryIdent::Enumerator(_)) => o.r == Err::<(), Error>(
                    Error::Terminate(here(at_name), Message::RedeclarationOfEnumerator),
                ),
                Some(_) => o.r == Err::<(), Error>(
                    Error::Terminate(here(at_name), Message::DifferentKindOfSymbol),
                ),
                None => v.st.scopes.len() > 0 ==> ident_in(
                    bound(v.st, name, OrdinaryIdent::Enumerator(v.val())).scopes.last(),
                    name,
                ) == Some(OrdinaryIdent::Enumerator(v.val())),
            }
        }),
{
    reveal(skip_punct);
    assert(enum_list(st, first, val) == enum_list_rule(st, first, val));
}

/// An enum tag cannot be defined where the same scope has that tag already, be
/// it of an enum, a struct, or a union.
pub proof fn enum_tags_are_defined_once(st: ParserState, tag: Symbol)
    requires
        ident_at(st) == Some(tag),
        at(adv(st), Punct::LBrace),
        tag_in(st.scopes.last(), tag) is Some,
    ensures
        enum_specifier(st).r == Err::<Type, Error>(
            Error::Terminate(
                here(st),
                if tag_in(st.scopes.last(), tag) == Some(Type::Enum) {
                    Message::RedeclarationOfEnumTag
                } else {
                    Message::WrongKindOfTag
                },
            ),
        ),
{
    assert(enum_specifier(st) == enum_specifier_rule(st));
}

/// A global variable declared in an inner scope is the one with linkage that
/// an outer scope has by that name, if the inner scope binds the name to
/// nothing else: no entry is added, and the name means that variable again.
pub proof fn outer_globals_are_reused(
    st: ParserState,
    name: Symbol,
    ty: Type,
    align: Option<u64>,
    storage: StorageView,
    is_static: bool,
    span: SourceSpan,
)
    requires
        st.scopes.len() > 0,
        ident_in(st.scopes.last(), name) is None,
        linked_global(st.scopes.drop_last(), name) is Some,
    ensures
        ({
            let id = linked_global(st.scopes.drop_last(), name).unwrap();
            let o = declare_global(st, name, ty, align, storage, is_static, span);
            o.r is Ok ==> {
                &&& o.r == Ok::<usize, Error>(id)
                &&& o.st.globals.len() == st.globals.len()
                &&& visible_ident(o.st.scopes, name) == Some(OrdinaryIdent::Global(id, true))
            }
        }),
{
    reveal(declare_global);
}

/// A function declared in an inner scope is the one that an outer scope has by
/// that name, if the inner scope binds the name to nothing else.
pub proof fn outer_functions_are_reused(
    st: ParserState,
    name: Symbol,
    ty: Type,
    noreturn: bool,
    span: SourceSpan,
)
    requires
        st.scopes.len() > 0,
        ident_in(st.scopes.last(), name) is None,
        linked_function(st.scopes.drop_last(), name) is Some,
    ensures
        ({
            let id = linked_function(st.scopes.drop_last(), name).unwrap();
            let o = declare_function(st, name, ty, noreturn, span);
            o.r is Ok ==> {
                &&& o.r == Ok::<usize, Error>(id)
                &&& o.st.functions.len() == st.functions.len()
                &&& visible_ident(o.st.scopes, name) == Some(OrdinaryIdent::Function(id))
            }
        }),
{
    reveal(declare_function);
}

/// Type qualifiers are skipped forwards only.
pub proof fn qualifiers_never_go_back(st: ParserState)
    ensures
        past_qualifiers(st).input == st.input,
        rem(past_qualifiers(st)) <= rem(st),
    decreases rem(st),
{
    assert(past_qualifiers(st) == past_qualifiers_rule(st));
    if at_qualifier(st) {
        qualifiers_never_go_back(adv(st));
    }
}

/// The stars of a declarator are read forwards only, each with its qualifiers.
pub proof fn pointers_never_go_back(st: ParserState, ty: Type)
    ensures
        pointers(st, ty).0.input == st.input,
        rem(pointers(st, ty).0) <= rem(st),
        at(st, Punct::Star) ==> rem(pointers(st, ty).0) < rem(st),
    decreases rem(st),
{
    assert(pointers(st, ty) == pointers_rule(st, ty));
    if at(st, Punct::Star) {
        let st1 = with_types(adv(st), with_ptr(st.types, ty));
        qualifiers_never_go_back(st1);
        pointers_never_go_back(past_qualifiers(st1), next_type(st.types));
    }
}

} // verus!
