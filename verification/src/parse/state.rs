//! The state of the parser, and the steps it is made of.

use vstd::prelude::*;
use crate::ast::{
    function_views, global_views, CaseLabel, Function, FunctionView, GlobalStorage, GlobalVar,
    GlobalView, LocalVar, Name, StorageView,
};
use crate::constexpr::{FloatAnswer, FloatQuery, FloatTable};
use crate::error::{Error, Message, Warning};
use crate::names::name_views;
use crate::scope::{
    empty_frame, find_ident, find_outer_function, find_outer_global, find_tag, frame_views,
    ident_in, linked_function, linked_global, tag_in, visible_ident, visible_tag, FrameView,
    OrdinaryIdent, ScopeFrame,
};
use crate::source::SourceSpan;
use crate::tokenize::{is_typename_kw, Keyword, Punct, Token, TokenKind};
use crate::types::{
    align_of, array_of, array_size, base_of, coerced, const_of, func_of, is_func_ty,
    is_incomplete_ty, is_ptr_ty, is_sou_ty, merged, next_type, same, size_of, with_array, with_ptr,
    ArrayTypeData, ConstType, Symbol, Type, TypeForm, TypeStore, Types,
};

verus! {

/// The switch statement being parsed.
#[derive(Debug)]
pub struct SwitchContext {
    pub ty: ConstType,
    pub cases: Vec<CaseLabel>,
    pub default: Option<usize>,
}

/// The mathematical form of [`SwitchContext`].
pub struct SwitchView {
    pub ty: ConstType,
    pub cases: Seq<CaseLabel>,
    pub default: Option<usize>,
}

impl SwitchContext {
    pub open spec fn view(&self) -> SwitchView {
        SwitchView { ty: self.ty, cases: self.cases@, default: self.default }
    }
}

pub open spec fn switch_view(switch: Option<SwitchContext>) -> Option<SwitchView> {
    match switch {
        Some(switch) => Some(switch@),
        None => None,
    }
}

/// The names that are declared by no declaration.
#[derive(Clone, Copy, Debug, PartialEq, Eq, Structural)]
pub struct HiddenNames {
    /// The local of variadic functions that holds their variable arguments.
    pub va_area: Symbol,
    /// The name of the current function, under both of its names.
    pub func: Symbol,
    pub function: Symbol,
}

/// Stateful parser over the token stream during parsing.
pub struct Parser {
    pub tokens: Vec<Token>,
    /// The string literals that tokens refer to.
    pub strings: Vec<Vec<u32>>,
    /// The results of floating-point operations on constants.
    pub floats: FloatTable,
    /// Whether to follow preprocessor rules for certain constructs.
    pub preprocess: bool,
    pub hidden: HiddenNames,
    /// How symbols are spelled.
    pub names: Vec<Vec<u8>>,
    // Mutable states
    pub pos: usize,
    pub types: TypeStore,
    pub locals: Vec<LocalVar>,
    pub functions: Vec<Function>,
    /// The index of the function currently being parsed.
    pub active_function: Option<usize>,
    pub active_brk_label: Option<usize>,
    pub active_cont_label: Option<usize>,
    pub active_switch: Option<SwitchContext>,
    pub globals: Vec<GlobalVar>,
    pub scopes: Vec<ScopeFrame>,
    pub next_unique_label: usize,
    /// Whether the current operation will be rolled back.
    pub speculating: bool,
    pub warnings: Vec<Warning>,
}

/// What a parser works on, which never changes.
pub struct Input {
    pub tokens: Seq<Token>,
    pub strings: Seq<Seq<u32>>,
    pub floats: Seq<FloatAnswer>,
    pub preprocess: bool,
    pub hidden: HiddenNames,
    pub names: Seq<Seq<u8>>,
}

/// The mathematical form of [`Parser`].
pub struct ParserState {
    pub input: Input,
    pub pos: int,
    pub types: Types,
    pub locals: Seq<LocalVar>,
    pub functions: Seq<FunctionView>,
    pub active_function: Option<usize>,
    pub active_brk_label: Option<usize>,
    pub active_cont_label: Option<usize>,
    pub active_switch: Option<SwitchView>,
    pub globals: Seq<GlobalView>,
    pub scopes: Seq<FrameView>,
    pub next_unique_label: int,
    pub speculating: bool,
    pub warnings: Seq<Warning>,
}

/// What a parsing step leaves behind: the state after it, and its result.
pub struct Out<T> {
    pub st: ParserState,
    pub r: Result<T, Error>,
}

impl<T> Out<T> {
    /// The failure of this step, as the failure of a larger one.
    pub open spec fn fail<U>(self) -> Out<U> {
        Out { st: self.st, r: Err(self.r->Err_0) }
    }

    /// The value that the step came to.
    pub open spec fn val(self) -> T {
        self.r->Ok_0
    }
}

/// A step that succeeds.
pub open spec fn done<T>(st: ParserState, value: T) -> Out<T> {
    Out { st, r: Ok(value) }
}

/// A step that finds the program wrong at the given place.
pub open spec fn wrong<T>(st: ParserState, span: SourceSpan, message: Message) -> Out<T> {
    Out { st, r: Err(Error::Terminate(span, message)) }
}

/// A step that would go on where no token was taken.
///
/// No parser comes here: every rule that succeeds has taken tokens, and the
/// functions that parse say so of themselves, see [`moves`].
#[verifier::opaque]
pub open spec fn stuck<T>(st: ParserState) -> Out<T> {
    Out { st, r: Err(Error::Overflow) }
}

/// A step that depends on the result of a floating-point operation.
pub open spec fn floated<T>(st: ParserState, r: Result<T, FloatQuery>) -> Out<T> {
    match r {
        Ok(value) => done(st, value),
        Err(query) => Out { st, r: Err(Error::NeedsFloat(query)) },
    }
}

/// The number of tokens that are left.
pub open spec fn rem(st: ParserState) -> nat {
    if st.pos < st.input.tokens.len() {
        (st.input.tokens.len() - st.pos) as nat
    } else {
        0
    }
}

pub open spec fn cur(st: ParserState) -> TokenKind {
    if st.pos < st.input.tokens.len() {
        st.input.tokens[st.pos].kind
    } else {
        TokenKind::Eof
    }
}

/// Where the current token stands.
pub open spec fn here(st: ParserState) -> SourceSpan {
    st.input.tokens[st.pos].span
}

pub open spec fn at(st: ParserState, punct: Punct) -> bool {
    cur(st) == TokenKind::Punct(punct)
}

pub open spec fn at_kw(st: ParserState, keyword: Keyword) -> bool {
    cur(st) == TokenKind::Keyword(keyword)
}

/// Whether the token after the current one is the given punctuator.
pub open spec fn next_is(st: ParserState, punct: Punct) -> bool {
    st.pos + 1 < st.input.tokens.len() && st.input.tokens[st.pos + 1].kind == TokenKind::Punct(punct)
}

pub open spec fn adv(st: ParserState) -> ParserState {
    ParserState { pos: st.pos + 1, ..st }
}

pub open spec fn ident_at(st: ParserState) -> Option<Symbol> {
    match cur(st) {
        TokenKind::Ident(name) => Some(name),
        _ => None,
    }
}

pub open spec fn warned(st: ParserState, span: SourceSpan, message: Message) -> ParserState {
    if st.speculating {
        st
    } else {
        ParserState { warnings: st.warnings.push(Warning { span, message }), ..st }
    }
}

#[verifier::opaque]
pub open spec fn skip_punct(st: ParserState, punct: Punct) -> Out<()> {
    if at(st, punct) {
        done(adv(st), ())
    } else {
        wrong(st, here(st), Message::ExpectedPunct(punct))
    }
}

/// Whether the end of a braced list is here: "}", or "," and "}".
pub open spec fn at_list_end(st: ParserState) -> bool {
    at(st, Punct::RBrace) || (at(st, Punct::Comma) && next_is(st, Punct::RBrace))
}

/// The state after the end of a braced list.
pub open spec fn past_list_end(st: ParserState) -> ParserState {
    if at(st, Punct::RBrace) {
        adv(st)
    } else {
        adv(adv(st))
    }
}

/// The type that the current identifier is a typedef name of.
pub open spec fn typedef_at(st: ParserState) -> Option<Type> {
    match ident_at(st) {
        Some(name) => match visible_ident(st.scopes, name) {
            Some(OrdinaryIdent::Typedef(ty)) => Some(ty),
            _ => None,
        },
        None => None,
    }
}

/// Whether the current token can begin a typename.
#[verifier::opaque]
pub open spec fn at_typename(st: ParserState) -> bool {
    match cur(st) {
        TokenKind::Keyword(keyword) => is_typename_kw(keyword),
        _ => typedef_at(st) is Some,
    }
}

/// Take a fresh number for a label.
pub open spec fn fresh_label(st: ParserState) -> Out<usize> {
    if st.next_unique_label >= usize::MAX {
        Out { st, r: Err(Error::Overflow) }
    } else {
        done(
            ParserState { next_unique_label: st.next_unique_label + 1, ..st },
            st.next_unique_label as usize,
        )
    }
}

pub open spec fn with_types(st: ParserState, types: Types) -> ParserState {
    ParserState { types, ..st }
}

/// The state with a frame that binds nothing inside all others.
pub open spec fn in_scope(st: ParserState) -> ParserState {
    ParserState { scopes: st.scopes.push(empty_frame()), ..st }
}

pub open spec fn out_of_scope(st: ParserState) -> ParserState {
    ParserState { scopes: st.scopes.drop_last(), ..st }
}

pub open spec fn bound(st: ParserState, name: Symbol, ident: OrdinaryIdent) -> ParserState {
    let frame = st.scopes.last();
    let frame = FrameView { idents: frame.idents.insert(name.0, ident), ..frame };
    ParserState { scopes: st.scopes.update(st.scopes.len() - 1, frame), ..st }
}

pub open spec fn tagged(st: ParserState, name: Symbol, ty: Type) -> ParserState {
    let frame = st.scopes.last();
    let frame = FrameView { tags: frame.tags.insert(name.0, ty), ..frame };
    ParserState { scopes: st.scopes.update(st.scopes.len() - 1, frame), ..st }
}

/// The state with one more local, and with its name bound if it has one.
pub open spec fn with_local(
    st: ParserState,
    name: Option<Symbol>,
    ty: Type,
    align: Option<u64>,
) -> ParserState {
    let id = st.locals.len() as usize;
    let st = ParserState { locals: st.locals.push(LocalVar { ty, align, offset: 0 }), ..st };
    match name {
        Some(name) => bound(st, name, OrdinaryIdent::Local(id)),
        None => st,
    }
}

/// The state with one more global variable.
///
/// A name from the source code is bound to it, with linkage.
pub open spec fn with_global(st: ParserState, global: GlobalView) -> ParserState {
    let id = st.globals.len() as usize;
    let st = ParserState { globals: st.globals.push(global), ..st };
    match global.name {
        Name::Ident(name) => bound(st, name, OrdinaryIdent::Global(id, true)),
        Name::Unique(_) => st,
    }
}

/// A function that has only been declared.
pub open spec fn declared_function(name: Symbol, ty: Type, noreturn: bool) -> FunctionView {
    FunctionView {
        name,
        ty,
        body: None,
        param_locals: Seq::empty(),
        ret_buf_local: None,
        va_area_local: None,
        locals: Seq::empty(),
        is_static: false,
        noreturn,
    }
}

pub open spec fn with_function(
    st: ParserState,
    name: Symbol,
    ty: Type,
    noreturn: bool,
) -> ParserState {
    let id = st.functions.len() as usize;
    let function = declared_function(name, ty, noreturn);
    let st = ParserState { functions: st.functions.push(function), ..st };
    bound(st, name, OrdinaryIdent::Function(id))
}

pub open spec fn max_align(a: Option<u64>, b: Option<u64>) -> Option<u64> {
    match (a, b) {
        (Some(x), Some(y)) => if x < y {
            b
        } else {
            a
        },
        (None, _) => b,
        (_, None) => a,
    }
}

/// Declare a global variable, or declare one again.
#[verifier::opaque]
pub open spec fn declare_global(
    st: ParserState,
    name: Symbol,
    ty: Type,
    align: Option<u64>,
    storage: StorageView,
    is_static: bool,
    span: SourceSpan,
) -> Out<usize> {
    match ident_in(st.scopes.last(), name) {
        Some(OrdinaryIdent::Global(id, true)) => redeclare_global(
            st,
            id,
            name,
            ty,
            align,
            storage,
            is_static,
            span,
        ),
        Some(OrdinaryIdent::Global(_, false)) | Some(OrdinaryIdent::Local(_)) => wrong(
            st,
            span,
            Message::ExternAfterNoLinkage,
        ),
        Some(_) => wrong(st, span, Message::DifferentKindOfSymbol),
        None => match linked_global(st.scopes.drop_last(), name) {
            Some(id) => redeclare_global(st, id, name, ty, align, storage, is_static, span),
            None => done(
                with_global(
                    st,
                    GlobalView { name: Name::Ident(name), ty, align, storage, is_static },
                ),
                st.globals.len() as usize,
            ),
        },
    }
}

/// Declare a global variable again.
pub open spec fn redeclare_global(
    st: ParserState,
    id: usize,
    name: Symbol,
    ty: Type,
    align: Option<u64>,
    storage: StorageView,
    is_static: bool,
    span: SourceSpan,
) -> Out<usize> {
    if id >= st.globals.len() {
        Out { st, r: Err(Error::Overflow) }
    } else {
        let global = st.globals[id as int];
        match merged(st.types, global.ty, ty) {
            None => wrong(st, span, Message::ConflictingTypes),
            Some(ty) => if global.is_static && !is_static && !(storage is Decl) {
                wrong(st, span, Message::NonStaticAfterStatic)
            } else if !global.is_static && is_static {
                wrong(st, span, Message::StaticAfterNonStatic)
            } else {
                match crate::ast::merged_storage(global.storage, storage) {
                    None => wrong(st, span, Message::RedefinitionOfGlobal),
                    Some(storage) => {
                        let align = max_align(global.align, align);
                        let global = GlobalView { ty, align, storage, ..global };
                        let st = ParserState { globals: st.globals.update(id as int, global), ..st };
                        done(bound(st, name, OrdinaryIdent::Global(id, true)), id)
                    },
                }
            },
        }
    }
}

/// Declare a function, or declare one again.
#[verifier::opaque]
pub open spec fn declare_function(
    st: ParserState,
    name: Symbol,
    ty: Type,
    noreturn: bool,
    span: SourceSpan,
) -> Out<usize> {
    match ident_in(st.scopes.last(), name) {
        Some(OrdinaryIdent::Function(id)) => redeclare_function(st, id, name, ty, noreturn, span),
        Some(_) => wrong(st, span, Message::DifferentKindOfSymbol),
        None => match linked_function(st.scopes.drop_last(), name) {
            Some(id) => redeclare_function(st, id, name, ty, noreturn, span),
            None => done(with_function(st, name, ty, noreturn), st.functions.len() as usize),
        },
    }
}

/// Declare a function again.
pub open spec fn redeclare_function(
    st: ParserState,
    id: usize,
    name: Symbol,
    ty: Type,
    noreturn: bool,
    span: SourceSpan,
) -> Out<usize> {
    if id >= st.functions.len() {
        Out { st, r: Err(Error::Overflow) }
    } else {
        let function = st.functions[id as int];
        if !same(st.types, function.ty, ty) {
            wrong(st, span, Message::ConflictingTypes)
        } else {
            let function = FunctionView { noreturn: function.noreturn || noreturn, ..function };
            let st = ParserState { functions: st.functions.update(id as int, function), ..st };
            done(bound(st, name, OrdinaryIdent::Function(id)), id)
        }
    }
}

/// Store an array type, unless it is too large.
pub open spec fn new_array(
    st: ParserState,
    base: Type,
    len: Option<usize>,
    span: SourceSpan,
) -> Out<
    Type,
> {
    if array_size(st.types, base, len) is Some {
        done(with_types(st, with_array(st.types, base, len)), next_type(st.types))
    } else {
        wrong(st, span, Message::TypeTooLarge)
    }
}

/// The state at the start of an operation that will be rolled back.
pub open spec fn speculation(st: ParserState) -> ParserState {
    ParserState { speculating: true, ..in_scope(st) }
}

pub open spec fn cut<A>(s: Seq<A>, n: nat) -> Seq<A> {
    if n <= s.len() {
        s.take(n as int)
    } else {
        s
    }
}

/// The state after an operation that began at `before` is rolled back.
pub open spec fn rolled_back(before: ParserState, after: ParserState) -> ParserState {
    ParserState {
        pos: before.pos,
        types: cut(after.types, before.types.len()),
        locals: cut(after.locals, before.locals.len()),
        functions: cut(after.functions, before.functions.len()),
        globals: cut(after.globals, before.globals.len()),
        scopes: cut(after.scopes, before.scopes.len()),
        speculating: before.speculating,
        ..after
    }
}

/// What is bound within a scope is forgotten at its end.
pub proof fn scopes_end_their_bindings(
    st: ParserState,
    name: Symbol,
    ident: OrdinaryIdent,
    tag: Symbol,
    ty: Type,
)
    ensures
        out_of_scope(tagged(bound(in_scope(st), name, ident), tag, ty)) == st,
{
    let inner = tagged(bound(in_scope(st), name, ident), tag, ty);
    assert(inner.scopes.drop_last() =~= st.scopes);
}

/// A name that was bound is visible as what it was bound to, and other names
/// stay what they were.
pub proof fn bound_names_are_visible(
    st: ParserState,
    name: Symbol,
    ident: OrdinaryIdent,
    other: Symbol,
)
    requires
        st.scopes.len() > 0,
        other != name,
    ensures
        visible_ident(bound(st, name, ident).scopes, name) == Some(ident),
        visible_ident(bound(st, name, ident).scopes, other) == visible_ident(st.scopes, other),
{
    let after = bound(st, name, ident).scopes;
    assert(after.drop_last() =~= st.scopes.drop_last());
}

/// Declaring a function again uses the same entry of the function table; it
/// fails if the types conflict.
pub proof fn redeclared_function_is_reused(
    st: ParserState,
    name: Symbol,
    id: usize,
    ty: Type,
    noreturn: bool,
    span: SourceSpan,
)
    requires
        st.scopes.len() > 0,
        id < st.functions.len(),
        ident_in(st.scopes.last(), name) == Some(OrdinaryIdent::Function(id)),
    ensures
        ({
            let o = declare_function(st, name, ty, noreturn, span);
            if same(st.types, st.functions[id as int].ty, ty) {
                &&& o.r == Ok::<usize, Error>(id)
                &&& o.st.functions.len() == st.functions.len()
                &&& o.st.functions[id as int].body == st.functions[id as int].body
                &&& visible_ident(o.st.scopes, name) == Some(OrdinaryIdent::Function(id))
            } else {
                o.r == Err::<usize, Error>(Error::Terminate(span, Message::ConflictingTypes))
            }
        }),
{
    reveal(declare_function);
}

/// Declaring a global variable again uses the same entry of the table of
/// globals, and defining it twice with data fails.
pub proof fn redeclared_global_is_reused(
    st: ParserState,
    name: Symbol,
    id: usize,
    ty: Type,
    align: Option<u64>,
    storage: StorageView,
    is_static: bool,
    span: SourceSpan,
)
    requires
        st.scopes.len() > 0,
        id < st.globals.len(),
        ident_in(st.scopes.last(), name) == Some(OrdinaryIdent::Global(id, true)),
    ensures
        ({
            let o = declare_global(st, name, ty, align, storage, is_static, span);
            &&& o.r is Ok ==> o.r == Ok::<usize, Error>(id) && o.st.globals.len()
                == st.globals.len()
            &&& storage is Data && st.globals[id as int].storage is Data ==> o.r is Err
        }),
{
    reveal(declare_global);
}

/// A name that means anything else in the same scope cannot be declared as a
/// function.
pub proof fn other_names_are_no_functions(
    st: ParserState,
    name: Symbol,
    ty: Type,
    noreturn: bool,
    span: SourceSpan,
)
    requires
        ident_in(st.scopes.last(), name) is Some,
        !(ident_in(st.scopes.last(), name).unwrap() is Function),
    ensures
        declare_function(st, name, ty, noreturn, span) == wrong::<usize>(
            st,
            span,
            Message::DifferentKindOfSymbol,
        ),
{
    reveal(declare_function);
}

/// What was only added since `before` is gone when it is rolled back to.
pub proof fn rolling_back_undoes_additions(before: ParserState, after: ParserState)
    requires
        before.types.len() <= after.types.len(),
        after.types.take(before.types.len() as int) == before.types,
        before.locals.len() <= after.locals.len(),
        after.locals.take(before.locals.len() as int) == before.locals,
        before.functions.len() <= after.functions.len(),
        after.functions.take(before.functions.len() as int) == before.functions,
        before.globals.len() <= after.globals.len(),
        after.globals.take(before.globals.len() as int) == before.globals,
        before.scopes.len() <= after.scopes.len(),
        after.scopes.take(before.scopes.len() as int) == before.scopes,
    ensures
        ({
            let st = rolled_back(before, after);
            &&& st.pos == before.pos
            &&& st.types == before.types
            &&& st.locals == before.locals
            &&& st.functions == before.functions
            &&& st.globals == before.globals
            &&& st.scopes == before.scopes
            &&& st.speculating == before.speculating
        }),
{
}

/// What every parsing step keeps: the input, and the frames it began in.
pub open spec fn keeps(before: ParserState, after: ParserState, ok: bool) -> bool {
    &&& after.input == before.input
    &&& after.scopes.len() >= before.scopes.len()
    &&& ok ==> after.scopes.len() == before.scopes.len()
}

/// A step that takes at least one token if it succeeds.
pub open spec fn moves(before: ParserState, after: ParserState, ok: bool) -> bool {
    keeps(before, after, ok) && (ok ==> rem(after) < rem(before))
}

/// A step that does not go back if it succeeds.
pub open spec fn stays(before: ParserState, after: ParserState, ok: bool) -> bool {
    keeps(before, after, ok) && (ok ==> rem(after) <= rem(before))
}

/// A step that takes no token.
pub open spec fn pauses(before: ParserState, after: ParserState, ok: bool) -> bool {
    keeps(before, after, ok) && after.pos == before.pos
}

/// Position of a speculation to roll back to.
#[derive(Clone, Copy)]
pub struct Checkpoint {
    pub pos: usize,
    pub types: usize,
    pub locals: usize,
    pub functions: usize,
    pub globals: usize,
    pub scopes: usize,
    pub speculating: bool,
}

pub open spec fn checkpoint_of(cp: Checkpoint, st: ParserState) -> bool {
    &&& cp.pos == st.pos
    &&& cp.types == st.types.len()
    &&& cp.locals == st.locals.len()
    &&& cp.functions == st.functions.len()
    &&& cp.globals == st.globals.len()
    &&& cp.scopes == st.scopes.len()
    &&& cp.speculating == st.speculating
}

pub open spec fn string_views(strings: Seq<Vec<u32>>) -> Seq<Seq<u32>> {
    Seq::new(strings.len(), |k: int| strings[k]@)
}

/// The state in which parsing of some tokens begins.
pub open spec fn initial_state(input: Input) -> ParserState {
    ParserState {
        input,
        pos: 0,
        types: Seq::empty(),
        locals: Seq::empty(),
        functions: Seq::empty(),
        active_function: None,
        active_brk_label: None,
        active_cont_label: None,
        active_switch: None,
        globals: Seq::empty(),
        scopes: seq![empty_frame()],
        next_unique_label: 0,
        speculating: false,
        warnings: Seq::empty(),
    }
}

impl Parser {
    #[verifier::opaque]
    pub open spec fn view(&self) -> ParserState {
        ParserState {
            input: Input {
                tokens: self.tokens@,
                strings: string_views(self.strings@),
                floats: self.floats@,
                preprocess: self.preprocess,
                hidden: self.hidden,
                names: name_views(self.names@),
            },
            pos: self.pos as int,
            types: self.types@,
            locals: self.locals@,
            functions: function_views(self.functions@),
            active_function: self.active_function,
            active_brk_label: self.active_brk_label,
            active_cont_label: self.active_cont_label,
            active_switch: switch_view(self.active_switch),
            globals: global_views(self.globals@),
            scopes: frame_views(self.scopes@),
            next_unique_label: self.next_unique_label as int,
            speculating: self.speculating,
            warnings: self.warnings@,
        }
    }

    /// The tokens end with an EOF sentinel, which is never passed, and there is
    /// always a scope.
    pub open spec fn inv(&self) -> bool {
        &&& 0 <= self@.pos < self@.input.tokens.len()
        &&& self@.input.tokens.last().kind == TokenKind::Eof
        &&& self@.scopes.len() >= 1
        &&& !self.types.frozen
    }

    /// Create a parser over a token stream.
    pub fn new(
        tokens: Vec<Token>,
        strings: Vec<Vec<u32>>,
        floats: FloatTable,
        preprocess: bool,
        hidden: HiddenNames,
        names: Vec<Vec<u8>>,
    ) -> (r: Parser)
        requires
            tokens@.len() > 0,
            tokens@.last().kind == TokenKind::Eof,
        ensures
            r.inv(),
            r@ == initial_state(
                Input {
                    tokens: tokens@,
                    strings: string_views(strings@),
                    floats: floats@,
                    preprocess,
                    hidden,
                    names: name_views(names@),
                },
            ),
    {
        proof {
            reveal(Parser::view);
        }
        let mut scopes: Vec<ScopeFrame> = Vec::new();
        scopes.push(ScopeFrame::new());
        let r = Parser {
            tokens,
            strings,
            floats,
            preprocess,
            hidden,
            names,
            pos: 0,
            types: TypeStore::default(),
            locals: Vec::new(),
            functions: Vec::new(),
            active_function: None,
            active_brk_label: None,
            active_cont_label: None,
            active_switch: None,
            globals: Vec::new(),
            scopes,
            next_unique_label: 0,
            speculating: false,
            warnings: Vec::new(),
        };
        assert(r@.functions =~= Seq::<FunctionView>::empty());
        assert(r@.globals =~= Seq::<GlobalView>::empty());
        assert(r@.scopes =~= seq![empty_frame()]);
        r
    }

    /// Advance to the next token.
    pub fn advance(&mut self)
        requires
            old(self).inv(),
            cur(old(self)@) != TokenKind::Eof,
        ensures
            final(self).inv(),
            final(self)@ == adv(old(self)@),
    {
        proof {
            reveal(Parser::view);
        }
        let len: usize = self.tokens.len();
        assert(self.pos + 1 < len);
        self.pos += 1;
    }

    /// Return the current token.
    pub fn current(&self) -> (r: Token)
        requires
            self.inv(),
        ensures
            r.kind == cur(self@),
            r.span == here(self@),
    {
        proof {
            reveal(Parser::view);
        }
        self.tokens[self.pos]
    }

    /// Return where the current token stands.
    pub fn here(&self) -> (r: SourceSpan)
        requires
            self.inv(),
        ensures
            r == here(self@),
    {
        proof {
            reveal(Parser::view);
        }
        self.tokens[self.pos].span
    }

    /// Return whether the current token is the given punctuator.
    pub fn at(&self, punct: Punct) -> (r: bool)
        requires
            self.inv(),
        ensures
            r == at(self@, punct),
    {
        proof {
            reveal(Parser::view);
        }
        self.tokens[self.pos].is_punct(punct)
    }

    /// Return whether the current token is the given keyword.
    pub fn at_keyword(&self, keyword: Keyword) -> (r: bool)
        requires
            self.inv(),
        ensures
            r == at_kw(self@, keyword),
    {
        proof {
            reveal(Parser::view);
        }
        self.tokens[self.pos].is_keyword(keyword)
    }

    /// Return the current identifier, if it is one.
    pub fn ident(&self) -> (r: Option<Symbol>)
        requires
            self.inv(),
        ensures
            r == ident_at(self@),
    {
        proof {
            reveal(Parser::view);
        }
        self.tokens[self.pos].as_ident()
    }

    /// Return whether the token after the current one is the given punctuator.
    pub fn next_is(&self, punct: Punct) -> (r: bool)
        requires
            self.inv(),
        ensures
            r == next_is(self@, punct),
    {
        proof {
            reveal(Parser::view);
        }
        let len: usize = self.tokens.len();
        self.pos < len - 1 && self.tokens[self.pos + 1].is_punct(punct)
    }

    /// Return an error diagnostic at the current token.
    pub fn error_current(&self, message: Message) -> (r: Error)
        requires
            self.inv(),
        ensures
            r == Error::Terminate(here(self@), message),
    {
        proof {
            reveal(Parser::view);
        }
        Error::Terminate(self.here(), message)
    }

    /// Emit a warning message at the given place.
    pub fn warn_at(&mut self, span: SourceSpan, message: Message)
        requires
            old(self).inv(),
        ensures
            final(self).inv(),
            final(self)@ == warned(old(self)@, span, message),
    {
        proof {
            reveal(Parser::view);
        }
        if !self.speculating {
            self.warnings.push(Warning { span, message });
        }
    }

    /// Emit a warning message at the current token.
    pub fn warn_current(&mut self, message: Message)
        requires
            old(self).inv(),
        ensures
            final(self).inv(),
            final(self)@ == warned(old(self)@, here(old(self)@), message),
    {
        proof {
            reveal(Parser::view);
        }
        let span = self.here();
        self.warn_at(span, message);
    }

    /// Generate a unique label.
    pub fn unique_label(&mut self) -> (r: Result<usize, Error>)
        requires
            old(self).inv(),
        ensures
            final(self).inv(),
            fresh_label(old(self)@) == (Out { st: final(self)@, r }),
    {
        proof {
            reveal(Parser::view);
        }
        if self.next_unique_label == usize::MAX {
            return Err(Error::Overflow);
        }
        let label: usize = self.next_unique_label;
        self.next_unique_label += 1;
        Ok(label)
    }

    /// Assume and skip a specific punctuator.
    pub fn skip_punct(&mut self, expected: Punct) -> (r: Result<(), Error>)
        requires
            old(self).inv(),
        ensures
            final(self).inv(),
            skip_punct(old(self)@, expected) == (Out { st: final(self)@, r }),
            final(self)@ == (if r is Ok {
                adv(old(self)@)
            } else {
                old(self)@
            }),
            r is Ok ==> rem(final(self)@) < rem(old(self)@),
    {
        proof {
            reveal(skip_punct);
            reveal(Parser::view);
        }
        if !self.at(expected) {
            return Err(self.error_current(Message::ExpectedPunct(expected)));
        }
        self.advance();
        Ok(())
    }

    /// Maybe skip the end of a braced list.
    ///
    /// A braced list ends with either "}" or "," + "}". If we are not at such
    /// an end sequence, this returns false and does nothing. Otherwise, this
    /// returns true, and optionally skips over that sequence if `skip` is true.
    pub fn maybe_skip_list_end(&mut self, skip: bool) -> (r: bool)
        requires
            old(self).inv(),
        ensures
            final(self).inv(),
            r == at_list_end(old(self)@),
            final(self)@ == (if r && skip {
                past_list_end(old(self)@)
            } else {
                old(self)@
            }),
    {
        proof {
            reveal(Parser::view);
        }
        if self.at(Punct::RBrace) {
            if skip {
                self.advance();
            }
            return true;
        }
        if self.at(Punct::Comma) && self.next_is(Punct::RBrace) {
            if skip {
                self.advance();
                self.advance();
            }
            return true;
        }
        false
    }

    /// Return the type that the current identifier is a typedef name of.
    pub fn typedef_name(&self) -> (r: Option<Type>)
        requires
            self.inv(),
        ensures
            r == typedef_at(self@),
    {
        proof {
            reveal(Parser::view);
        }
        match self.ident() {
            Some(name) => match find_ident(&self.scopes, name) {
                Some(OrdinaryIdent::Typedef(ty)) => Some(ty),
                _ => None,
            },
            None => None,
        }
    }

    /// Return whether the current token can be interpreted as a typename.
    pub fn at_typename(&self) -> (r: bool)
        requires
            self.inv(),
        ensures
            r == at_typename(self@),
    {
        proof {
            reveal(at_typename);
            reveal(Parser::view);
        }
        if self.tokens[self.pos].is_typename_keyword() {
            return true;
        }
        self.typedef_name().is_some()
    }

    /// Begin an operation that will be rolled back.
    pub fn begin_speculation(&mut self) -> (r: Checkpoint)
        requires
            old(self).inv(),
        ensures
            final(self).inv(),
            final(self)@ == speculation(old(self)@),
            checkpoint_of(r, old(self)@),
    {
        proof {
            reveal(Parser::view);
        }
        let cp = Checkpoint {
            pos: self.pos,
            types: self.types.len(),
            locals: self.locals.len(),
            functions: self.functions.len(),
            globals: self.globals.len(),
            scopes: self.scopes.len(),
            speculating: self.speculating,
        };
        self.enter_scope();
        self.speculating = true;
        cp
    }

    /// Roll back everything that happened since the given checkpoint.
    pub fn end_speculation(&mut self, cp: Checkpoint, Ghost(before): Ghost<ParserState>)
        requires
            old(self).inv(),
            checkpoint_of(cp, before),
            0 <= before.pos < before.input.tokens.len(),
            before.scopes.len() >= 1,
            keeps(speculation(before), old(self)@, false),
        ensures
            final(self).inv(),
            final(self)@ == rolled_back(before, old(self)@),
            pauses(before, final(self)@, true),
    {
        proof {
            reveal(Parser::view);
        }
        self.pos = cp.pos;
        self.types.truncate(cp.types);
        self.locals.truncate(cp.locals);
        self.functions.truncate(cp.functions);
        self.globals.truncate(cp.globals);
        self.scopes.truncate(cp.scopes);
        self.speculating = cp.speculating;
        let ghost want = rolled_back(before, old(self)@);
        assert(self@.types =~= want.types);
        assert(self@.locals =~= want.locals);
        assert(self@.functions =~= want.functions);
        assert(self@.globals =~= want.globals);
        assert(self@.scopes =~= want.scopes);
    }

    /// Enter a new variable scope.
    pub fn enter_scope(&mut self)
        requires
            old(self).inv(),
        ensures
            final(self).inv(),
            final(self)@ == in_scope(old(self)@),
    {
        proof {
            reveal(Parser::view);
        }
        self.scopes.push(ScopeFrame::new());
        assert(self@.scopes =~= in_scope(old(self)@).scopes);
    }

    /// Leave the current variable scope.
    pub fn leave_scope(&mut self)
        requires
            old(self).inv(),
            old(self)@.scopes.len() > 1,
        ensures
            final(self).inv(),
            final(self)@ == out_of_scope(old(self)@),
    {
        proof {
            reveal(Parser::view);
        }
        let _ = self.scopes.pop();
        assert(self@.scopes =~= out_of_scope(old(self)@).scopes);
    }

    /// Push an ordinary identifier into the current scope.
    pub fn push_scope_ident(&mut self, name: Symbol, ident: OrdinaryIdent)
        requires
            old(self).inv(),
        ensures
            final(self).inv(),
            final(self)@ == bound(old(self)@, name, ident),
    {
        proof {
            reveal(Parser::view);
        }
        let last: usize = self.scopes.len() - 1;
        self.scopes[last].bind_ident(name, ident);
        assert(self@.scopes =~= bound(old(self)@, name, ident).scopes);
    }

    /// Push a struct or union tag into the current scope.
    pub fn push_scope_tag(&mut self, name: Symbol, ty: Type)
        requires
            old(self).inv(),
        ensures
            final(self).inv(),
            final(self)@ == tagged(old(self)@, name, ty),
    {
        proof {
            reveal(Parser::view);
        }
        let last: usize = self.scopes.len() - 1;
        self.scopes[last].bind_tag(name, ty);
        assert(self@.scopes =~= tagged(old(self)@, name, ty).scopes);
    }

    /// Find an ordinary identifier by name.
    pub fn find_ident(&self, name: Symbol) -> (r: Option<OrdinaryIdent>)
        ensures
            r == visible_ident(self@.scopes, name),
    {
        proof {
            reveal(Parser::view);
        }
        find_ident(&self.scopes, name)
    }

    /// Find an ordinary identifier in the current scope only.
    pub fn find_ident_current(&self, name: Symbol) -> (r: Option<OrdinaryIdent>)
        requires
            self.inv(),
        ensures
            r == ident_in(self@.scopes.last(), name),
    {
        proof {
            reveal(Parser::view);
        }
        self.scopes[self.scopes.len() - 1].ident(name)
    }

    /// Find a struct or union tag by name.
    pub fn find_tag(&self, tag: Symbol) -> (r: Option<Type>)
        ensures
            r == visible_tag(self@.scopes, tag),
    {
        proof {
            reveal(Parser::view);
        }
        find_tag(&self.scopes, tag)
    }

    /// Find a struct or union tag in the current scope only.
    pub fn find_tag_current(&self, tag: Symbol) -> (r: Option<Type>)
        requires
            self.inv(),
        ensures
            r == tag_in(self@.scopes.last(), tag),
    {
        proof {
            reveal(Parser::view);
        }
        self.scopes[self.scopes.len() - 1].tag(tag)
    }

    /// Create a new local variable.
    pub fn create_local(&mut self, name: Option<Symbol>, ty: Type, align: Option<u64>) -> (r: usize)
        requires
            old(self).inv(),
        ensures
            final(self).inv(),
            r == old(self)@.locals.len(),
            final(self)@ == with_local(old(self)@, name, ty, align),
    {
        proof {
            reveal(Parser::view);
        }
        let id: usize = self.locals.len();
        self.locals.push(LocalVar { ty, align, offset: 0 });
        if let Some(name) = name {
            self.push_scope_ident(name, OrdinaryIdent::Local(id));
        }
        id
    }

    /// Create a new global variable.
    pub fn create_global(
        &mut self,
        name: Name,
        ty: Type,
        align: Option<u64>,
        storage: GlobalStorage,
        is_static: bool,
    ) -> (r: usize)
        requires
            old(self).inv(),
        ensures
            final(self).inv(),
            r == old(self)@.globals.len(),
            final(self)@ == with_global(
                old(self)@,
                GlobalView { name, ty, align, storage: storage@, is_static },
            ),
    {
        proof {
            reveal(Parser::view);
        }
        let id: usize = self.globals.len();
        let ghost st = old(self)@;
        let ghost view = GlobalView { name, ty, align, storage: storage@, is_static };
        self.globals.push(GlobalVar { name, ty, align, storage, is_static });
        assert(self@.globals =~= st.globals.push(view));
        if let Name::Ident(name) = name {
            self.push_scope_ident(name, OrdinaryIdent::Global(id, true));
        }
        id
    }

    /// Declare a new global variable.
    ///
    /// This is similar to [`Parser::create_global`], but it attempts to reuse
    /// an existing global declaration with the same name, if any and if
    /// compatible. Note also that the caller should specify `storage` as
    /// [`GlobalStorage::Decl`] only for "extern".
    pub fn declare_global(
        &mut self,
        name: Symbol,
        ty: Type,
        align: Option<u64>,
        storage: GlobalStorage,
        is_static: bool,
        span: SourceSpan,
    ) -> (r: Result<usize, Error>)
        requires
            old(self).inv(),
        ensures
            final(self).inv(),
            declare_global(old(self)@, name, ty, align, storage@, is_static, span) == (Out {
                st: final(self)@,
                r,
            }),
            pauses(old(self)@, final(self)@, true),
    {
        proof {
            reveal(declare_global);
            reveal(Parser::view);
        }
        let found: Option<usize> = match self.find_ident_current(name) {
            // Reuse same-scope linkage-bearing global declaration
            Some(OrdinaryIdent::Global(id, true)) => Some(id),
            // Conflict with same-scope object that has no linkage
            Some(OrdinaryIdent::Global(_, false)) | Some(OrdinaryIdent::Local(_)) => {
                return Err(Error::Terminate(span, Message::ExternAfterNoLinkage));
            },
            Some(_) => {
                return Err(Error::Terminate(span, Message::DifferentKindOfSymbol));
            },
            // Reuse linkage-bearing globals from outer scopes if any
            None => find_outer_global(&self.scopes, name),
        };
        let Some(id) = found else {
            return Ok(self.create_global(Name::Ident(name), ty, align, storage, is_static));
        };
        if id >= self.globals.len() {
            return Err(Error::Overflow);
        }
        let old_ty = self.globals[id].ty;
        let Some(ty) = self.types.merge(old_ty, ty) else {
            return Err(Error::Terminate(span, Message::ConflictingTypes));
        };
        let was_static = self.globals[id].is_static;
        if was_static && !is_static && !matches!(storage, GlobalStorage::Decl) {
            // A non-static extern can follow a static declaration
            return Err(Error::Terminate(span, Message::NonStaticAfterStatic));
        }
        if !was_static && is_static {
            return Err(Error::Terminate(span, Message::StaticAfterNonStatic));
        }
        let ghost st = self@;
        if self.globals[id].storage.merge(storage) {
            assert(self@.globals =~= st.globals);
            return Err(Error::Terminate(span, Message::RedefinitionOfGlobal));
        }
        let align = larger_align(self.globals[id].align, align);
        self.globals[id].ty = ty;
        self.globals[id].align = align;
        assert(self@.globals =~= st.globals.update(
            id as int,
            GlobalView {
                ty,
                align,
                storage: crate::ast::merged_storage(
                    st.globals[id as int].storage,
                    storage@,
                ).unwrap(),
                ..st.globals[id as int]
            },
        ));
        // Rebind the reused global in current scope
        self.push_scope_ident(name, OrdinaryIdent::Global(id, true));
        Ok(id)
    }

    /// Create a new function declaration.
    ///
    /// If the function is also defined, relevant fields need to be filled in
    /// later, looked up via the returned ID.
    pub fn create_function(&mut self, name: Symbol, ty: Type, noreturn: bool) -> (r: usize)
        requires
            old(self).inv(),
        ensures
            final(self).inv(),
            r == old(self)@.functions.len(),
            final(self)@ == with_function(old(self)@, name, ty, noreturn),
    {
        proof {
            reveal(Parser::view);
        }
        let id: usize = self.functions.len();
        let ghost st = old(self)@;
        let function = Function {
            name,
            ty,
            body: None,
            param_locals: Vec::new(),
            ret_buf_local: None,
            va_area_local: None,
            locals: Vec::new(),
            is_static: false,
            noreturn,
        };
        assert(function@ == declared_function(name, ty, noreturn));
        self.functions.push(function);
        assert(self@.functions =~= st.functions.push(declared_function(name, ty, noreturn)));
        self.push_scope_ident(name, OrdinaryIdent::Function(id));
        id
    }

    /// Declare a new function declaration.
    ///
    /// This is similar to [`Parser::create_function`], but it attempts to reuse
    /// an existing function declaration with the same name, if any and if
    /// compatible.
    pub fn declare_function(&mut self, name: Symbol, ty: Type, noreturn: bool, span: SourceSpan) -> (r:
        Result<usize, Error>)
        requires
            old(self).inv(),
        ensures
            final(self).inv(),
            declare_function(old(self)@, name, ty, noreturn, span) == (Out { st: final(self)@, r }),
            pauses(old(self)@, final(self)@, true),
    {
        proof {
            reveal(declare_function);
            reveal(Parser::view);
        }
        let found: Option<usize> = match self.find_ident_current(name) {
            // Reuse same-scope function declaration
            Some(OrdinaryIdent::Function(id)) => Some(id),
            Some(_) => {
                return Err(Error::Terminate(span, Message::DifferentKindOfSymbol));
            },
            // Reuse function declarations from outer scopes if any
            None => find_outer_function(&self.scopes, name),
        };
        let Some(id) = found else {
            return Ok(self.create_function(name, ty, noreturn));
        };
        if id >= self.functions.len() {
            return Err(Error::Overflow);
        }
        let old_ty = self.functions[id].ty;
        if !self.types.same_type(old_ty, ty) {
            return Err(Error::Terminate(span, Message::ConflictingTypes));
        }
        let ghost st = self@;
        let noreturn = self.functions[id].noreturn || noreturn;
        self.functions[id].noreturn = noreturn;
        assert(self@.functions =~= st.functions.update(
            id as int,
            FunctionView { noreturn, ..st.functions[id as int] },
        ));
        self.push_scope_ident(name, OrdinaryIdent::Function(id));
        Ok(id)
    }

    /// Store an array type, unless it is too large.
    pub fn new_array(&mut self, base: Type, len: Option<usize>, span: SourceSpan) -> (r: Result<
        Type,
        Error,
    >)
        requires
            old(self).inv(),
        ensures
            final(self).inv(),
            new_array(old(self)@, base, len, span) == (Out { st: final(self)@, r }),
    {
        proof {
            reveal(Parser::view);
        }
        match self.types.array(base, len) {
            Some(ty) => Ok(ty),
            None => Err(Error::Terminate(span, Message::TypeTooLarge)),
        }
    }

    /// Store a pointer type.
    pub fn new_ptr(&mut self, base: Type) -> (r: Type)
        requires
            old(self).inv(),
        ensures
            final(self).inv(),
            r == next_type(old(self)@.types),
            final(self)@ == with_types(old(self)@, with_ptr(old(self)@.types, base)),
    {
        proof {
            reveal(Parser::view);
        }
        self.types.ptr(base)
    }

    /// Store the common type of two operands.
    pub fn coerce(&mut self, lhs: Type, rhs: Type) -> (r: Type)
        requires
            old(self).inv(),
        ensures
            final(self).inv(),
            r == coerced(old(self)@.types, lhs, rhs).1,
            final(self)@ == with_types(old(self)@, coerced(old(self)@.types, lhs, rhs).0),
    {
        proof {
            reveal(Parser::view);
        }
        self.types.coerce(lhs, rhs)
    }

    /// Return what a function, or a pointer to one if `accept_ptr`, returns.
    pub fn return_type(&self, ty: Type, accept_ptr: bool) -> (r: Option<Type>)
        ensures
            r == return_of(self@.types, ty, accept_ptr),
    {
        proof {
            reveal(Parser::view);
        }
        match self.types.as_func(ty, accept_ptr) {
            Some(func) => Some(func.return_ty),
            None => None,
        }
    }

    /// Return the type of a local variable.
    pub fn local_type(&self, id: usize) -> (r: Type)
        ensures
            r == local_ty(self@, id),
    {
        proof {
            reveal(Parser::view);
        }
        if id < self.locals.len() {
            self.locals[id].ty
        } else {
            Type::Dummy
        }
    }

    /// Return the type of a global variable.
    pub fn global_type(&self, id: usize) -> (r: Type)
        ensures
            r == global_ty(self@, id),
    {
        proof {
            reveal(Parser::view);
        }
        if id < self.globals.len() {
            self.globals[id].ty
        } else {
            Type::Dummy
        }
    }

    /// Return the type of a function.
    pub fn function_type(&self, id: usize) -> (r: Type)
        ensures
            r == function_ty(self@, id),
    {
        proof {
            reveal(Parser::view);
        }
        if id < self.functions.len() {
            self.functions[id].ty
        } else {
            Type::Dummy
        }
    }

    /// Return the base type for arrays and pointers.
    pub fn base(&self, ty: Type) -> (r: Option<Type>)
        ensures
            r == base_of(self@.types, ty),
    {
        proof {
            reveal(Parser::view);
        }
        self.types.base(ty)
    }

    /// Return the array type if it is one.
    pub fn as_array(&self, ty: Type) -> (r: Option<ArrayTypeData>)
        ensures
            r == array_of(self@.types, ty),
    {
        proof {
            reveal(Parser::view);
        }
        self.types.as_array(ty)
    }

    /// Return the size of the type in bytes.
    pub fn size(&self, ty: Type) -> (r: u64)
        ensures
            r == size_of(self@.types, ty),
    {
        proof {
            reveal(Parser::view);
        }
        self.types.size(ty)
    }

    /// Return the byte alignment of the type.
    pub fn align(&self, ty: Type) -> (r: u64)
        ensures
            r == align_of(self@.types, ty),
    {
        proof {
            reveal(Parser::view);
        }
        self.types.align(ty)
    }

    /// Return whether the type is a function.
    pub fn is_func(&self, ty: Type) -> (r: bool)
        ensures
            r == is_func_ty(self@.types, ty),
    {
        proof {
            reveal(Parser::view);
        }
        self.types.is_func(ty)
    }

    /// Return whether the type is a pointer.
    pub fn is_ptr(&self, ty: Type) -> (r: bool)
        ensures
            r == is_ptr_ty(self@.types, ty),
    {
        proof {
            reveal(Parser::view);
        }
        self.types.is_ptr(ty)
    }

    /// Return whether the type is a struct or union.
    pub fn is_struct_or_union(&self, ty: Type) -> (r: bool)
        ensures
            r == is_sou_ty(self@.types, ty),
    {
        proof {
            reveal(Parser::view);
        }
        self.types.is_struct_or_union(ty)
    }

    /// Return whether the type is incomplete.
    pub fn is_incomplete(&self, ty: Type) -> (r: bool)
        ensures
            r == is_incomplete_ty(self@.types, ty),
    {
        proof {
            reveal(Parser::view);
        }
        self.types.is_incomplete(ty)
    }

    /// Return the compile-time type that stands for the type.
    pub fn to_const(&self, ty: Type) -> (r: Option<ConstType>)
        ensures
            r == const_of(self@.types, ty),
    {
        proof {
            reveal(Parser::view);
        }
        self.types.to_const(ty)
    }
}

/// What a function, or a pointer to one if `accept_ptr`, returns.
pub open spec fn return_of(types: Types, ty: Type, accept_ptr: bool) -> Option<Type> {
    match func_of(types, ty, accept_ptr) {
        Some(TypeForm::Func { return_ty, .. }) => Some(return_ty),
        _ => None,
    }
}

pub open spec fn local_ty(st: ParserState, id: usize) -> Type {
    if id < st.locals.len() {
        st.locals[id as int].ty
    } else {
        Type::Dummy
    }
}

pub open spec fn global_ty(st: ParserState, id: usize) -> Type {
    if id < st.globals.len() {
        st.globals[id as int].ty
    } else {
        Type::Dummy
    }
}

pub open spec fn function_ty(st: ParserState, id: usize) -> Type {
    if id < st.functions.len() {
        st.functions[id as int].ty
    } else {
        Type::Dummy
    }
}

/// The larger of two alignment overrides, where none is least.
pub fn larger_align(a: Option<u64>, b: Option<u64>) -> (r: Option<u64>)
    ensures
        r == max_align(a, b),
{
    match (a, b) {
        (Some(x), Some(y)) => if x < y {
            b
        } else {
            a
        },
        (None, _) => b,
        (_, None) => a,
    }
}

} // verus!
