//! Expansion of macros.

use vstd::prelude::*;
use rustc_hash::{FxHashMap, FxHashSet};
use crate::ascii;
use crate::error::{Error, Message, Warning};
use crate::maps::{
    map_get, map_insert, map_new, set_contains, set_insert, set_intersection, set_new, set_union,
};
use crate::names::{interned, name_views, Names};
use crate::preprocess::stream::{copy_tokens, stream_of, TokenStream};
use crate::source::{
    copy_bytes, file_line_col_of, spliced, text_bytes, with_virtual, SourceMap, SourceSpan,
    SourceView,
};
use crate::tokenize::{synthetic_token, PreToken, PreTokenKind, Punct};
use crate::tokenize::lower::spelling_of;
use crate::tokenize::scan::{literal_end, tokenized, tokens_in, Tokenizer};
use crate::types::Symbol;
use crate::utils::{digits, push_bytes, push_digits};

verus! {

/// Handler for builtin macros that cannot be represented as simple replacement.
#[derive(Clone, Copy, Debug, PartialEq, Eq, Structural)]
pub enum MacroHandler {
    File,
    Line,
}

/// A macro definition.
pub struct Macro {
    pub body: Vec<PreToken>,
    /// The parameters of a function-like macro.
    ///
    /// The macro is object-like if this is `None`.
    pub params: Option<Vec<Symbol>>,
    /// Whether a function-like macro is variadic.
    pub is_variadic: bool,
    /// A [`MacroHandler`], if applicable.
    ///
    /// If this is given, the other fields are ignored and the macro is expanded
    /// by calling the handler rather than going through normal replacement.
    pub handler: Option<MacroHandler>,
}

/// The mathematical form of [`Macro`].
pub struct MacroView {
    pub body: Seq<PreToken>,
    pub params: Option<Seq<Symbol>>,
    pub is_variadic: bool,
    pub handler: Option<MacroHandler>,
}

/// The parameters of a macro, if it is function-like.
pub open spec fn params_view(params: Option<Vec<Symbol>>) -> Option<Seq<Symbol>> {
    match params {
        Some(params) => Some(params@),
        None => None,
    }
}

impl Macro {
    pub open spec fn view(&self) -> MacroView {
        MacroView {
            body: self.body@,
            params: params_view(self.params),
            is_variadic: self.is_variadic,
            handler: self.handler,
        }
    }
}

/// What macro expansion works on.
pub struct Expansion {
    pub sources: Seq<SourceView>,
    pub names: Seq<Seq<u8>>,
    /// The spellings of synthetic tokens.
    pub spellings: Seq<Seq<u8>>,
    /// The sets of names that tokens must not be expanded by.
    pub hidesets: Seq<Set<usize>>,
    /// The macros that were ever defined.
    pub defs: Seq<MacroView>,
    /// The macros that are defined, by name.
    pub macros: Map<usize, usize>,
    pub warnings: Seq<Warning>,
}

/// A step of macro expansion: what it leaves behind, and its result.
pub struct XOut<T> {
    pub st: Expansion,
    pub r: Result<T, Error>,
}

/// The spelling of a token.
pub open spec fn spell(st: Expansion, token: PreToken) -> Seq<u8> {
    spelling_of(st.sources, st.spellings, token)
}

/// Whether a token must not be expanded by a macro of this name.
pub open spec fn hidden(st: Expansion, token: PreToken, name: Symbol) -> bool {
    hideset_of(st, token).contains(name.0)
}

/// The names that a token must not be expanded by.
pub open spec fn hideset_of(st: Expansion, token: PreToken) -> Set<usize> {
    match token.hideset {
        Some(k) => if k < st.hidesets.len() {
            st.hidesets[k as int]
        } else {
            Set::empty()
        },
        None => Set::empty(),
    }
}

/// The macro of a name, if one is defined.
pub open spec fn macro_named(st: Expansion, name: Symbol) -> Option<MacroView> {
    if st.macros.contains_key(name.0) && st.macros[name.0] < st.defs.len() {
        Some(st.defs[st.macros[name.0] as int])
    } else {
        None
    }
}

/// Where a token stands in the source that it was expanded from.
pub open spec fn origin_of(token: PreToken) -> SourceSpan {
    match token.origin {
        Some(span) => span,
        None => token.span,
    }
}

/// The first `n` bytes with a backslash before each backslash and quote.
pub open spec fn escaped(bytes: Seq<u8>, n: nat) -> Seq<u8>
    decreases n,
{
    if n == 0 {
        Seq::empty()
    } else {
        let b = bytes[n - 1];
        let before = escaped(bytes, (n - 1) as nat);
        if b == ascii::BACKSLASH || b == ascii::DQUOTE {
            before.push(ascii::BACKSLASH).push(b)
        } else {
            before.push(b)
        }
    }
}

proof fn escaped_bytes_do_not_close(bytes: Seq<u8>, n: nat, text: Seq<u8>, start: int)
    requires
        n <= bytes.len(),
        forall|k: int|
            0 <= k < bytes.len() ==> #[trigger] bytes[k] != ascii::NEWLINE && bytes[k] != 0,
        0 <= start,
        start + escaped(bytes, n).len() < text.len(),
        forall|k: int|
            0 <= k < escaped(bytes, n).len() ==> #[trigger] text[start + k] == escaped(bytes, n)[k],
    ensures
        literal_end(text, start, ascii::DQUOTE) == literal_end(
            text,
            start + escaped(bytes, n).len(),
            ascii::DQUOTE,
        ),
    decreases n,
{
    if n > 0 {
        let m = (n - 1) as nat;
        let before = escaped(bytes, m);
        let all = escaped(bytes, n);
        let b = bytes[m as int];
        assert forall|k: int| 0 <= k < before.len() implies #[trigger] text[start + k] == before[k] by {
            assert(text[start + k] == all[k]);
        }
        escaped_bytes_do_not_close(bytes, m, text, start);
        let at = start + before.len();
        assert(text[start + before.len()] == all[before.len() as int]);
        if b == ascii::BACKSLASH || b == ascii::DQUOTE {
            assert(text[start + (before.len() as int + 1)] == all[before.len() as int + 1]);
            assert(text[at] == ascii::BACKSLASH && text[at + 1] == b);
            assert(literal_end(text, at, ascii::DQUOTE) == literal_end(
                text,
                at + 2,
                ascii::DQUOTE,
            ));
        } else {
            assert(text[at] == b);
            assert(literal_end(text, at, ascii::DQUOTE) == literal_end(
                text,
                at + 1,
                ascii::DQUOTE,
            ));
        }
    }
}

/// Text that was escaped and put between quotes is one string literal: no quote
/// in the text closes it.
pub proof fn escaped_text_is_one_literal(bytes: Seq<u8>)
    requires
        forall|k: int|
            0 <= k < bytes.len() ==> #[trigger] bytes[k] != ascii::NEWLINE && bytes[k] != 0,
    ensures
        ({
            let inner = escaped(bytes, bytes.len());
            literal_end(seq![ascii::DQUOTE] + inner + seq![ascii::DQUOTE], 1, ascii::DQUOTE) == (
                1 + inner.len() as int,
                true,
            )
        }),
{
    let inner = escaped(bytes, bytes.len());
    let text = seq![ascii::DQUOTE] + inner + seq![ascii::DQUOTE];
    assert forall|k: int| 0 <= k < inner.len() implies #[trigger] text[1 + k] == inner[k] by {}
    escaped_bytes_do_not_close(bytes, bytes.len(), text, 1);
}

/// A token with a spelling of its own.
pub open spec fn synthesized(
    st: Expansion,
    kind: PreTokenKind,
    span: SourceSpan,
    like: PreToken,
    spelling: Seq<u8>,
) -> XOut<PreToken> {
    XOut {
        st: Expansion { spellings: st.spellings.push(spelling), ..st },
        r: Ok(
            synthetic_token(
                kind,
                span,
                like.at_bol,
                like.follows_space,
                st.spellings.len() as usize,
            ),
        ),
    }
}

/// What a macro handler makes of a token: the name of the file that the token
/// stands in as a string, or the line that it stands in.
#[verifier::opaque]
pub open spec fn handle(st: Expansion, handler: MacroHandler, token: PreToken) -> XOut<PreToken> {
    let span = origin_of(token);
    match handler {
        MacroHandler::File => if span.id < st.sources.len() {
            let name = vstd::utf8::encode_utf8(st.sources[span.id as int].name);
            synthesized(
                st,
                PreTokenKind::StrLit,
                span,
                token,
                seq![ascii::DQUOTE] + escaped(name, name.len()) + seq![ascii::DQUOTE],
            )
        } else {
            XOut { st, r: Err(Error::Overflow) }
        },
        MacroHandler::Line => match file_line_col_of(st.sources, span) {
            Some((_, line, _)) => synthesized(
                st,
                PreTokenKind::NumLit,
                span,
                token,
                digits(line as nat),
            ),
            None => XOut { st, r: Err(Error::Overflow) },
        },
    }
}

/// An argument of a function-like macro read, and what follows it.
///
/// It goes up to the "," or ")" that belongs to the call, where only ")" ends
/// the remaining arguments.
pub open spec fn read_arg(
    input: Seq<PreToken>,
    read_all: bool,
    span: SourceSpan,
    depth: nat,
    arg: Seq<PreToken>,
) -> Result<(Seq<PreToken>, Seq<PreToken>), Error>
    decreases input.len(),
{
    if input.len() == 0 {
        Err(Error::Overflow)
    } else {
        let token = input[0];
        let rparen = token.kind == PreTokenKind::Punct(Punct::RParen);
        let comma = token.kind == PreTokenKind::Punct(Punct::Comma);
        if depth == 0 && (rparen || (comma && !read_all)) {
            Ok((arg, input))
        } else if token.kind == PreTokenKind::Eof {
            Err(Error::Terminate(span, Message::UnterminatedMacroCall))
        } else {
            let depth = if token.kind == PreTokenKind::Punct(Punct::LParen) {
                depth + 1
            } else if rparen {
                (depth - 1) as nat
            } else {
                depth
            };
            read_arg(input.skip(1), read_all, span, depth, arg.push(token))
        }
    }
}

/// What the first `n` tokens of a macro argument look like in a string.
pub open spec fn stringized(st: Expansion, arg: Seq<PreToken>, n: nat) -> Seq<u8>
    decreases n,
{
    if n == 0 {
        Seq::empty()
    } else {
        let before = stringized(st, arg, (n - 1) as nat);
        let spaced = if n > 1 && arg[n - 1].follows_space {
            before.push(ascii::SPACE)
        } else {
            before
        };
        spaced + escaped(spell(st, arg[n - 1]), spell(st, arg[n - 1]).len())
    }
}

/// The string that the "#" operator makes of a macro argument.
#[verifier::opaque]
pub open spec fn stringize(st: Expansion, hash: PreToken, arg: Seq<PreToken>) -> XOut<PreToken> {
    synthesized(
        st,
        PreTokenKind::StrLit,
        hash.span,
        hash,
        seq![ascii::DQUOTE] + stringized(st, arg, arg.len()) + seq![ascii::DQUOTE],
    )
}

/// Two tokens pasted together by the "##" operator.
#[verifier::opaque]
pub open spec fn paste(st: Expansion, lhs: PreToken, rhs: PreToken, span: SourceSpan) -> XOut<
    PreToken,
> {
    let pasted = spell(st, lhs) + spell(st, rhs);
    match with_virtual(st.sources, pasted, None) {
        None => XOut { st, r: Err(Error::Overflow) },
        Some(sources) => {
            let id = st.sources.len() as usize;
            let spelling = st.spellings.len() as usize;
            let t = tokenized(id, spliced(pasted), st.names, false, false);
            let st = Expansion {
                sources,
                names: t.names,
                spellings: st.spellings.push(pasted),
                ..st
            };
            match t.r {
                Err(_) => XOut {
                    st,
                    r: Err(Error::Terminate(span, Message::PasteInvalid(spelling, id))),
                },
                Ok(tokens) => if tokens.len() != 1 {
                    XOut { st, r: Err(Error::Terminate(span, Message::PasteMultiple(spelling))) }
                } else {
                    XOut {
                        st,
                        r: Ok(
                            synthetic_token(
                                tokens[0].kind,
                                lhs.span,
                                lhs.at_bol,
                                lhs.follows_space,
                                spelling,
                            ),
                        ),
                    }
                },
            }
        },
    }
}

/// The arguments of a call of a function-like macro.
pub struct ArgsView {
    /// The index of the argument of each parameter.
    pub params: Map<usize, usize>,
    pub lists: Seq<Seq<PreToken>>,
}

/// No arguments.
pub open spec fn no_args() -> ArgsView {
    ArgsView { params: Map::empty(), lists: Seq::empty() }
}

/// Some arguments with one more for a parameter.
pub open spec fn with_arg(args: ArgsView, param: Symbol, arg: Seq<PreToken>) -> ArgsView {
    ArgsView {
        params: args.params.insert(param.0, args.lists.len() as usize),
        lists: args.lists.push(arg),
    }
}

/// The argument of a parameter; none for the parameters of an object-like
/// macro, which has none.
pub open spec fn arg_of(args: Option<ArgsView>, token: PreToken) -> Option<Seq<PreToken>> {
    match (args, token.kind) {
        (Some(args), PreTokenKind::Ident(name)) => if args.params.contains_key(name.0)
            && args.params[name.0] < args.lists.len() {
            Some(args.lists[args.params[name.0] as int])
        } else {
            None
        },
        _ => None,
    }
}

/// Some tokens in the place of a token.
pub open spec fn placed(tokens: Seq<PreToken>, at: PreToken) -> Seq<PreToken> {
    if tokens.len() == 0 {
        tokens
    } else {
        tokens.update(
            0,
            PreToken { at_bol: at.at_bol, follows_space: at.follows_space, ..tokens[0] },
        )
    }
}

/// A token with its parameter, if it is one, replaced by the argument as it
/// stands.
pub open spec fn subst_plain(token: PreToken, args: Option<ArgsView>) -> Seq<PreToken> {
    match arg_of(args, token) {
        Some(arg) => placed(arg, token),
        None => seq![token],
    }
}

/// A part of a replacement list that was replaced, and where the next starts.
pub struct Piece {
    pub next: int,
    pub tokens: Seq<PreToken>,
}

/// The whole "a ## b ## ..." chain folded, if there is any at `k`.
///
/// Only the tokens at the boundary are pasted, e.g., "[a,b]" ## "[c,d]" becomes
/// "[a, paste(b,c), d]".
pub open spec fn paste_chain(
    st: Expansion,
    body: Seq<PreToken>,
    k: int,
    current: Seq<PreToken>,
    args: Option<ArgsView>,
) -> XOut<Piece>
    decreases body.len() - k,
{
    if k < 0 || k >= body.len() || body[k].kind != PreTokenKind::Punct(Punct::HashHash) {
        XOut { st, r: Ok(Piece { next: k, tokens: current }) }
    } else if k + 1 >= body.len() {
        XOut { st, r: Err(Error::Terminate(body[k].span, Message::PasteAtEnd)) }
    } else {
        let rhs = subst_plain(body[k + 1], args);
        if current.len() == 0 {
            paste_chain(st, body, k + 2, rhs, args)
        } else if rhs.len() == 0 {
            paste_chain(st, body, k + 2, current, args)
        } else {
            let o = paste(st, current.last(), rhs[0], body[k].span);
            match o.r {
                Err(e) => XOut { st: o.st, r: Err(e) },
                Ok(token) => paste_chain(
                    o.st,
                    body,
                    k + 2,
                    current.drop_last().push(token) + rhs.skip(1),
                    args,
                ),
            }
        }
    }
}

/// Arguments for the parameters from `index` on, read from the input, and what
/// follows them.
pub open spec fn args_from(
    params: Seq<Symbol>,
    index: int,
    args: ArgsView,
    input: Seq<PreToken>,
    span: SourceSpan,
) -> Result<(ArgsView, Seq<PreToken>), Error>
    decreases params.len() - index,
{
    if index >= params.len() {
        Ok((args, input))
    } else if input.len() == 0 {
        Err(Error::Overflow)
    } else if index > 0 && input[0].kind == PreTokenKind::Punct(Punct::RParen) {
        Err(Error::Terminate(input[0].span, Message::TooFewArgs(params.len() as usize)))
    } else {
        let input = if index > 0 {
            input.skip(1)
        } else {
            input
        };
        match read_arg(input, false, span, 0, Seq::empty()) {
            Err(e) => Err(e),
            Ok((arg, input)) => args_from(
                params,
                index + 1,
                with_arg(args, params[index], arg),
                input,
                span,
            ),
        }
    }
}

/// A call of a function-like macro: its arguments, the ")" that closes it, and
/// what follows it.
pub struct Call {
    pub args: ArgsView,
    pub rparen: PreToken,
    pub rest: Seq<PreToken>,
}

/// A call closed.
pub open spec fn call_closed(args: ArgsView, input: Seq<PreToken>) -> Result<Call, Error> {
    if input.len() == 0 {
        Err(Error::Overflow)
    } else {
        Ok(Call { args, rparen: input[0], rest: input.skip(1) })
    }
}

/// The variable arguments of a call read, which the parameter stands for.
pub open spec fn rest_args(
    params: Seq<Symbol>,
    va_args: Symbol,
    args: ArgsView,
    input: Seq<PreToken>,
    span: SourceSpan,
) -> Result<Call, Error> {
    if input.len() == 0 {
        Err(Error::Overflow)
    } else if input[0].kind == PreTokenKind::Punct(Punct::RParen) {
        call_closed(with_arg(args, va_args, Seq::empty()), input)
    } else {
        let input = if params.len() > 0 {
            input.skip(1)
        } else {
            input
        };
        match read_arg(input, true, span, 0, Seq::empty()) {
            Err(e) => Err(e),
            Ok((arg, input)) => call_closed(with_arg(args, va_args, arg), input),
        }
    }
}

/// The call of a function-like macro read, after its "(".
#[verifier::opaque]
pub open spec fn read_call(
    st: Expansion,
    params: Seq<Symbol>,
    is_variadic: bool,
    input: Seq<PreToken>,
    span: SourceSpan,
) -> XOut<Call> {
    match args_from(params, 0, no_args(), input, span) {
        Err(e) => XOut { st, r: Err(e) },
        Ok((args, input)) => if is_variadic {
            let (names, va_args) = interned(
                st.names,
                vstd::utf8::encode_utf8("__VA_ARGS__"@),
            );
            XOut {
                st: Expansion { names, ..st },
                r: rest_args(params, va_args, args, input, span),
            }
        } else if input.len() == 0 {
            XOut { st, r: Err(Error::Overflow) }
        } else if input[0].kind != PreTokenKind::Punct(Punct::RParen) {
            XOut {
                st,
                r: Err(
                    Error::Terminate(input[0].span, Message::TooManyArgs(params.len() as usize)),
                ),
            }
        } else {
            XOut { st, r: call_closed(args, input) }
        },
    }
}

/// Tokens from `k` on marked with where they come from, and with names that
/// they must not be expanded by, those of the set `base` among them.
pub open spec fn mark(
    hidesets: Seq<Set<usize>>,
    tokens: Seq<PreToken>,
    k: int,
    base: usize,
    origin: SourceSpan,
    out: Seq<PreToken>,
) -> (Seq<Set<usize>>, Seq<PreToken>)
    decreases tokens.len() - k,
{
    if k >= tokens.len() {
        (hidesets, out)
    } else {
        let token = PreToken { origin: Some(origin), ..tokens[k] };
        match token.hideset {
            Some(own) => if own < hidesets.len() && base < hidesets.len() {
                mark(
                    hidesets.push(hidesets[own as int].union(hidesets[base as int])),
                    tokens,
                    k + 1,
                    base,
                    origin,
                    out.push(PreToken { hideset: Some(hidesets.len() as usize), ..token }),
                )
            } else {
                mark(
                    hidesets,
                    tokens,
                    k + 1,
                    base,
                    origin,
                    out.push(PreToken { hideset: Some(base), ..token }),
                )
            },
            None => mark(
                hidesets,
                tokens,
                k + 1,
                base,
                origin,
                out.push(PreToken { hideset: Some(base), ..token }),
            ),
        }
    }
}

/// The replacement of a macro put before the input.
///
/// None of its tokens is expanded by a macro of the names in `base`, nor by
/// the same macro again.
#[verifier::opaque]
pub open spec fn finish(
    st: Expansion,
    token: PreToken,
    name: Symbol,
    base: Set<usize>,
    body: Seq<PreToken>,
    input: Seq<PreToken>,
) -> XOut<(bool, Seq<PreToken>)> {
    let (hidesets, tokens) = mark(
        st.hidesets.push(base.insert(name.0)),
        placed(body, token),
        0,
        st.hidesets.len() as usize,
        origin_of(token),
        Seq::empty(),
    );
    XOut { st: Expansion { hidesets, ..st }, r: Ok((true, tokens + input)) }
}

/// Marking gives every token a set that holds the names of `base`, and leaves
/// the sets that there were.
proof fn marked_tokens_are_hidden(
    hidesets: Seq<Set<usize>>,
    tokens: Seq<PreToken>,
    k: int,
    base: usize,
    origin: SourceSpan,
    out: Seq<PreToken>,
)
    requires
        0 <= k <= tokens.len(),
        base < hidesets.len(),
        hidesets.len() + (tokens.len() - k) <= usize::MAX,
        forall|i: int|
            0 <= i < out.len() ==> (#[trigger] out[i]).hideset is Some && out[i].hideset.unwrap()
                < hidesets.len() && hidesets[base as int].subset_of(
                hidesets[out[i].hideset.unwrap() as int],
            ),
    ensures
        ({
            let (sets, marked) = mark(hidesets, tokens, k, base, origin, out);
            &&& marked.len() == out.len() + (tokens.len() - k)
            &&& sets.len() >= hidesets.len()
            &&& sets.take(hidesets.len() as int) == hidesets
            &&& forall|i: int|
                0 <= i < marked.len() ==> (#[trigger] marked[i]).hideset is Some
                    && marked[i].hideset.unwrap() < sets.len() && hidesets[base as int].subset_of(
                    sets[marked[i].hideset.unwrap() as int],
                )
        }),
    decreases tokens.len() - k,
{
    if k < tokens.len() {
        let token = PreToken { origin: Some(origin), ..tokens[k] };
        let joined = token.hideset is Some && token.hideset.unwrap() < hidesets.len();
        let (next, marked) = if joined {
            (
                hidesets.push(
                    hidesets[token.hideset.unwrap() as int].union(hidesets[base as int]),
                ),
                PreToken { hideset: Some(hidesets.len() as usize), ..token },
            )
        } else {
            (hidesets, PreToken { hideset: Some(base), ..token })
        };
        marked_tokens_are_hidden(next, tokens, k + 1, base, origin, out.push(marked));
        let (sets, _) = mark(next, tokens, k + 1, base, origin, out.push(marked));
        assert(next.take(hidesets.len() as int) =~= hidesets);
        assert(sets.take(hidesets.len() as int) =~= sets.take(next.len() as int).take(
            hidesets.len() as int,
        ));
    } else {
        assert(hidesets.take(hidesets.len() as int) =~= hidesets);
    }
}

/// What a macro was replaced by is not expanded by the same macro again, nor by
/// one of the names in `base`.
pub proof fn replacement_hides_its_macro(
    st: Expansion,
    token: PreToken,
    name: Symbol,
    base: Set<usize>,
    body: Seq<PreToken>,
    input: Seq<PreToken>,
    i: int,
)
    requires
        st.hidesets.len() + 1 + body.len() <= usize::MAX,
        0 <= i < body.len(),
    ensures
        ({
            let o = finish(st, token, name, base, body, input);
            let rest = o.r->Ok_0.1;
            &&& o.r == Ok::<_, Error>((true, rest))
            &&& rest.len() == body.len() + input.len()
            &&& rest.skip(body.len() as int) == input
            &&& hidden(o.st, rest[i], name)
            &&& base.subset_of(hideset_of(o.st, rest[i]))
        }),
{
    reveal(finish);
    let hidesets = st.hidesets.push(base.insert(name.0));
    let k = st.hidesets.len() as usize;
    let tokens = placed(body, token);
    marked_tokens_are_hidden(hidesets, tokens, 0, k, origin_of(token), Seq::empty());
    let (sets, marked) = mark(hidesets, tokens, 0, k, origin_of(token), Seq::empty());
    assert((marked + input).skip(body.len() as int) =~= input);
    assert((marked + input)[i] == marked[i]);
    assert(hidesets[k as int].contains(name.0));
}

/// The names that the replacement of a function-like macro must not be
/// expanded by: those that neither the name nor the ")" of the call must be.
pub open spec fn call_base(st: Expansion, token: PreToken, rparen: PreToken) -> Set<usize> {
    if token.hideset is Some && rparen.hideset is Some {
        hideset_of(st, token).intersect(hideset_of(st, rparen))
    } else {
        Set::empty()
    }
}

/// A token of a replacement list with its parameter, if it is one, replaced by
/// the argument, after all macros in the argument were expanded if asked for.
pub open spec fn subst_param(
    n: nat,
    st: Expansion,
    token: PreToken,
    args: Option<ArgsView>,
    expand_arg: bool,
) -> XOut<Seq<PreToken>>
    decreases n, 1int, 0int,
{
    match arg_of(args, token) {
        Some(arg) => if arg.len() == 0 || !expand_arg {
            XOut { st, r: Ok(placed(arg, token)) }
        } else if n == 0 {
            XOut { st, r: Err(Error::Overflow) }
        } else {
            let o = expand_all((n - 1) as nat, st, arg);
            match o.r {
                Err(e) => XOut { st: o.st, r: Err(e) },
                Ok(tokens) => XOut { st: o.st, r: Ok(placed(tokens, token)) },
            }
        },
        None => XOut { st, r: Ok(seq![token]) },
    }
}

/// The first part of a replacement list from `k` on, up to a "##".
pub open spec fn first_piece(
    n: nat,
    st: Expansion,
    body: Seq<PreToken>,
    k: int,
    args: Option<ArgsView>,
) -> XOut<Piece>
    decreases n, 2int, 0int,
{
    let token = body[k];
    if token.kind == PreTokenKind::Punct(Punct::Hash) && args is Some {
        if k + 1 >= body.len() {
            XOut { st, r: Err(Error::Terminate(token.span, Message::HashNotParam)) }
        } else {
            match arg_of(args, body[k + 1]) {
                None => XOut {
                    st,
                    r: Err(Error::Terminate(body[k + 1].span, Message::HashNotParam)),
                },
                Some(arg) => {
                    let o = stringize(st, token, arg);
                    match o.r {
                        Err(e) => XOut { st: o.st, r: Err(e) },
                        Ok(token) => XOut {
                            st: o.st,
                            r: Ok(Piece { next: k + 2, tokens: seq![token] }),
                        },
                    }
                },
            }
        }
    } else if token.kind == PreTokenKind::Punct(Punct::HashHash) {
        XOut { st, r: Err(Error::Terminate(token.span, Message::PasteAtStart)) }
    } else {
        let pending = k + 1 < body.len() && body[k + 1].kind == PreTokenKind::Punct(
            Punct::HashHash,
        );
        let o = subst_param(n, st, token, args, !pending);
        match o.r {
            Err(e) => XOut { st: o.st, r: Err(e) },
            Ok(tokens) => XOut { st: o.st, r: Ok(Piece { next: k + 1, tokens }) },
        }
    }
}

/// The replacement list of a macro from `k` on, after what is replaced.
///
/// There are arguments for function-like macros only.
pub open spec fn replacement(
    n: nat,
    st: Expansion,
    body: Seq<PreToken>,
    k: int,
    args: Option<ArgsView>,
    out: Seq<PreToken>,
) -> XOut<Seq<PreToken>>
    decreases n, 3int, body.len() - k,
{
    if k < 0 || k >= body.len() {
        XOut { st, r: Ok(out) }
    } else {
        let o = first_piece(n, st, body, k, args);
        match o.r {
            Err(e) => XOut { st: o.st, r: Err(e) },
            Ok(piece) => {
                let o = paste_chain(o.st, body, piece.next, piece.tokens, args);
                match o.r {
                    Err(e) => XOut { st: o.st, r: Err(e) },
                    Ok(piece) => if k < piece.next <= body.len() {
                        replacement(n, o.st, body, piece.next, args, out + piece.tokens)
                    } else {
                        XOut { st: o.st, r: Err(Error::Overflow) }
                    },
                }
            },
        }
    }
}

/// An object-like macro expanded in the place of a token.
pub open spec fn expand_object(
    n: nat,
    st: Expansion,
    token: PreToken,
    name: Symbol,
    body: Seq<PreToken>,
    input: Seq<PreToken>,
) -> XOut<(bool, Seq<PreToken>)>
    decreases n, 4int, 0int,
{
    let o = replacement(n, st, body, 0, None, Seq::empty());
    match o.r {
        Err(e) => XOut { st: o.st, r: Err(e) },
        Ok(body) => finish(o.st, token, name, hideset_of(o.st, token), body, input),
    }
}

/// A function-like macro expanded in the place of a token and its arguments,
/// after the "(".
pub open spec fn expand_call(
    n: nat,
    st: Expansion,
    token: PreToken,
    name: Symbol,
    def: MacroView,
    params: Seq<Symbol>,
    input: Seq<PreToken>,
) -> XOut<(bool, Seq<PreToken>)>
    decreases n, 4int, 0int,
{
    let o = read_call(st, params, def.is_variadic, input, token.span);
    match o.r {
        Err(e) => XOut { st: o.st, r: Err(e) },
        Ok(call) => {
            let o = replacement(n, o.st, def.body, 0, Some(call.args), Seq::empty());
            match o.r {
                Err(e) => XOut { st: o.st, r: Err(e) },
                Ok(body) => finish(
                    o.st,
                    token,
                    name,
                    call_base(o.st, token, call.rparen),
                    body,
                    call.rest,
                ),
            }
        },
    }
}

/// A token expanded as a macro if it is one: whether it was, and the input
/// that follows, with the expansion in front.
pub open spec fn try_expand(n: nat, st: Expansion, token: PreToken, input: Seq<PreToken>) -> XOut<
    (bool, Seq<PreToken>),
>
    decreases n, 5int, 0int,
{
    match token.kind {
        PreTokenKind::Ident(name) => match macro_named(st, name) {
            Some(def) => if hidden(st, token, name) {
                XOut { st, r: Ok((false, input)) }
            } else if def.handler is Some {
                let o = handle(st, def.handler.unwrap(), token);
                match o.r {
                    Err(e) => XOut { st: o.st, r: Err(e) },
                    Ok(expanded) => XOut { st: o.st, r: Ok((true, seq![expanded] + input)) },
                }
            } else {
                match def.params {
                    None => expand_object(n, st, token, name, def.body, input),
                    Some(params) => if input.len() == 0 {
                        XOut { st, r: Err(Error::Overflow) }
                    } else if input[0].kind != PreTokenKind::Punct(Punct::LParen) {
                        XOut { st, r: Ok((false, input)) }
                    } else {
                        expand_call(n, st, token, name, def, params, input.skip(1))
                    },
                }
            },
            None => XOut { st, r: Ok((false, input)) },
        },
        _ => XOut { st, r: Ok((false, input)) },
    }
}

/// A token that hides a name is left alone by the macro of that name.
pub proof fn hidden_names_are_not_expanded(
    n: nat,
    st: Expansion,
    token: PreToken,
    name: Symbol,
    input: Seq<PreToken>,
)
    requires
        token.kind == PreTokenKind::Ident(name),
        hidden(st, token, name) || macro_named(st, name) is None,
    ensures
        try_expand(n, st, token, input) == (XOut { st, r: Ok((false, input)) }),
{
}

/// A function-like macro is expanded only where a "(" follows its name.
pub proof fn function_like_macros_need_a_call(
    n: nat,
    st: Expansion,
    token: PreToken,
    name: Symbol,
    input: Seq<PreToken>,
)
    requires
        token.kind == PreTokenKind::Ident(name),
        macro_named(st, name) is Some,
        macro_named(st, name).unwrap().handler is None,
        macro_named(st, name).unwrap().params is Some,
        input.len() > 0,
        input[0].kind != PreTokenKind::Punct(Punct::LParen),
    ensures
        try_expand(n, st, token, input) == (XOut { st, r: Ok((false, input)) }),
{
}

/// All macros in a stream expanded, up to its end, after what was expanded.
pub open spec fn expand_stream(
    n: nat,
    st: Expansion,
    input: Seq<PreToken>,
    out: Seq<PreToken>,
) -> XOut<
    Seq<PreToken>,
>
    decreases n, 6int, 0int,
{
    if input.len() == 0 || input[0].kind == PreTokenKind::Eof {
        XOut { st, r: Ok(out) }
    } else if n == 0 {
        XOut { st, r: Err(Error::Overflow) }
    } else {
        let o = try_expand((n - 1) as nat, st, input[0], input.skip(1));
        match o.r {
            Err(e) => XOut { st: o.st, r: Err(e) },
            Ok((true, rest)) => expand_stream((n - 1) as nat, o.st, rest, out),
            Ok((false, rest)) => expand_stream((n - 1) as nat, o.st, rest, out.push(input[0])),
        }
    }
}

/// All macros in some tokens expanded, in at most `n` steps of a nesting of at
/// most `n` arguments.
pub open spec fn expand_all(n: nat, st: Expansion, tokens: Seq<PreToken>) -> XOut<Seq<PreToken>>
    decreases n, 7int, 0int,
{
    match stream_of(tokens) {
        Some(input) => expand_stream(n, st, input, Seq::empty()),
        None => XOut { st, r: Err(Error::Overflow) },
    }
}

/// The macros of a list, each in its mathematical form.
pub open spec fn macro_views(defs: Seq<Macro>) -> Seq<MacroView> {
    Seq::new(defs.len(), |k: int| defs[k]@)
}

/// The sets of a list, each in its mathematical form.
pub open spec fn set_views(sets: Seq<FxHashSet<usize>>) -> Seq<Set<usize>> {
    Seq::new(sets.len(), |k: int| sets[k]@)
}

/// Helper struct for macro expansion utilities.
pub struct MacroExpander {
    pub source_map: SourceMap,
    pub names: Names,
    /// The spellings of synthetic tokens.
    pub spellings: Vec<Vec<u8>>,
    /// The sets of names that tokens must not be expanded by.
    pub hidesets: Vec<FxHashSet<usize>>,
    /// The macros that were ever defined.
    pub defs: Vec<Macro>,
    /// The macros that are defined, by name.
    pub macros: FxHashMap<usize, usize>,
    pub warnings: Vec<Warning>,
}

/// The arguments of a call of a function-like macro.
pub struct Args {
    params: FxHashMap<usize, usize>,
    lists: Vec<Vec<PreToken>>,
}

/// The tokens of several lists.
pub open spec fn list_views(lists: Seq<Vec<PreToken>>) -> Seq<Seq<PreToken>> {
    Seq::new(lists.len(), |k: int| lists[k]@)
}

impl Args {
    pub closed spec fn view(&self) -> ArgsView {
        ArgsView { params: self.params@, lists: list_views(self.lists@) }
    }

    fn new() -> (r: Args)
        ensures
            r@ == no_args(),
    {
        let r = Args { params: map_new(), lists: Vec::new() };
        assert(r@.params =~= Map::<usize, usize>::empty());
        assert(r@.lists =~= Seq::<Seq<PreToken>>::empty());
        r
    }

    fn insert(&mut self, param: Symbol, arg: Vec<PreToken>)
        ensures
            final(self)@ == with_arg(old(self)@, param, arg@),
    {
        let ghost tokens = arg@;
        map_insert(&mut self.params, param.0, self.lists.len());
        self.lists.push(arg);
        assert(self@.lists =~= old(self)@.lists.push(tokens));
    }
}

fn find_arg<'a>(args: Option<&'a Args>, token: PreToken) -> (r: Option<&'a Vec<PreToken>>)
    ensures
        arg_of(args_view(args), token) == (match r {
            Some(arg) => Some(arg@),
            None => None,
        }),
{
    match (args, token.kind) {
        (Some(args), PreTokenKind::Ident(name)) => match map_get(&args.params, name.0) {
            Some(k) => if k < args.lists.len() {
                assert(args@.lists[k as int] == args.lists@[k as int]@);
                Some(&args.lists[k])
            } else {
                None
            },
            None => None,
        },
        _ => None,
    }
}

pub open spec fn args_view(args: Option<&Args>) -> Option<ArgsView> {
    match args {
        Some(args) => Some(args@),
        None => None,
    }
}

fn place(tokens: Vec<PreToken>, at: PreToken) -> (r: Vec<PreToken>)
    ensures
        r@ == placed(tokens@, at),
{
    let mut tokens = tokens;
    if tokens.len() > 0 {
        let mut first = tokens[0];
        first.at_bol = at.at_bol;
        first.follows_space = at.follows_space;
        tokens.set(0, first);
    }
    tokens
}

fn one(token: PreToken) -> (r: Vec<PreToken>)
    ensures
        r@ == seq![token],
{
    let mut out: Vec<PreToken> = Vec::new();
    out.push(token);
    assert(out@ =~= seq![token]);
    out
}

fn push_tokens(out: &mut Vec<PreToken>, tokens: &Vec<PreToken>, from: usize)
    requires
        from <= tokens@.len(),
    ensures
        final(out)@ == old(out)@ + tokens@.skip(from as int),
{
    let mut i: usize = from;
    while i < tokens.len()
        invariant
            from <= i <= tokens.len(),
            out@ =~= old(out)@ + tokens@.subrange(from as int, i as int),
        decreases tokens.len() - i,
    {
        out.push(tokens[i]);
        i += 1;
        assert(tokens@.subrange(from as int, i as int) =~= tokens@.subrange(
            from as int,
            i - 1,
        ).push(tokens@[i - 1]));
    }
    assert(tokens@.subrange(from as int, tokens@.len() as int) =~= tokens@.skip(from as int));
}

/// Append some bytes with a backslash before each backslash and quote.
fn push_escaped(out: &mut Vec<u8>, bytes: &[u8])
    ensures
        final(out)@ == old(out)@ + escaped(bytes@, bytes@.len()),
{
    let mut i: usize = 0;
    assert(old(out)@ + escaped(bytes@, 0) =~= old(out)@);
    while i < bytes.len()
        invariant
            i <= bytes.len(),
            out@ == old(out)@ + escaped(bytes@, i as nat),
        decreases bytes.len() - i,
    {
        let b: u8 = bytes[i];
        if b == ascii::BACKSLASH || b == ascii::DQUOTE {
            out.push(ascii::BACKSLASH);
        }
        out.push(b);
        i += 1;
        assert(out@ =~= old(out)@ + escaped(bytes@, i as nat));
    }
}

fn substitute(token: PreToken, args: Option<&Args>) -> (r: Vec<PreToken>)
    ensures
        r@ == subst_plain(token, args_view(args)),
{
    match find_arg(args, token) {
        Some(arg) => place(copy_tokens(arg), token),
        None => one(token),
    }
}

/// The list in a result, in its mathematical form.
pub open spec fn piece_in(r: Result<(usize, Vec<PreToken>), Error>) -> Result<Piece, Error> {
    match r {
        Ok((next, tokens)) => Ok(Piece { next: next as int, tokens: tokens@ }),
        Err(e) => Err(e),
    }
}

fn is_hash_hash(tokens: &Vec<PreToken>, k: usize) -> (r: bool)
    ensures
        r == (k < tokens@.len() && tokens@[k as int].kind == PreTokenKind::Punct(Punct::HashHash)),
{
    k < tokens.len() && tokens[k].is_punct(Punct::HashHash)
}

/// Read an argument of a function-like macro call.
///
/// This always stops at a "," or ")" token. If `read_all` is true, this
/// only stops at ")", i.e., it reads all remaining arguments. The provided
/// `span` should be the span of the triggering token of the macro call.
fn read_argument(input: &mut TokenStream, read_all: bool, span: SourceSpan) -> (r: Result<
    Vec<PreToken>,
    Error,
>)
    ensures
        read_arg(old(input)@, read_all, span, 0, Seq::empty()) == (match r {
            Ok(arg) => Ok::<(Seq<PreToken>, Seq<PreToken>), Error>((arg@, final(input)@)),
            Err(e) => Err(e),
        }),
{
    let mut arg: Vec<PreToken> = Vec::new();
    let mut depth: u128 = 0;
    assert(arg@ =~= Seq::<PreToken>::empty());
    loop
        invariant
            depth <= arg@.len(),
            read_arg(old(input)@, read_all, span, 0, Seq::empty()) == read_arg(
                input@,
                read_all,
                span,
                depth as nat,
                arg@,
            ),
        decreases input@.len(),
    {
        let Some(token) = input.current() else {
            return Err(Error::Overflow);
        };
        let rparen = token.is_punct(Punct::RParen);
        if depth == 0 && rparen {
            return Ok(arg);
        }
        if depth == 0 && !read_all && token.is_punct(Punct::Comma) {
            return Ok(arg);
        }
        if token.is_eof() {
            return Err(Error::Terminate(span, Message::UnterminatedMacroCall));
        }
        input.next();
        let _count: usize = arg.len();
        if token.is_punct(Punct::LParen) {
            depth += 1;
        } else if rparen {
            depth -= 1;
        }
        arg.push(token);
    }
}

impl MacroExpander {
    #[verifier::opaque]
    pub open spec fn view(&self) -> Expansion {
        Expansion {
            sources: self.source_map@,
            names: self.names@,
            spellings: name_views(self.spellings@),
            hidesets: set_views(self.hidesets@),
            defs: macro_views(self.defs@),
            macros: self.macros@,
            warnings: self.warnings@,
        }
    }

    pub open spec fn wf(&self) -> bool {
        self.source_map.wf()
    }

    /// Create a new macro expander that knows no macros.
    pub fn new(source_map: SourceMap, names: Names) -> (r: MacroExpander)
        requires
            source_map.wf(),
        ensures
            r.wf(),
            r@ == (Expansion {
                sources: source_map@,
                names: names@,
                spellings: Seq::empty(),
                hidesets: Seq::empty(),
                defs: Seq::empty(),
                macros: Map::empty(),
                warnings: Seq::empty(),
            }),
    {
        proof {
            reveal(MacroExpander::view);
        }
        let r = MacroExpander {
            source_map,
            names,
            spellings: Vec::new(),
            hidesets: Vec::new(),
            defs: Vec::new(),
            macros: map_new(),
            warnings: Vec::new(),
        };
        assert(r@.spellings =~= Seq::<Seq<u8>>::empty());
        assert(r@.hidesets =~= Seq::<Set<usize>>::empty());
        assert(r@.defs =~= Seq::<MacroView>::empty());
        assert(r@.macros =~= Map::<usize, usize>::empty());
        assert(r@.warnings =~= Seq::<Warning>::empty());
        r
    }

    /// Return the spelling of a token.
    pub fn spelling(&self, token: PreToken) -> (r: Vec<u8>)
        requires
            self.wf(),
        ensures
            r@ == spell(self@, token),
    {
        proof {
            reveal(MacroExpander::view);
        }
        match token.synthetic {
            Some(k) => if k < self.spellings.len() {
                copy_bytes(self.spellings[k].as_slice())
            } else {
                let none: Vec<u8> = Vec::new();
                assert(none@ =~= Seq::<u8>::empty());
                none
            },
            None => self.source_map.text(token.span),
        }
    }

    /// Add a warning.
    pub fn warn(&mut self, span: SourceSpan, message: Message)
        requires
            old(self).wf(),
        ensures
            final(self).wf(),
            final(self)@ == (Expansion {
                warnings: old(self)@.warnings.push(Warning { span, message }),
                ..old(self)@
            }),
    {
        proof {
            reveal(MacroExpander::view);
        }
        self.warnings.push(Warning { span, message });
    }

    /// Add the spelling of a synthetic token.
    pub fn new_spelling(&mut self, spelling: Vec<u8>) -> (r: usize)
        requires
            old(self).wf(),
        ensures
            final(self).wf(),
            r == old(self)@.spellings.len() as usize,
            final(self)@ == (Expansion {
                spellings: old(self)@.spellings.push(spelling@),
                ..old(self)@
            }),
    {
        proof {
            reveal(MacroExpander::view);
        }
        let ghost bytes = spelling@;
        let k: usize = self.spellings.len();
        self.spellings.push(spelling);
        assert(self@.spellings =~= old(self)@.spellings.push(bytes));
        k
    }

    /// Create a token with a spelling of its own.
    pub fn synthesize(
        &mut self,
        kind: PreTokenKind,
        span: SourceSpan,
        like: PreToken,
        spelling: Vec<u8>,
    ) -> (r: PreToken)
        requires
            old(self).wf(),
        ensures
            final(self).wf(),
            synthesized(old(self)@, kind, span, like, spelling@) == (XOut {
                st: final(self)@,
                r: Ok(r),
            }),
    {
        let k: usize = self.new_spelling(spelling);
        PreToken::synthetic(kind, span, like.at_bol, like.follows_space, k)
    }

    /// Intern a name.
    pub fn intern(&mut self, text: &[u8]) -> (r: Symbol)
        requires
            old(self).wf(),
        ensures
            final(self).wf(),
            r == interned(old(self)@.names, text@).1,
            final(self)@ == (Expansion {
                names: interned(old(self)@.names, text@).0,
                ..old(self)@
            }),
    {
        proof {
            reveal(MacroExpander::view);
        }
        self.names.intern(text)
    }

    fn is_hidden(&self, token: PreToken, name: Symbol) -> (r: bool)
        ensures
            r == hidden(self@, token, name),
    {
        proof {
            reveal(MacroExpander::view);
        }
        match token.hideset {
            Some(k) => if k < self.hidesets.len() {
                assert(self@.hidesets[k as int] == self.hidesets@[k as int]@);
                set_contains(&self.hidesets[k], name.0)
            } else {
                false
            },
            None => false,
        }
    }

    fn own_hideset(&self, token: PreToken) -> (r: FxHashSet<usize>)
        ensures
            r@ == hideset_of(self@, token),
    {
        proof {
            reveal(MacroExpander::view);
        }
        let none = set_new();
        assert(none@ =~= Set::<usize>::empty());
        match token.hideset {
            Some(k) => if k < self.hidesets.len() {
                assert(self@.hidesets[k as int] == self.hidesets@[k as int]@);
                let r = set_union(&none, &self.hidesets[k]);
                assert(r@ =~= self.hidesets@[k as int]@);
                r
            } else {
                none
            },
            None => none,
        }
    }

    fn shared_hideset(&self, token: PreToken, rparen: PreToken) -> (r: FxHashSet<usize>)
        ensures
            r@ == call_base(self@, token, rparen),
    {
        if token.hideset.is_some() && rparen.hideset.is_some() {
            let a = self.own_hideset(token);
            let b = self.own_hideset(rparen);
            set_intersection(&a, &b)
        } else {
            let none = set_new();
            assert(none@ =~= Set::<usize>::empty());
            none
        }
    }

    /// Return the index of the macro of a name, if one is defined.
    pub fn find_macro(&self, name: Symbol) -> (r: Option<usize>)
        ensures
            macro_named(self@, name) == (match r {
                Some(k) => Some(self@.defs[k as int]),
                None => None,
            }),
            r is Some ==> r.unwrap() < self.defs@.len(),
    {
        proof {
            reveal(MacroExpander::view);
        }
        match map_get(&self.macros, name.0) {
            Some(k) => if k < self.defs.len() {
                Some(k)
            } else {
                None
            },
            None => None,
        }
    }

    /// Return the symbols of a list in a new list.
    fn copy_symbols(symbols: &Vec<Symbol>) -> (r: Vec<Symbol>)
        ensures
            r@ == symbols@,
    {
        let mut out: Vec<Symbol> = Vec::new();
        let mut i: usize = 0;
        while i < symbols.len()
            invariant
                i <= symbols.len(),
                out@ =~= symbols@.take(i as int),
            decreases symbols.len() - i,
        {
            out.push(symbols[i]);
            i += 1;
            assert(symbols@.take(i as int) =~= symbols@.take(i - 1).push(symbols@[i - 1]));
        }
        assert(symbols@.take(symbols@.len() as int) =~= symbols@);
        out
    }

    fn copy_macro(&self, k: usize) -> (r: Macro)
        requires
            k < self.defs@.len(),
        ensures
            r@ == self@.defs[k as int],
    {
        proof {
            reveal(MacroExpander::view);
        }
        let def = &self.defs[k];
        let params = match &def.params {
            Some(params) => Some(Self::copy_symbols(params)),
            None => None,
        };
        Macro {
            body: copy_tokens(&def.body),
            params,
            is_variadic: def.is_variadic,
            handler: def.handler,
        }
    }

    /// Call a macro handler on the given token.
    fn call_handler(&mut self, handler: MacroHandler, token: PreToken) -> (r: Result<
        PreToken,
        Error,
    >)
        requires
            old(self).wf(),
        ensures
            final(self).wf(),
            handle(old(self)@, handler, token) == (XOut { st: final(self)@, r }),
    {
        proof {
            reveal(handle);
        }
        let span = match token.origin {
            Some(span) => span,
            None => token.span,
        };
        match handler {
            MacroHandler::File => {
                let Some(filename) = self.quoted_file_name(span) else {
                    return Err(Error::Overflow);
                };
                Ok(self.synthesize(PreTokenKind::StrLit, span, token, filename))
            },
            MacroHandler::Line => {
                let Some(line) = self.line_of(span) else {
                    return Err(Error::Overflow);
                };
                let mut text: Vec<u8> = Vec::new();
                push_digits(&mut text, line as u128);
                assert(text@ =~= digits(line as nat));
                Ok(self.synthesize(PreTokenKind::NumLit, span, token, text))
            },
        }
    }

    fn quoted_file_name(&self, span: SourceSpan) -> (r: Option<Vec<u8>>)
        requires
            self.wf(),
        ensures
            r is Some <==> span.id < self@.sources.len(),
            r is Some ==> r.unwrap()@ == ({
                let name = vstd::utf8::encode_utf8(self@.sources[span.id as int].name);
                seq![ascii::DQUOTE] + escaped(name, name.len()) + seq![ascii::DQUOTE]
            }),
    {
        proof {
            reveal(MacroExpander::view);
        }
        if span.id >= self.source_map.sources.len() {
            return None;
        }
        let name = self.source_map.get(span.id).name.as_str().as_bytes();
        let mut filename: Vec<u8> = Vec::new();
        filename.push(ascii::DQUOTE);
        push_escaped(&mut filename, name);
        filename.push(ascii::DQUOTE);
        assert(filename@ =~= seq![ascii::DQUOTE] + escaped(name@, name@.len()) + seq![ascii::DQUOTE]);
        Some(filename)
    }

    fn line_of(&self, span: SourceSpan) -> (r: Option<u32>)
        requires
            self.wf(),
        ensures
            r == (match file_line_col_of(self@.sources, span) {
                Some((_, line, _)) => Some(line),
                None => None,
            }),
    {
        proof {
            reveal(MacroExpander::view);
        }
        match self.source_map.file_line_col(span) {
            Some((_, line, _)) => Some(line),
            None => None,
        }
    }

    /// Stringize a macro argument for the "#" operator.
    ///
    /// Returns a string literal token joined from the given argument tokens.
    /// The provided `hash` should be the triggering "#" token.
    fn stringize(&mut self, hash: PreToken, arg: &Vec<PreToken>) -> (r: PreToken)
        requires
            old(self).wf(),
        ensures
            final(self).wf(),
            stringize(old(self)@, hash, arg@) == (XOut { st: final(self)@, r: Ok(r) }),
    {
        proof {
            reveal(stringize);
        }
        let mut content: Vec<u8> = Vec::new();
        content.push(ascii::DQUOTE);
        let mut i: usize = 0;
        assert(content@ =~= seq![ascii::DQUOTE] + stringized(self@, arg@, 0));
        while i < arg.len()
            invariant
                self.wf(),
                *self == *old(self),
                i <= arg.len(),
                content@ == seq![ascii::DQUOTE] + stringized(self@, arg@, i as nat),
            decreases arg.len() - i,
        {
            let token = arg[i];
            if i > 0 && token.follows_space {
                content.push(ascii::SPACE);
            }
            let spelling = self.spelling(token);
            push_escaped(&mut content, spelling.as_slice());
            i += 1;
            assert(content@ =~= seq![ascii::DQUOTE] + stringized(self@, arg@, i as nat));
        }
        content.push(ascii::DQUOTE);
        assert(content@ =~= seq![ascii::DQUOTE] + stringized(self@, arg@, arg@.len()) + seq![ascii::DQUOTE]);
        self.synthesize(PreTokenKind::StrLit, hash.span, hash, content)
    }

    /// Tokenize a virtual source.
    ///
    /// Returns the ID of the source and its tokens, or `None` if there is no
    /// such source.
    pub fn tokenize_virtual(&mut self, content: &[u8], name: Option<&str>, allow_comment: bool) -> (r:
        Option<(usize, Result<Vec<PreToken>, Error>)>)
        requires
            old(self).wf(),
        ensures
            final(self).wf(),
            match with_virtual(old(self)@.sources, content@, name) {
                Some(sources) => {
                    let t = tokenized(
                        old(self)@.sources.len() as usize,
                        spliced(content@),
                        old(self)@.names,
                        allow_comment,
                        false,
                    );
                    &&& r is Some
                    &&& r.unwrap().0 == old(self)@.sources.len() as usize
                    &&& tokens_in(r.unwrap().1) == t.r
                    &&& final(self)@ == (Expansion { sources, names: t.names, ..old(self)@ })
                },
                None => r is None && final(self)@ == old(self)@,
            },
    {
        proof {
            reveal(MacroExpander::view);
            reveal(with_virtual);
        }
        let count: usize = self.source_map.sources.len();
        assert(count == self@.sources.len());
        let Some(id) = self.source_map.push_virtual(content, name) else {
            return None;
        };
        let tokens = Tokenizer::new(self.source_map.get(id)).tokenize(
            &mut self.names,
            allow_comment,
            false,
        );
        Some((id, tokens))
    }

    /// Tokenize a source file.
    ///
    /// Returns its tokens, or `None` if the text is too long.
    pub fn tokenize_file(&mut self, path: String, name: String, text: String) -> (r: Option<
        Result<Vec<PreToken>, Error>,
    >)
        requires
            old(self).wf(),
        ensures
            final(self).wf(),
            if text_bytes(&text).len() < u32::MAX {
                let id = old(self)@.sources.len() as usize;
                let t = tokenized(id, spliced(text_bytes(&text)), old(self)@.names, true, true);
                &&& r is Some
                &&& tokens_in(r.unwrap()) == t.r
                &&& final(self)@ == (Expansion {
                    sources: old(self)@.sources.push(
                        SourceView { id, path: path@, name: name@, original: text_bytes(&text) },
                    ),
                    names: t.names,
                    ..old(self)@
                })
            } else {
                r is None && final(self)@ == old(self)@
            },
    {
        proof {
            reveal(MacroExpander::view);
        }
        let count: usize = self.source_map.sources.len();
        assert(count == self@.sources.len());
        let Some(id) = self.source_map.push(path, name, text) else {
            return None;
        };
        Some(Tokenizer::new(self.source_map.get(id)).tokenize(&mut self.names, true, true))
    }

    /// Paste two tokens together for the "##" operator.
    ///
    /// The provided `span` should be the span of the "##" token that triggers
    /// this pasting.
    fn paste(&mut self, lhs: PreToken, rhs: PreToken, span: SourceSpan) -> (r: Result<
        PreToken,
        Error,
    >)
        requires
            old(self).wf(),
        ensures
            final(self).wf(),
            paste(old(self)@, lhs, rhs, span) == (XOut { st: final(self)@, r }),
    {
        proof {
            reveal(paste);
        }
        let mut pasted = self.spelling(lhs);
        let right = self.spelling(rhs);
        push_bytes(&mut pasted, right.as_slice());
        let Some((id, tokens)) = self.tokenize_virtual(pasted.as_slice(), None, false) else {
            return Err(Error::Overflow);
        };
        let spelling: usize = self.new_spelling(pasted);
        match tokens {
            Err(_) => Err(Error::Terminate(span, Message::PasteInvalid(spelling, id))),
            Ok(tokens) => {
                if tokens.len() != 1 {
                    return Err(Error::Terminate(span, Message::PasteMultiple(spelling)));
                }
                Ok(
                    PreToken::synthetic(
                        tokens[0].kind,
                        lhs.span,
                        lhs.at_bol,
                        lhs.follows_space,
                        spelling,
                    ),
                )
            },
        }
    }

    /// Consume and fold the whole "a ## b ## ..." chain, if any.
    fn paste_chain(
        &mut self,
        body: &Vec<PreToken>,
        start: usize,
        first: Vec<PreToken>,
        args: Option<&Args>,
    ) -> (r: Result<(usize, Vec<PreToken>), Error>)
        requires
            old(self).wf(),
            start <= body@.len(),
        ensures
            final(self).wf(),
            paste_chain(old(self)@, body@, start as int, first@, args_view(args)) == (XOut {
                st: final(self)@,
                r: piece_in(r),
            }),
            r is Ok ==> start <= r->Ok_0.0 <= body@.len(),
    {
        let mut k: usize = start;
        let mut current = first;
        while is_hash_hash(body, k)
            invariant
                self.wf(),
                start <= k <= body@.len(),
                paste_chain(old(self)@, body@, start as int, first@, args_view(args))
                    == paste_chain(self@, body@, k as int, current@, args_view(args)),
            decreases body.len() - k,
        {
            let token = body[k];
            if body.len() - k < 2 {
                return Err(Error::Terminate(token.span, Message::PasteAtEnd));
            }
            let rhs = substitute(body[k + 1], args);
            k += 2;
            if current.len() == 0 {
                current = rhs;
            } else if rhs.len() != 0 {
                let left = current[current.len() - 1];
                let pasted = self.paste(left, rhs[0], token.span)?;
                let ghost before = current@;
                current.pop();
                current.push(pasted);
                push_tokens(&mut current, &rhs, 1);
                assert(current@ =~= before.drop_last().push(pasted) + rhs@.skip(1));
            }
        }
        Ok((k, current))
    }

    fn read_args(
        &self,
        params: &Vec<Symbol>,
        input: &mut TokenStream,
        span: SourceSpan,
    ) -> (r: Result<Args, Error>)
        ensures
            args_from(params@, 0, no_args(), old(input)@, span) == (match r {
                Ok(args) => Ok::<(ArgsView, Seq<PreToken>), Error>((args@, final(input)@)),
                Err(e) => Err(e),
            }),
    {
        let mut args = Args::new();
        let mut index: usize = 0;
        while index < params.len()
            invariant
                index <= params.len(),
                args_from(params@, 0, no_args(), old(input)@, span) == args_from(
                    params@,
                    index as int,
                    args@,
                    input@,
                    span,
                ),
            decreases params.len() - index,
        {
            let Some(token) = input.current() else {
                return Err(Error::Overflow);
            };
            if index > 0 {
                if token.is_punct(Punct::RParen) {
                    return Err(Error::Terminate(token.span, Message::TooFewArgs(params.len())));
                }
                input.next();
            }
            let arg = read_argument(input, false, span)?;
            args.insert(params[index], arg);
            index += 1;
        }
        Ok(args)
    }

    fn close_call(args: Args, input: &mut TokenStream) -> (r: Result<(Args, PreToken), Error>)
        ensures
            call_closed(args@, old(input)@) == (match r {
                Ok((args, rparen)) => Ok::<Call, Error>(
                    Call { args: args@, rparen, rest: final(input)@ },
                ),
                Err(e) => Err(e),
            }),
    {
        match input.next() {
            Some(rparen) => Ok((args, rparen)),
            None => Err(Error::Overflow),
        }
    }

    fn read_rest_args(
        params: &Vec<Symbol>,
        va_args: Symbol,
        args: Args,
        input: &mut TokenStream,
        span: SourceSpan,
    ) -> (r: Result<(Args, PreToken), Error>)
        ensures
            rest_args(params@, va_args, args@, old(input)@, span) == (match r {
                Ok((args, rparen)) => Ok::<Call, Error>(
                    Call { args: args@, rparen, rest: final(input)@ },
                ),
                Err(e) => Err(e),
            }),
    {
        let mut args = args;
        let Some(token) = input.current() else {
            return Err(Error::Overflow);
        };
        if token.is_punct(Punct::RParen) {
            let none: Vec<PreToken> = Vec::new();
            assert(none@ =~= Seq::<PreToken>::empty());
            args.insert(va_args, none);
            return Self::close_call(args, input);
        }
        if params.len() > 0 {
            input.next();
        }
        let arg = read_argument(input, true, span)?;
        args.insert(va_args, arg);
        Self::close_call(args, input)
    }

    fn read_call(
        &mut self,
        params: &Vec<Symbol>,
        is_variadic: bool,
        input: &mut TokenStream,
        span: SourceSpan,
    ) -> (r: Result<(Args, PreToken), Error>)
        requires
            old(self).wf(),
        ensures
            final(self).wf(),
            read_call(old(self)@, params@, is_variadic, old(input)@, span) == (XOut {
                st: final(self)@,
                r: match r {
                    Ok((args, rparen)) => Ok::<Call, Error>(
                        Call { args: args@, rparen, rest: final(input)@ },
                    ),
                    Err(e) => Err(e),
                },
            }),
    {
        proof {
            reveal(read_call);
        }
        let args = self.read_args(params, input, span)?;
        if is_variadic {
            let va_args = self.intern("__VA_ARGS__".as_bytes());
            return Self::read_rest_args(params, va_args, args, input, span);
        }
        let Some(token) = input.current() else {
            return Err(Error::Overflow);
        };
        if !token.is_punct(Punct::RParen) {
            return Err(Error::Terminate(token.span, Message::TooManyArgs(params.len())));
        }
        Self::close_call(args, input)
    }

    /// Put the replacement of a macro before the input.
    #[verifier::loop_isolation(false)]
    fn finish(
        &mut self,
        token: PreToken,
        name: Symbol,
        base: FxHashSet<usize>,
        body: Vec<PreToken>,
        input: &mut TokenStream,
    )
        requires
            old(self).wf(),
        ensures
            final(self).wf(),
            finish(old(self)@, token, name, base@, body@, old(input)@) == (XOut {
                st: final(self)@,
                r: Ok((true, final(input)@)),
            }),
    {
        proof {
            reveal(finish);
            reveal(MacroExpander::view);
        }
        let ghost before = self@;
        let mut base = base;
        let ghost base0 = base@;
        // Add this macro's own name to prevent the replacement from immediately
        // expanding the same macro again
        set_insert(&mut base, name.0);
        let ghost added = base@;
        let index: usize = self.hidesets.len();
        self.hidesets.push(base);
        assert(self@.hidesets =~= before.hidesets.push(base0.insert(name.0)));
        let ghost body0 = body@;
        let body = place(body, token);
        let origin = match token.origin {
            Some(span) => span,
            None => token.span,
        };
        let mut out: Vec<PreToken> = Vec::new();
        let mut k: usize = 0;
        assert(out@ =~= Seq::<PreToken>::empty());
        let ghost whole = mark(self@.hidesets, body@, 0, index, origin, Seq::empty());
        while k < body.len()
            invariant
                self.wf(),
                k <= body.len(),
                self@ == (Expansion { hidesets: self@.hidesets, ..before }),
                whole == mark(self@.hidesets, body@, k as int, index, origin, out@),
            decreases body.len() - k,
        {
            let mut token = body[k];
            token.origin = Some(origin);
            let ghost sets = self@.hidesets;
            match token.hideset {
                Some(own) => {
                    if own < self.hidesets.len() && index < self.hidesets.len() {
                        let both = set_union(&self.hidesets[own], &self.hidesets[index]);
                        assert(both@ == sets[own as int].union(sets[index as int]));
                        let ghost united = both@;
                        token.hideset = Some(self.hidesets.len());
                        self.hidesets.push(both);
                        assert(self@.hidesets =~= sets.push(united));
                    } else {
                        token.hideset = Some(index);
                    }
                },
                None => {
                    token.hideset = Some(index);
                },
            }
            out.push(token);
            k += 1;
        }
        input.prepend(&out);
    }

    /// Substitute one replacement-list token if it names a macro parameter.
    ///
    /// `args` should be `None` for object-like macros, and the token will be
    /// returned unchanged. Otherwise, a non-parameter token will be returned
    /// unchanged, and a parameter token will be replaced with the corresponding
    /// argument. If `expand_arg` is true, the argument will be fully expanded
    /// via [`Self::expand_all`].
    fn subst_param(&mut self, token: PreToken, args: Option<&Args>, expand_arg: bool, n: u64) -> (r:
        Result<Vec<PreToken>, Error>)
        requires
            old(self).wf(),
        ensures
            final(self).wf(),
            subst_param(n as nat, old(self)@, token, args_view(args), expand_arg) == (XOut {
                st: final(self)@,
                r: tokens_in(r),
            }),
        decreases n, 1int, 0int,
    {
        let Some(arg) = find_arg(args, token) else {
            return Ok(one(token));
        };
        let arg = copy_tokens(arg);
        if arg.len() == 0 || !expand_arg {
            return Ok(place(arg, token));
        }
        if n == 0 {
            return Err(Error::Overflow);
        }
        let tokens = self.expand_all(arg, n - 1)?;
        Ok(place(tokens, token))
    }

    fn first_piece(&mut self, body: &Vec<PreToken>, k: usize, args: Option<&Args>, n: u64) -> (r:
        Result<(usize, Vec<PreToken>), Error>)
        requires
            old(self).wf(),
            k < body@.len(),
        ensures
            final(self).wf(),
            first_piece(n as nat, old(self)@, body@, k as int, args_view(args)) == (XOut {
                st: final(self)@,
                r: piece_in(r),
            }),
            r is Ok ==> k < r->Ok_0.0 <= body@.len(),
        decreases n, 2int, 0int,
    {
        let token = body[k];
        if token.is_punct(Punct::Hash) && args.is_some() {
            // Stringize operator is only allowed for function-like macros,
            // and we consume its next token as well
            if body.len() - k < 2 {
                return Err(Error::Terminate(token.span, Message::HashNotParam));
            }
            let next = body[k + 1];
            let Some(arg) = find_arg(args, next) else {
                return Err(Error::Terminate(next.span, Message::HashNotParam));
            };
            let string = self.stringize(token, arg);
            return Ok((k + 2, one(string)));
        }
        if token.is_punct(Punct::HashHash) {
            // A "##" that follows anything else is consumed with it, so this
            // one is the first token in the macro
            return Err(Error::Terminate(token.span, Message::PasteAtStart));
        }
        // Substitute parameters in a normal token; note that parameter
        // immediately followed by "##" must be substituted as is (not
        // expanded) as it participates in token pasting later

        let has_pending_paste = k < body.len() - 1 && is_hash_hash(body, k + 1);
        let tokens = self.subst_param(token, args, !has_pending_paste, n)?;
        Ok((k + 1, tokens))
    }

    /// Expand this macro's replacement list.
    ///
    /// `args` should be `None` for object-like macros.
    fn expand_replacement(&mut self, body: &Vec<PreToken>, args: Option<&Args>, n: u64) -> (r: Result<
        Vec<PreToken>,
        Error,
    >)
        requires
            old(self).wf(),
        ensures
            final(self).wf(),
            replacement(n as nat, old(self)@, body@, 0, args_view(args), Seq::empty()) == (XOut {
                st: final(self)@,
                r: tokens_in(r),
            }),
        decreases n, 3int, 0int,
    {
        let mut out: Vec<PreToken> = Vec::new();
        let mut k: usize = 0;
        assert(out@ =~= Seq::<PreToken>::empty());
        while k < body.len()
            invariant
                self.wf(),
                k <= body.len(),
                replacement(n as nat, old(self)@, body@, 0, args_view(args), Seq::empty())
                    == replacement(n as nat, self@, body@, k as int, args_view(args), out@),
            decreases body.len() - k,
        {
            let (next, tokens) = self.first_piece(body, k, args, n)?;
            let (next, tokens) = self.paste_chain(body, next, tokens, args)?;
            k = next;
            push_tokens(&mut out, &tokens, 0);
            assert(tokens@.skip(0) =~= tokens@);
        }
        Ok(out)
    }

    fn expand_object(
        &mut self,
        token: PreToken,
        name: Symbol,
        body: &Vec<PreToken>,
        input: &mut TokenStream,
        n: u64,
    ) -> (r: Result<bool, Error>)
        requires
            old(self).wf(),
        ensures
            final(self).wf(),
            expand_object(n as nat, old(self)@, token, name, body@, old(input)@) == (XOut {
                st: final(self)@,
                r: expanded_in(r, final(input)@),
            }),
        decreases n, 4int, 0int,
    {
        let body = self.expand_replacement(body, None, n)?;
        // Object-like macros only inherit the triggering token's hideset
        let base = self.own_hideset(token);
        self.finish(token, name, base, body, input);
        Ok(true)
    }

    fn expand_call(
        &mut self,
        token: PreToken,
        name: Symbol,
        def: &Macro,
        params: &Vec<Symbol>,
        input: &mut TokenStream,
        n: u64,
    ) -> (r: Result<bool, Error>)
        requires
            old(self).wf(),
        ensures
            final(self).wf(),
            expand_call(n as nat, old(self)@, token, name, def@, params@, old(input)@) == (XOut {
                st: final(self)@,
                r: expanded_in(r, final(input)@),
            }),
        decreases n, 4int, 0int,
    {
        let (args, rparen) = self.read_call(params, def.is_variadic, input, token.span)?;
        let body = self.expand_replacement(&def.body, Some(&args), n)?;
        // For function-like macros, the invocation may have been assembled
        // from tokens with different expansion lineages, so we inherit the
        // intersection of the hidesets on the macro name token and the
        // matching ")" token; that keeps only macro names that were already
        // blocked on the invocation as a whole
        let base = self.shared_hideset(token, rparen);
        self.finish(token, name, base, body, input);
        Ok(true)
    }

    /// Try to expand the given token as a macro.
    ///
    /// The token should be the one that precedes the given input stream, as
    /// function-like macro expansion needs to look ahead into the input stream
    /// to parse the arguments.
    ///
    /// This returns whether the token was successfully expanded. If so, the
    /// expanded tokens are automatically prepended to the given input stream.
    ///
    /// The implementation is based on [X3J11/86-196 Complete macro expansion
    /// algorithm](https://www.spinellis.gr/blog/20060626/x3J11-86-196.pdf).
    pub fn try_expand_in(&mut self, token: PreToken, input: &mut TokenStream, n: u64) -> (r: Result<
        bool,
        Error,
    >)
        requires
            old(self).wf(),
        ensures
            final(self).wf(),
            try_expand(n as nat, old(self)@, token, old(input)@) == (XOut {
                st: final(self)@,
                r: expanded_in(r, final(input)@),
            }),
        decreases n, 5int, 0int,
    {
        let Some(name) = token.as_ident() else {
            return Ok(false);
        };
        let Some(index) = self.find_macro(name) else {
            return Ok(false);
        };
        // If this token's hideset already contains this macro name, do not
        // expand it again; this is how C preprocessor prevents repeated
        // recursive re-expansion of the same macro on the same token lineage
        if self.is_hidden(token, name) {
            return Ok(false);
        }
        let def = self.copy_macro(index);
        if let Some(handler) = def.handler {
            let expanded = self.call_handler(handler, token)?;
            input.prepend(&one(expanded));
            return Ok(true);
        }
        let Some(params) = &def.params else {
            return self.expand_object(token, name, &def.body, input, n);
        };
        let Some(next) = input.current() else {
            return Err(Error::Overflow);
        };
        if !next.is_punct(Punct::LParen) {
            return Ok(false);
        }
        input.next();
        self.expand_call(token, name, &def, params, input, n)
    }

    /// Expand all macros in the given tokens.
    pub fn expand_all(&mut self, tokens: Vec<PreToken>, n: u64) -> (r: Result<Vec<PreToken>, Error>)
        requires
            old(self).wf(),
        ensures
            final(self).wf(),
            expand_all(n as nat, old(self)@, tokens@) == (XOut {
                st: final(self)@,
                r: tokens_in(r),
            }),
        decreases n, 7int, 0int,
    {
        let Some(stream) = TokenStream::new(&tokens) else {
            return Err(Error::Overflow);
        };
        let mut input = stream;
        let mut out: Vec<PreToken> = Vec::new();
        assert(out@ =~= Seq::<PreToken>::empty());
        let mut left: u64 = n;
        let ghost whole = expand_all(n as nat, self@, tokens@);
        loop
            invariant
                self.wf(),
                left <= n,
                whole == expand_all(n as nat, old(self)@, tokens@),
                whole == expand_stream(left as nat, self@, input@, out@),
            decreases left,
        {
            let Some(token) = input.next() else {
                return Ok(out);
            };
            if token.is_eof() {
                return Ok(out);
            }
            if left == 0 {
                return Err(Error::Overflow);
            }
            left -= 1;
            if self.try_expand_in(token, &mut input, left)? {
                continue;
            }
            out.push(token);
        }
    }
}

/// Whether a token was expanded, with the input that follows.
pub open spec fn expanded_in(r: Result<bool, Error>, input: Seq<PreToken>) -> Result<
    (bool, Seq<PreToken>),
    Error,
> {
    match r {
        Ok(expanded) => Ok((expanded, input)),
        Err(e) => Err(e),
    }
}

} // verus!
