//! Preprocessing directives.

use vstd::prelude::*;
use crate::ascii;
use crate::error::{Error, Message, Warning};
use crate::names::names_it;
use crate::parse::grammar::lone_constexpr;
use crate::parse::state::{initial_state, HiddenNames, Input};
use crate::preprocess::expand::{
    expand_all, macro_named, spell, synthesized, try_expand, Expansion, MacroExpander, MacroView,
    XOut,
};
use crate::preprocess::stream::{is_mol, line_len, stream_of, TokenStream};
use crate::source::{span_text, spliced, SourceSpan, SourceView};
use crate::tokenize::{PreToken, PreTokenKind, Punct, Token, TokenKind};
use crate::tokenize::lower::{lowered, LowerEnv, LowerOut, LowerState};
use crate::tokenize::scan::tokenized;
use crate::types::Symbol;
use crate::utils::digits;

verus! {

/// The directive that opened a conditional compilation block.
#[derive(Clone, Copy, Debug, PartialEq, Eq, Structural)]
pub enum CondKind {
    If,
    Ifdef,
    Ifndef,
}

/// The context of a conditional compilation block.
#[derive(Clone, Copy, Debug, PartialEq, Eq, Structural)]
pub enum CondFrameContext {
    Then,
    Elif,
    Else,
}

/// A frame for conditional compilation.
#[derive(Clone, Copy, Debug, PartialEq, Eq, Structural)]
pub struct CondFrame {
    pub kind: CondKind,
    pub span: SourceSpan,
    pub included: bool,
    pub ctx: CondFrameContext,
}

/// The name of a directive.
#[derive(Clone, Copy, Debug, PartialEq, Eq, Structural)]
pub enum Directive {
    IncludeFile,
    Define,
    Undef,
    If,
    Ifdef,
    Ifndef,
    Elif,
    Else,
    Endif,
    Error,
    Warning,
}

/// A file that the preprocessor asks for.
#[derive(Clone, Copy, Debug, PartialEq, Eq, Structural)]
pub struct IncludeFilename {
    /// The name of the file, given by the index of its spelling.
    pub name: usize,
    pub span: SourceSpan,
    pub is_quoted: bool,
}

/// What a preprocessor came to.
#[derive(Clone, Copy, Debug, PartialEq, Eq, Structural)]
pub enum Step {
    /// There is more to preprocess.
    More,
    /// Everything is preprocessed.
    Done,
    /// A file is to be preprocessed first.
    File(IncludeFilename),
}

/// A file that waits for another one to be preprocessed.
pub struct WaitingFile {
    pub input: TokenStream,
    pub conds: Vec<CondFrame>,
}

/// The mathematical form of [`WaitingFile`].
pub struct WaitingView {
    pub input: Seq<PreToken>,
    pub conds: Seq<CondFrame>,
}

/// The files of a list, each in its mathematical form.
pub open spec fn waiting_views(files: Seq<WaitingFile>) -> Seq<WaitingView> {
    Seq::new(
        files.len(),
        |k: int| WaitingView { input: files[k].input@, conds: files[k].conds@ },
    )
}

/// Preprocessor for a C token stream.
pub struct Preprocessor {
    pub expander: MacroExpander,
    pub input: TokenStream,
    pub conds: Vec<CondFrame>,
    /// The preprocessed tokens.
    pub out: Vec<PreToken>,
    pub files: Vec<WaitingFile>,
}

/// The mathematical form of [`Preprocessor`].
pub struct PpState {
    pub x: Expansion,
    pub input: Seq<PreToken>,
    pub conds: Seq<CondFrame>,
    pub out: Seq<PreToken>,
    pub files: Seq<WaitingView>,
}

/// A preprocessing step: the state after it, and its result.
pub struct POut<T> {
    pub st: PpState,
    pub r: Result<T, Error>,
}

/// Whether a step leaves behind the given state with the given result.
///
/// After an error nothing is read any more, so of the state only sources,
/// warnings, and what belongs to macros is told then.
pub open spec fn leads_to<T>(o: POut<T>, st: PpState, r: Result<T, Error>) -> bool {
    &&& o.r == r
    &&& o.st.x == st.x
    &&& r is Ok ==> o.st == st
}

/// A step that succeeds.
pub open spec fn came_to<T>(st: PpState, value: T) -> POut<T> {
    POut { st, r: Ok(value) }
}

/// A step that finds the program wrong at the given place.
pub open spec fn broke<T>(st: PpState, span: SourceSpan, message: Message) -> POut<T> {
    POut { st, r: Err(Error::Terminate(span, message)) }
}

/// The state with other macros, sources, or warnings.
pub open spec fn with_x(st: PpState, x: Expansion) -> PpState {
    PpState { x, ..st }
}

/// The state with other input.
pub open spec fn with_input(st: PpState, input: Seq<PreToken>) -> PpState {
    PpState { input, ..st }
}

/// The state with one more warning.
pub open spec fn warned(x: Expansion, span: SourceSpan, message: Message) -> Expansion {
    Expansion { warnings: x.warnings.push(Warning { span, message }), ..x }
}

/// The rest of the line skipped, with a warning if there is any.
pub open spec fn skip_extra(st: PpState, message: Message) -> PpState {
    let n = line_len(st.input, 0);
    let rest = with_input(st, st.input.skip(n as int));
    if n > 0 {
        with_x(rest, warned(st.x, st.input[0].span, message))
    } else {
        rest
    }
}

/// Whether a token is an identifier that is spelled so.
pub open spec fn is_word(names: Seq<Seq<u8>>, token: PreToken, text: Seq<char>) -> bool {
    match token.kind {
        PreTokenKind::Ident(name) => names_it(names, name, text),
        _ => false,
    }
}

/// The directive that a token names.
#[verifier::opaque]
pub open spec fn directive_of(names: Seq<Seq<u8>>, token: PreToken) -> Option<Directive> {
    if is_word(names, token, "include"@) {
        Some(Directive::IncludeFile)
    } else if is_word(names, token, "define"@) {
        Some(Directive::Define)
    } else if is_word(names, token, "undef"@) {
        Some(Directive::Undef)
    } else if is_word(names, token, "if"@) {
        Some(Directive::If)
    } else if is_word(names, token, "ifdef"@) {
        Some(Directive::Ifdef)
    } else if is_word(names, token, "ifndef"@) {
        Some(Directive::Ifndef)
    } else if is_word(names, token, "elif"@) {
        Some(Directive::Elif)
    } else if is_word(names, token, "else"@) {
        Some(Directive::Else)
    } else if is_word(names, token, "endif"@) {
        Some(Directive::Endif)
    } else if is_word(names, token, "error"@) {
        Some(Directive::Error)
    } else if is_word(names, token, "warning"@) {
        Some(Directive::Warning)
    } else {
        None
    }
}

/// The name of a macro read from the rest of the line.
#[verifier::opaque]
pub open spec fn process_macro(st: PpState, span: SourceSpan, no_name: Message) -> POut<
    (Symbol, PreToken),
> {
    if st.input.len() > 0 && is_mol(st.input[0]) {
        let token = st.input[0];
        let st = with_input(st, st.input.skip(1));
        match token.kind {
            PreTokenKind::Ident(name) => came_to(st, (name, token)),
            _ => broke(st, token.span, Message::MacroNameNotIdent),
        }
    } else {
        broke(st, span, no_name)
    }
}

/// The macros with one more.
pub open spec fn with_macro(x: Expansion, name: Symbol, def: MacroView) -> Expansion {
    Expansion {
        defs: x.defs.push(def),
        macros: x.macros.insert(name.0, x.defs.len() as usize),
        ..x
    }
}

/// Whether two replacement lists are the same up to how long spaces are.
pub open spec fn same_body(x: Expansion, a: Seq<PreToken>, b: Seq<PreToken>) -> bool {
    &&& a.len() == b.len()
    &&& forall|k: int|
        0 <= k < a.len() ==> (#[trigger] a[k]).follows_space == b[k].follows_space && span_text(
            x.sources,
            a[k].span,
        ) == span_text(x.sources, b[k].span)
}

/// Whether two macros are the same.
pub open spec fn same_macro(x: Expansion, a: MacroView, b: MacroView) -> bool {
    &&& a.handler is None
    &&& a.is_variadic == b.is_variadic
    &&& a.params == b.params
    &&& same_body(x, a.body, b.body)
}

/// A macro defined; another macro of the same name is redefined with a warning.
#[verifier::opaque]
pub open spec fn define_macro(x: Expansion, name: Symbol, def: MacroView, span: SourceSpan) -> Expansion {
    match macro_named(x, name) {
        None => with_macro(x, name, def),
        Some(old) => if same_macro(x, old, def) {
            x
        } else {
            warned(with_macro(x, name, def), span, Message::RedefinitionOfMacro)
        },
    }
}

/// A macro that was defined is found by its name, up to how long its spaces
/// are; the macros of other names stay as they were.
pub proof fn defined_macro_is_found(
    x: Expansion,
    name: Symbol,
    def: MacroView,
    span: SourceSpan,
    other: Symbol,
)
    requires
        x.defs.len() < usize::MAX,
        def.handler is None,
        other != name,
        x.macros.contains_key(other.0) ==> x.macros[other.0] < x.defs.len(),
    ensures
        ({
            let y = define_macro(x, name, def, span);
            let found = macro_named(y, name);
            &&& found is Some
            &&& found.unwrap() == def || same_macro(x, found.unwrap(), def)
            &&& macro_named(y, other) == macro_named(x, other)
        }),
{
    reveal(define_macro);
}

/// Defining a macro as it is defined already changes nothing, and defining it
/// otherwise is warned about.
pub proof fn only_other_definitions_are_warned_about(
    x: Expansion,
    name: Symbol,
    def: MacroView,
    span: SourceSpan,
)
    requires
        macro_named(x, name) is Some,
    ensures
        same_macro(x, macro_named(x, name).unwrap(), def) ==> define_macro(x, name, def, span) == x,
        !same_macro(x, macro_named(x, name).unwrap(), def) ==> define_macro(
            x,
            name,
            def,
            span,
        ).warnings.len() == x.warnings.len() + 1,
{
    reveal(define_macro);
}

/// The parameters of a macro read, after those read before and up to the token
/// that ends them.
pub open spec fn params_from(input: Seq<PreToken>, params: Seq<Symbol>) -> Result<
    (Seq<Symbol>, bool, Seq<PreToken>),
    Error,
>
    decreases input.len(),
{
    if input.len() == 0 {
        Err(Error::Overflow)
    } else if input[0].kind == PreTokenKind::Punct(Punct::RParen) {
        Ok((params, false, input))
    } else if params.len() > 0 && input[0].kind != PreTokenKind::Punct(Punct::Comma) {
        Err(Error::Terminate(input[0].span, Message::ExpectedPunct(Punct::Comma)))
    } else {
        let next = if params.len() > 0 {
            input.skip(1)
        } else {
            input
        };
        if next.len() == 0 {
            Err(Error::Overflow)
        } else if next[0].kind == PreTokenKind::Punct(Punct::Ellipsis) {
            Ok((params, true, next.skip(1)))
        } else {
            match next[0].kind {
                PreTokenKind::Ident(name) => params_from(next.skip(1), params.push(name)),
                _ => Err(Error::Terminate(next[0].span, Message::ExpectedIdent)),
            }
        }
    }
}

/// What follows the name of a macro in its definition.
pub struct MacroHead {
    pub params: Option<Seq<Symbol>>,
    pub is_variadic: bool,
    pub rest: Seq<PreToken>,
}

/// The parameters of a macro read, if it is function-like, and what follows.
#[verifier::opaque]
pub open spec fn macro_head(input: Seq<PreToken>) -> Result<MacroHead, Error> {
    if input.len() > 0 && !input[0].follows_space && !input[0].at_bol && input[0].kind
        == PreTokenKind::Punct(Punct::LParen) {
        match params_from(input.skip(1), Seq::empty()) {
            Err(e) => Err(e),
            Ok((params, is_variadic, rest)) => if rest.len() == 0 {
                Err(Error::Overflow)
            } else if rest[0].kind != PreTokenKind::Punct(Punct::RParen) {
                Err(Error::Terminate(rest[0].span, Message::ExpectedPunct(Punct::RParen)))
            } else {
                Ok(MacroHead { params: Some(params), is_variadic, rest: rest.skip(1) })
            },
        }
    } else {
        Ok(MacroHead { params: None, is_variadic: false, rest: input })
    }
}

/// A "#define" directive.
#[verifier::opaque]
pub open spec fn process_define(st: PpState, span: SourceSpan) -> POut<()> {
    let o = process_macro(st, span, Message::NoNameInDefine);
    match o.r {
        Err(e) => POut { st: o.st, r: Err(e) },
        Ok((name, token)) => match macro_head(o.st.input) {
            Err(e) => POut { st: o.st, r: Err(e) },
            Ok(head) => {
                let n = line_len(head.rest, 0);
                let def = MacroView {
                    body: head.rest.take(n as int),
                    params: head.params,
                    is_variadic: head.is_variadic,
                    handler: None,
                };
                came_to(
                    with_x(
                        with_input(o.st, head.rest.skip(n as int)),
                        define_macro(o.st.x, name, def, token.span),
                    ),
                    (),
                )
            },
        },
    }
}

/// An "#undef" directive.
#[verifier::opaque]
pub open spec fn process_undef(st: PpState, span: SourceSpan) -> POut<()> {
    let o = process_macro(st, span, Message::NoNameInUndef);
    match o.r {
        Err(e) => POut { st: o.st, r: Err(e) },
        Ok((name, _)) => {
            let st = skip_extra(o.st, Message::ExtraAfterUndef);
            came_to(
                with_x(st, Expansion { macros: st.x.macros.remove(name.0), ..st.x }),
                (),
            )
        },
    }
}

/// After an "#undef" of a name there is no macro of that name, and the macros of
/// other names stay as they were.
pub proof fn undefined_macro_is_gone(st: PpState, span: SourceSpan, name: Symbol, other: Symbol)
    requires
        st.input.len() > 0,
        is_mol(st.input[0]),
        st.input[0].kind == PreTokenKind::Ident(name),
        other != name,
    ensures
        process_undef(st, span).r is Ok,
        macro_named(process_undef(st, span).st.x, name) is None,
        macro_named(process_undef(st, span).st.x, other) == macro_named(st.x, other),
{
    reveal(process_undef);
    reveal(process_macro);
}

/// The name that the "defined" at `k` asks for, and what follows it.
pub open spec fn defined_name(line: Seq<PreToken>, k: int) -> Result<(Symbol, int), Error> {
    if k + 1 >= line.len() {
        Err(Error::Terminate(line[k].span, Message::IdentAfterDefined))
    } else if line[k + 1].kind == PreTokenKind::Punct(Punct::LParen) {
        if k + 2 >= line.len() {
            Err(Error::Terminate(line[k + 1].span, Message::IdentAfterDefined))
        } else {
            match line[k + 2].kind {
                PreTokenKind::Ident(name) => if k + 3 >= line.len() {
                    Err(Error::Terminate(line[k + 2].span, Message::RParenAfterDefined))
                } else if line[k + 3].kind != PreTokenKind::Punct(Punct::RParen) {
                    Err(Error::Terminate(line[k + 3].span, Message::RParenAfterDefined))
                } else {
                    Ok((name, k + 4))
                },
                _ => Err(Error::Terminate(line[k + 2].span, Message::IdentAfterDefined)),
            }
        }
    } else {
        match line[k + 1].kind {
            PreTokenKind::Ident(name) => Ok((name, k + 2)),
            _ => Err(Error::Terminate(line[k + 1].span, Message::IdentAfterDefined)),
        }
    }
}

/// Each "defined MACRO" and "defined(MACRO)" of a line from `k` on replaced by
/// 0 or 1, after what is replaced.
pub open spec fn replace_defined(
    x: Expansion,
    line: Seq<PreToken>,
    k: int,
    out: Seq<PreToken>,
) -> XOut<
    Seq<PreToken>,
>
    decreases line.len() - k,
{
    if k < 0 || k >= line.len() {
        XOut { st: x, r: Ok(out) }
    } else if !is_word(x.names, line[k], "defined"@) {
        replace_defined(x, line, k + 1, out.push(line[k]))
    } else {
        match defined_name(line, k) {
            Err(e) => XOut { st: x, r: Err(e) },
            Ok((name, next)) => if k < next <= line.len() {
                let value: nat = if macro_named(x, name) is Some {
                    1
                } else {
                    0
                };
                let o = synthesized(x, PreTokenKind::NumLit, line[k].span, line[k], digits(value));
                replace_defined(o.st, line, next, out.push(o.r->Ok_0))
            } else {
                XOut { st: x, r: Err(Error::Overflow) }
            },
        }
    }
}

/// The tokens of a preprocessor expression lowered from `k` on, after those
/// that are.
pub open spec fn lower_line(
    env: LowerEnv,
    tokens: Seq<PreToken>,
    k: int,
    st: LowerState,
    out: Seq<Token>,
) -> LowerOut<Seq<Token>>
    decreases tokens.len() - k,
{
    if k < 0 || k >= tokens.len() {
        LowerOut { st, r: Ok(out) }
    } else {
        let o = lowered(env, tokens[k], true, st);
        match o.r {
            Err(e) => LowerOut { st: o.st, r: Err(e) },
            Ok(token) => lower_line(env, tokens, k + 1, o.st, out.push(token)),
        }
    }
}

/// Where the end of an expression is that ends with the given span.
pub open spec fn end_of(span: SourceSpan) -> SourceSpan {
    if span.offset + span.len > usize::MAX {
        SourceSpan { id: span.id, offset: span.offset, len: 0 }
    } else {
        SourceSpan { id: span.id, offset: (span.offset + span.len) as usize, len: 0 }
    }
}

/// Whether a preprocessor expression is true, with the warnings by then.
#[verifier::opaque]
pub open spec fn evaluate(
    tokens: Seq<Token>,
    strings: Seq<Seq<u32>>,
    x: Expansion,
) -> XOut<bool> {
    let o = lone_constexpr(
        initial_state(
            Input {
                tokens: tokens.push(
                    Token { kind: TokenKind::Eof, span: end_of(tokens.last().span) },
                ),
                strings,
                floats: Seq::empty(),
                preprocess: true,
                hidden: HiddenNames {
                    va_area: Symbol(0),
                    func: Symbol(0),
                    function: Symbol(0),
                },
                names: Seq::empty(),
            },
        ),
    );
    let st = Expansion { warnings: x.warnings + o.st.warnings, ..x };
    match o.r {
        Err(e) => XOut { st, r: Err(e) },
        Ok(value) => match value.spec_truthy(Seq::empty()) {
            Ok(truth) => XOut { st, r: Ok(truth) },
            Err(query) => XOut { st, r: Err(Error::NeedsFloat(query)) },
        },
    }
}

/// Whether the expression of some tokens is true; `None` if there is none.
#[verifier::opaque]
pub open spec fn evaluate_line(x: Expansion, tokens: Seq<PreToken>) -> XOut<Option<bool>> {
    if tokens.len() == 0 {
        XOut { st: x, r: Ok(None) }
    } else {
        let env = LowerEnv {
            sources: x.sources,
            spellings: x.spellings,
            names: x.names,
            literals: Seq::empty(),
        };
        let start = LowerState { strings: Seq::empty(), warnings: x.warnings };
        let l = lower_line(env, tokens, 0, start, Seq::empty());
        let x = Expansion { warnings: l.st.warnings, ..x };
        match l.r {
            Err(e) => XOut { st: x, r: Err(e) },
            Ok(lowered) => {
                let o = evaluate(lowered, l.st.strings, x);
                match o.r {
                    Err(e) => XOut { st: o.st, r: Err(e) },
                    Ok(truth) => XOut { st: o.st, r: Ok(Some(truth)) },
                }
            },
        }
    }
}

/// Whether the preprocessor expression in the rest of the line is true; `None`
/// if there is none.
#[verifier::opaque]
pub open spec fn process_constexpr(n: nat, st: PpState) -> POut<Option<bool>> {
    let len = line_len(st.input, 0);
    let line = st.input.take(len as int);
    let st = with_input(st, st.input.skip(len as int));
    if len == 0 {
        came_to(st, None)
    } else {
        let o = replace_defined(st.x, line, 0, Seq::empty());
        match o.r {
            Err(e) => POut { st: with_x(st, o.st), r: Err(e) },
            Ok(line) => {
                let o = expand_all(n, o.st, line);
                match o.r {
                    Err(e) => POut { st: with_x(st, o.st), r: Err(e) },
                    Ok(tokens) => {
                        let o = evaluate_line(o.st, tokens);
                        POut { st: with_x(st, o.st), r: o.r }
                    },
                }
            },
        }
    }
}

/// An "#endif" directive.
#[verifier::opaque]
pub open spec fn process_endif(st: PpState, span: SourceSpan) -> POut<()> {
    if st.conds.len() == 0 {
        broke(st, span, Message::EndifWithoutIf)
    } else {
        came_to(
            skip_extra(
                PpState { conds: st.conds.drop_last(), ..st },
                Message::ExtraAfterEndif,
            ),
            (),
        )
    }
}

/// What is skipped next: a line of the block, or the directive that ends it.
pub open spec fn skip_directive(
    n: nat,
    st: PpState,
    span: SourceSpan,
    token: PreToken,
    depth: nat,
) -> POut<()>
    decreases n, 2int,
{
    let next = with_input(st, st.input.skip(line_len(st.input, 0) as int));
    match directive_of(st.x.names, token) {
        Some(Directive::If) | Some(Directive::Ifdef) | Some(Directive::Ifndef) => if n == 0 || depth
            >= u64::MAX {
            POut { st, r: Err(Error::Overflow) }
        } else {
            skip_cond((n - 1) as nat, next, depth + 1)
        },
        Some(Directive::Elif) => if depth == 0 {
            process_elif(n, st, span)
        } else if n == 0 {
            POut { st, r: Err(Error::Overflow) }
        } else {
            skip_cond((n - 1) as nat, next, depth)
        },
        Some(Directive::Else) => if depth == 0 {
            process_else(n, st, span)
        } else if n == 0 {
            POut { st, r: Err(Error::Overflow) }
        } else {
            skip_cond((n - 1) as nat, next, depth)
        },
        Some(Directive::Endif) => if depth == 0 {
            process_endif(st, span)
        } else if n == 0 {
            POut { st, r: Err(Error::Overflow) }
        } else {
            skip_cond((n - 1) as nat, next, (depth - 1) as nat)
        },
        _ => if n == 0 {
            POut { st, r: Err(Error::Overflow) }
        } else {
            skip_cond((n - 1) as nat, next, depth)
        },
    }
}

/// Tokens skipped until the next matching "#else", "#elif", or "#endif".
pub open spec fn skip_cond(n: nat, st: PpState, depth: nat) -> POut<()>
    decreases n, 3int,
{
    if st.input.len() == 0 {
        came_to(st, ())
    } else {
        let token = st.input[0];
        let st = with_input(st, st.input.skip(1));
        if token.kind == PreTokenKind::Eof {
            came_to(st, ())
        } else if token.at_bol && token.kind == PreTokenKind::Punct(Punct::Hash) && st.input.len()
            > 0 && is_mol(st.input[0]) {
            skip_directive(
                n,
                with_input(st, st.input.skip(1)),
                token.span,
                st.input[0],
                depth,
            )
        } else if n == 0 {
            POut { st, r: Err(Error::Overflow) }
        } else {
            skip_cond((n - 1) as nat, st, depth)
        }
    }
}

/// The block after an "#if" or "#elif" entered, or skipped if not included.
pub open spec fn begin_block(n: nat, st: PpState, frame: CondFrame) -> POut<()>
    decreases n, 0int,
{
    let st = PpState { conds: st.conds.push(frame), ..st };
    if frame.included {
        came_to(st, ())
    } else if n == 0 {
        POut { st, r: Err(Error::Overflow) }
    } else {
        skip_cond((n - 1) as nat, st, 0)
    }
}

/// An "#elif" directive.
pub open spec fn process_elif(n: nat, st: PpState, span: SourceSpan) -> POut<()>
    decreases n, 1int,
{
    if st.conds.len() == 0 {
        broke(st, span, Message::ElifWithoutIf)
    } else {
        let frame = CondFrame { ctx: CondFrameContext::Elif, ..st.conds.last() };
        let was = st.conds.last();
        let outer = PpState { conds: st.conds.drop_last(), ..st };
        if was.ctx == CondFrameContext::Else {
            broke(outer, span, Message::ElifAfterElse)
        } else if was.included {
            if n == 0 {
                POut {
                    st: PpState { conds: outer.conds.push(frame), ..outer },
                    r: Err(Error::Overflow),
                }
            } else {
                skip_cond(
                    (n - 1) as nat,
                    PpState { conds: outer.conds.push(frame), ..outer },
                    0,
                )
            }
        } else {
            let o = process_constexpr(n, outer);
            match o.r {
                Err(e) => POut { st: o.st, r: Err(e) },
                Ok(None) => broke(o.st, span, Message::BareElif),
                Ok(Some(included)) => begin_block(n, o.st, CondFrame { included, ..frame }),
            }
        }
    }
}

/// An "#else" directive.
pub open spec fn process_else(n: nat, st: PpState, span: SourceSpan) -> POut<()>
    decreases n, 1int,
{
    if st.conds.len() == 0 {
        broke(st, span, Message::ElseWithoutIf)
    } else if st.conds.last().ctx == CondFrameContext::Else {
        broke(st, span, Message::ElseAfterElse)
    } else {
        let frame = st.conds.last();
        let entered = PpState {
            conds: st.conds.drop_last().push(
                CondFrame { included: true, ctx: CondFrameContext::Else, ..frame },
            ),
            ..st
        };
        let entered = skip_extra(entered, Message::ExtraAfterElse);
        if !frame.included {
            came_to(entered, ())
        } else if n == 0 {
            POut { st: entered, r: Err(Error::Overflow) }
        } else {
            skip_cond((n - 1) as nat, entered, 0)
        }
    }
}

/// Whether a step wrote nothing, and left all conditionals alone but the
/// innermost one of `st`, which it may have ended.
pub open spec fn skips<T>(st: PpState, o: POut<T>) -> bool {
    &&& o.st.out == st.out
    &&& o.st.files == st.files
    &&& o.r is Ok ==> {
        &&& st.conds.len() - 1 <= o.st.conds.len() <= st.conds.len()
        &&& o.st.conds.take(st.conds.len() - 1) == st.conds.drop_last()
    }
}

proof fn skip_directive_skips(n: nat, st: PpState, span: SourceSpan, token: PreToken, depth: nat)
    requires
        st.conds.len() > 0,
    ensures
        skips(st, skip_directive(n, st, span, token, depth)),
    decreases n, 2int,
{
    let next = with_input(st, st.input.skip(line_len(st.input, 0) as int));
    process_elif_skips(n, st, span);
    process_else_skips(n, st, span);
    reveal(process_endif);
    assert(st.conds.drop_last().take(st.conds.len() - 1) =~= st.conds.drop_last());
    if n > 0 {
        let m = (n - 1) as nat;
        skip_cond_skips(m, next, depth);
        skip_cond_skips(m, next, depth + 1);
        if depth > 0 {
            skip_cond_skips(m, next, (depth - 1) as nat);
        }
    }
}

proof fn skip_cond_skips(n: nat, st: PpState, depth: nat)
    requires
        st.conds.len() > 0,
    ensures
        skips(st, skip_cond(n, st, depth)),
    decreases n, 3int,
{
    assert(st.conds.take(st.conds.len() - 1) =~= st.conds.drop_last());
    if st.input.len() > 0 {
        let token = st.input[0];
        let next = with_input(st, st.input.skip(1));
        if next.input.len() > 0 {
            skip_directive_skips(
                n,
                with_input(next, next.input.skip(1)),
                token.span,
                next.input[0],
                depth,
            );
        }
        if n > 0 {
            skip_cond_skips((n - 1) as nat, next, depth);
        }
    }
}

proof fn process_elif_skips(n: nat, st: PpState, span: SourceSpan)
    requires
        st.conds.len() > 0,
    ensures
        skips(st, process_elif(n, st, span)),
    decreases n, 1int,
{
    let was = st.conds.last();
    let frame = CondFrame { ctx: CondFrameContext::Elif, ..was };
    let outer = PpState { conds: st.conds.drop_last(), ..st };
    let entered = PpState { conds: outer.conds.push(frame), ..outer };
    assert(entered.conds.drop_last() =~= st.conds.drop_last());
    if was.included {
        if n > 0 {
            skip_cond_skips((n - 1) as nat, entered, 0);
        }
    } else {
        reveal(process_constexpr);
        let o = process_constexpr(n, outer);
        if let Ok(Some(included)) = o.r {
            let frame = CondFrame { included, ..frame };
            let block = PpState { conds: o.st.conds.push(frame), ..o.st };
            assert(block.conds.drop_last() =~= st.conds.drop_last());
            assert(block.conds.take(block.conds.len() - 1) =~= block.conds.drop_last());
            if n > 0 {
                skip_cond_skips((n - 1) as nat, block, 0);
            }
        }
    }
}

proof fn process_else_skips(n: nat, st: PpState, span: SourceSpan)
    requires
        st.conds.len() > 0,
    ensures
        skips(st, process_else(n, st, span)),
    decreases n, 1int,
{
    let frame = st.conds.last();
    let entered = PpState {
        conds: st.conds.drop_last().push(
            CondFrame { included: true, ctx: CondFrameContext::Else, ..frame },
        ),
        ..st
    };
    let entered = skip_extra(entered, Message::ExtraAfterElse);
    assert(entered.conds.drop_last() =~= st.conds.drop_last());
    assert(entered.conds.take(entered.conds.len() - 1) =~= entered.conds.drop_last());
    if n > 0 {
        skip_cond_skips((n - 1) as nat, entered, 0);
    }
}

/// A block that is skipped writes nothing, whatever stands in it, and leaves the
/// conditionals around its own alone.
pub proof fn skipped_blocks_write_nothing(n: nat, st: PpState)
    requires
        st.conds.len() > 0,
    ensures
        skips(st, skip_cond(n, st, 0)),
{
    skip_cond_skips(n, st, 0);
}

/// A new conditional compilation block entered.
pub open spec fn enter_cond(n: nat, st: PpState, kind: CondKind, span: SourceSpan, included: bool) -> POut<()> {
    begin_block(
        n,
        st,
        CondFrame { kind, span, included, ctx: CondFrameContext::Then },
    )
}

/// An "#if" directive.
#[verifier::opaque]
pub open spec fn process_if(n: nat, st: PpState, span: SourceSpan) -> POut<()> {
    let o = process_constexpr(n, st);
    match o.r {
        Err(e) => POut { st: o.st, r: Err(e) },
        Ok(None) => broke(o.st, span, Message::BareIf),
        Ok(Some(truth)) => enter_cond(n, o.st, CondKind::If, span, truth),
    }
}

/// An "#ifdef" directive.
#[verifier::opaque]
pub open spec fn process_ifdef(n: nat, st: PpState, span: SourceSpan) -> POut<()> {
    let o = process_macro(st, span, Message::NoNameInIfdef);
    match o.r {
        Err(e) => POut { st: o.st, r: Err(e) },
        Ok((name, _)) => {
            let st = skip_extra(o.st, Message::ExtraAfterIfdef);
            enter_cond(n, st, CondKind::Ifdef, span, macro_named(st.x, name) is Some)
        },
    }
}

/// An "#ifndef" directive.
#[verifier::opaque]
pub open spec fn process_ifndef(n: nat, st: PpState, span: SourceSpan) -> POut<()> {
    let o = process_macro(st, span, Message::NoNameInIfndef);
    match o.r {
        Err(e) => POut { st: o.st, r: Err(e) },
        Ok((name, _)) => {
            let st = skip_extra(o.st, Message::ExtraAfterIfndef);
            enter_cond(n, st, CondKind::Ifndef, span, macro_named(st.x, name) is None)
        },
    }
}

/// Of an "#ifdef" and an "#ifndef" of the same name exactly one enters its block.
pub proof fn ifdef_and_ifndef_are_opposites(n: nat, st: PpState, span: SourceSpan, name: Symbol)
    requires
        st.input.len() > 0,
        is_mol(st.input[0]),
        st.input[0].kind == PreTokenKind::Ident(name),
    ensures
        ({
            let after = with_input(st, st.input.skip(1));
            let a = skip_extra(after, Message::ExtraAfterIfdef);
            let b = skip_extra(after, Message::ExtraAfterIfndef);
            let found = macro_named(st.x, name) is Some;
            &&& process_ifdef(n, st, span) == enter_cond(n, a, CondKind::Ifdef, span, found)
            &&& process_ifndef(n, st, span) == enter_cond(n, b, CondKind::Ifndef, span, !found)
        }),
{
    reveal(process_ifdef);
    reveal(process_ifndef);
    reveal(process_macro);
}

/// The first `n` tokens of a line as text.
pub open spec fn line_text(x: Expansion, line: Seq<PreToken>, n: nat) -> Seq<u8>
    decreases n,
{
    if n == 0 {
        Seq::empty()
    } else {
        let before = line_text(x, line, (n - 1) as nat);
        let spaced = if before.len() > 0 && line[n - 1].follows_space {
            before.push(ascii::SPACE)
        } else {
            before
        };
        spaced + spell(x, line[n - 1])
    }
}

/// A "#warning" or "#error" directive.
#[verifier::opaque]
pub open spec fn process_warning_error(st: PpState, span: SourceSpan, is_error: bool) -> POut<()> {
    let n = line_len(st.input, 0);
    let text = line_text(st.x, st.input.take(n as int), n);
    let message = Message::Text(st.x.spellings.len() as usize);
    let x = Expansion { spellings: st.x.spellings.push(text), ..st.x };
    let st = with_input(st, st.input.skip(n as int));
    if is_error {
        broke(with_x(st, x), span, message)
    } else {
        came_to(with_x(st, warned(x, span, message)), ())
    }
}

/// The name of a file in an "#include" directive.
pub struct FilenameView {
    pub name: Seq<u8>,
    pub span: SourceSpan,
    pub is_quoted: bool,
}

/// The filename between "<" and ">" from `k` on, after what was read.
pub open spec fn angle_name(
    x: Expansion,
    tokens: Seq<PreToken>,
    k: int,
    name: Seq<u8>,
    span: SourceSpan,
) -> Result<FilenameView, Error>
    decreases tokens.len() - k,
{
    if k < 0 || k >= tokens.len() {
        Err(Error::Terminate(span, Message::ExpectedPunct(Punct::Gt)))
    } else if tokens[k].kind == PreTokenKind::Punct(Punct::Gt) {
        if name.len() == 0 {
            Err(Error::Terminate(span, Message::EmptyFilename))
        } else {
            Ok(FilenameView { name, span, is_quoted: false })
        }
    } else {
        let spaced = if name.len() > 0 && tokens[k].follows_space {
            name.push(ascii::SPACE)
        } else {
            name
        };
        angle_name(x, tokens, k + 1, spaced + spell(x, tokens[k]), span)
    }
}

/// The filename between quotes.
pub open spec fn quoted_name(spelling: Seq<u8>, span: SourceSpan) -> Result<FilenameView, Error> {
    if spelling.len() >= 2 && spelling[0] == ascii::DQUOTE && spelling.last() == ascii::DQUOTE {
        Ok(
            FilenameView {
                name: spelling.subrange(1, spelling.len() - 1),
                span,
                is_quoted: true,
            },
        )
    } else {
        Err(Error::Terminate(span, Message::ExpectedFilename))
    }
}

/// The filename in some tokens; `None` if there is none before expansion.
#[verifier::opaque]
pub open spec fn plain_filename(x: Expansion, span: SourceSpan, tokens: Seq<PreToken>) -> XOut<
    Option<FilenameView>,
> {
    if tokens.len() == 0 {
        XOut { st: x, r: Err(Error::Terminate(span, Message::BareInclude)) }
    } else if tokens[0].kind == PreTokenKind::StrLit {
        match quoted_name(spell(x, tokens[0]), tokens[0].span) {
            Err(e) => XOut { st: x, r: Err(e) },
            Ok(filename) => XOut {
                st: if tokens.len() > 1 {
                    warned(x, tokens[1].span, Message::ExtraAfterInclude)
                } else {
                    x
                },
                r: Ok(Some(filename)),
            },
        }
    } else if tokens[0].kind == PreTokenKind::Punct(Punct::Lt) {
        match angle_name(x, tokens, 1, Seq::empty(), tokens[0].span) {
            Err(e) => XOut { st: x, r: Err(e) },
            Ok(filename) => XOut { st: x, r: Ok(Some(filename)) },
        }
    } else {
        XOut { st: x, r: Ok(None) }
    }
}

/// The filename in some tokens, expanded once if there is none before.
#[verifier::opaque]
pub open spec fn include_filename(
    n: nat,
    x: Expansion,
    span: SourceSpan,
    tokens: Seq<PreToken>,
) -> XOut<
    FilenameView,
> {
    let o = plain_filename(x, span, tokens);
    match o.r {
        Err(e) => XOut { st: o.st, r: Err(e) },
        Ok(Some(filename)) => XOut { st: o.st, r: Ok(filename) },
        Ok(None) => {
            let o = expand_all(n, o.st, tokens);
            match o.r {
                Err(e) => XOut { st: o.st, r: Err(e) },
                Ok(tokens) => {
                    let o = plain_filename(o.st, span, tokens);
                    match o.r {
                        Err(e) => XOut { st: o.st, r: Err(e) },
                        Ok(Some(filename)) => XOut { st: o.st, r: Ok(filename) },
                        Ok(None) => XOut {
                            st: o.st,
                            r: Err(Error::Terminate(tokens[0].span, Message::ExpectedFilename)),
                        },
                    }
                },
            }
        },
    }
}

/// An "#include" directive up to where the file is needed.
#[verifier::opaque]
pub open spec fn process_include(n: nat, st: PpState, span: SourceSpan) -> POut<Step> {
    let len = line_len(st.input, 0);
    let line = st.input.take(len as int);
    let st = with_input(st, st.input.skip(len as int));
    let o = include_filename(n, st.x, span, line);
    let st = with_x(st, o.st);
    match o.r {
        Err(e) => POut { st, r: Err(e) },
        Ok(filename) => if filename.name.len() == 0 {
            broke(st, filename.span, Message::EmptyFilename)
        } else {
            came_to(
                with_x(
                    st,
                    Expansion { spellings: st.x.spellings.push(filename.name), ..st.x },
                ),
                Step::File(
                    IncludeFilename {
                        name: st.x.spellings.len() as usize,
                        span: filename.span,
                        is_quoted: filename.is_quoted,
                    },
                ),
            )
        },
    }
}

/// A step after which there is more to preprocess.
pub open spec fn and_more(o: POut<()>) -> POut<Step> {
    match o.r {
        Err(e) => POut { st: o.st, r: Err(e) },
        Ok(_) => came_to(o.st, Step::More),
    }
}

/// A directive, after its name.
#[verifier::opaque]
pub open spec fn process_directive(n: nat, st: PpState, span: SourceSpan, token: PreToken) -> POut<
    Step,
> {
    match directive_of(st.x.names, token) {
        Some(Directive::IncludeFile) => process_include(n, st, span),
        Some(Directive::Define) => and_more(process_define(st, span)),
        Some(Directive::Undef) => and_more(process_undef(st, span)),
        Some(Directive::If) => and_more(process_if(n, st, span)),
        Some(Directive::Ifdef) => and_more(process_ifdef(n, st, span)),
        Some(Directive::Ifndef) => and_more(process_ifndef(n, st, span)),
        Some(Directive::Elif) => and_more(process_elif(n, st, span)),
        Some(Directive::Else) => and_more(process_else(n, st, span)),
        Some(Directive::Endif) => and_more(process_endif(st, span)),
        Some(Directive::Error) => and_more(process_warning_error(st, token.span, true)),
        Some(Directive::Warning) => and_more(process_warning_error(st, token.span, false)),
        None => broke(st, token.span, Message::InvalidDirective),
    }
}

/// The message for a conditional compilation block that does not end.
pub open spec fn unterminated(kind: CondKind) -> Message {
    match kind {
        CondKind::If => Message::UnterminatedIf,
        CondKind::Ifdef => Message::UnterminatedIfdef,
        CondKind::Ifndef => Message::UnterminatedIfndef,
    }
}

/// The end of a file, where the file that waits for it goes on.
///
/// The EOF sentinel belongs to the preprocessed tokens only if no file waits.
#[verifier::opaque]
pub open spec fn end_file(st: PpState, eof: Option<PreToken>) -> POut<Step> {
    let st = if st.files.len() == 0 && eof is Some {
        PpState { out: st.out.push(eof.unwrap()), ..st }
    } else {
        st
    };
    if st.conds.len() > 0 {
        broke(st, st.conds.last().span, unterminated(st.conds.last().kind))
    } else if st.files.len() == 0 {
        came_to(st, Step::Done)
    } else {
        came_to(
            PpState {
                input: st.files.last().input,
                conds: st.files.last().conds,
                files: st.files.drop_last(),
                ..st
            },
            Step::More,
        )
    }
}

/// A token that is not expanded.
#[verifier::opaque]
pub open spec fn process_token(n: nat, st: PpState, token: PreToken) -> POut<Step> {
    if !(token.at_bol && token.kind == PreTokenKind::Punct(Punct::Hash)) {
        came_to(PpState { out: st.out.push(token), ..st }, Step::More)
    } else if st.input.len() > 0 && is_mol(st.input[0]) {
        process_directive(n, with_input(st, st.input.skip(1)), token.span, st.input[0])
    } else {
        came_to(st, Step::More)
    }
}

/// The next token preprocessed.
#[verifier::opaque]
pub open spec fn step(n: nat, st: PpState) -> POut<Step> {
    if st.input.len() == 0 {
        end_file(st, None)
    } else if st.input[0].kind == PreTokenKind::Eof {
        end_file(with_input(st, st.input.skip(1)), Some(st.input[0]))
    } else {
        let o = try_expand(n, st.x, st.input[0], st.input.skip(1));
        match o.r {
            Err(e) => POut { st: with_x(with_input(st, st.input.skip(1)), o.st), r: Err(e) },
            Ok((true, rest)) => came_to(with_x(with_input(st, rest), o.st), Step::More),
            Ok((false, rest)) => process_token(
                n,
                with_x(with_input(st, rest), o.st),
                st.input[0],
            ),
        }
    }
}

/// The input preprocessed in at most `n` steps, until it ends or a file is
/// needed.
pub open spec fn preprocess(n: nat, st: PpState) -> POut<Step>
    decreases n,
{
    if n == 0 {
        POut { st, r: Err(Error::Overflow) }
    } else {
        let o = step((n - 1) as nat, st);
        match o.r {
            Ok(Step::More) => preprocess((n - 1) as nat, o.st),
            _ => o,
        }
    }
}

/// A file entered, while the current one waits.
#[verifier::opaque]
pub open spec fn enter_file(st: PpState, path: Seq<char>, name: Seq<char>, text: Seq<u8>) -> POut<()> {
    if text.len() >= u32::MAX {
        POut { st, r: Err(Error::Overflow) }
    } else {
        let id = st.x.sources.len() as usize;
        let t = tokenized(id, spliced(text), st.x.names, true, true);
        let x = Expansion {
            sources: st.x.sources.push(SourceView { id, path, name, original: text }),
            names: t.names,
            ..st.x
        };
        match t.r {
            Err(e) => POut { st: with_x(st, x), r: Err(e) },
            Ok(tokens) => match stream_of(tokens) {
                None => POut { st: with_x(st, x), r: Err(Error::Overflow) },
                Some(input) => came_to(
                    PpState {
                        x,
                        input,
                        conds: Seq::empty(),
                        out: st.out,
                        files: st.files.push(WaitingView { input: st.input, conds: st.conds }),
                    },
                    (),
                ),
            },
        }
    }
}

} // verus!
