//! A preprocessor for the C programming language.

use vstd::prelude::*;
use crate::ascii;
use crate::constexpr::FloatTable;
use crate::error::{Error, Message, Warning};
use crate::maps::{map_insert, map_remove};
use crate::names::{same_bytes, Names};
use crate::parse::state::{HiddenNames, Parser};
use crate::preprocess::directive::{
    angle_name, begin_block, define_macro, defined_name, directive_of, end_file, enter_cond,
    enter_file, evaluate, evaluate_line, include_filename, is_word, leads_to, line_text, lower_line,
    macro_head, params_from, plain_filename, preprocess, process_constexpr, process_define,
    process_directive, process_elif, process_else, process_endif, process_if, process_ifdef,
    process_ifndef, process_include, process_macro, process_token, process_undef,
    process_warning_error, quoted_name, replace_defined, same_body, same_macro, skip_cond,
    skip_directive, skip_extra, step, waiting_views, with_macro, CondFrame, CondFrameContext,
    CondKind, Directive, FilenameView, IncludeFilename, MacroHead, PpState, Preprocessor, Step,
    WaitingFile, WaitingView,
};
use crate::preprocess::expand::{params_view, Expansion, Macro, MacroExpander, XOut};
use crate::preprocess::stream::TokenStream;
use crate::source::{span_text, text_bytes, SourceSpan};
use crate::tokenize::{PreToken, PreTokenKind, Punct, Token, TokenKind};
use crate::tokenize::lower::{FloatLiterals, LowerEnv, LowerState, Lowered, PreTokenResolver};
use crate::tokenize::scan::tokens_in;
use crate::types::Symbol;
use crate::utils::{digits, push_bytes, push_digits};

pub mod arguments;
pub mod branches;
pub mod builtin;
pub mod directive;
pub mod expand;
pub mod sink;
pub mod stream;

verus! {

/// Return whether a token is an identifier that is spelled so.
fn is_named(names: &Names, token: PreToken, text: &str) -> (r: bool)
    ensures
        r == is_word(names@, token, text@),
{
    match token.kind {
        PreTokenKind::Ident(name) => names.is(name, text),
        _ => false,
    }
}

/// Return the directive that a token names, if any.
fn find_directive(names: &Names, token: PreToken) -> (r: Option<Directive>)
    ensures
        r == directive_of(names@, token),
{
    proof {
        reveal(directive_of);
    }
    if is_named(names, token, "include") {
        Some(Directive::IncludeFile)
    } else if is_named(names, token, "define") {
        Some(Directive::Define)
    } else if is_named(names, token, "undef") {
        Some(Directive::Undef)
    } else if is_named(names, token, "if") {
        Some(Directive::If)
    } else if is_named(names, token, "ifdef") {
        Some(Directive::Ifdef)
    } else if is_named(names, token, "ifndef") {
        Some(Directive::Ifndef)
    } else if is_named(names, token, "elif") {
        Some(Directive::Elif)
    } else if is_named(names, token, "else") {
        Some(Directive::Else)
    } else if is_named(names, token, "endif") {
        Some(Directive::Endif)
    } else if is_named(names, token, "error") {
        Some(Directive::Error)
    } else if is_named(names, token, "warning") {
        Some(Directive::Warning)
    } else {
        None
    }
}

fn same_symbols(a: &Vec<Symbol>, b: &Vec<Symbol>) -> (r: bool)
    ensures
        r == (a@ == b@),
{
    if a.len() != b.len() {
        return false;
    }
    let mut i: usize = 0;
    while i < a.len()
        invariant
            i <= a.len(),
            a@.len() == b@.len(),
            a@.take(i as int) =~= b@.take(i as int),
        decreases a.len() - i,
    {
        if a[i] != b[i] {
            assert(a@[i as int] != b@[i as int]);
            return false;
        }
        i += 1;
        assert(a@.take(i as int) =~= b@.take(i as int));
    }
    assert(a@.take(a@.len() as int) =~= a@);
    assert(b@.take(b@.len() as int) =~= b@);
    true
}

fn same_params(a: &Option<Vec<Symbol>>, b: &Option<Vec<Symbol>>) -> (r: bool)
    ensures
        r == (params_view(*a) == params_view(*b)),
{
    match (a, b) {
        (Some(a), Some(b)) => same_symbols(a, b),
        (None, None) => true,
        _ => false,
    }
}

impl MacroExpander {
    fn same_body(&self, a: &Vec<PreToken>, b: &Vec<PreToken>) -> (r: bool)
        requires
            self.wf(),
        ensures
            r == same_body(self@, a@, b@),
    {
        proof {
            reveal(MacroExpander::view);
        }
        if a.len() != b.len() {
            return false;
        }
        let mut k: usize = 0;
        while k < a.len()
            invariant
                self.wf(),
                k <= a.len(),
                a@.len() == b@.len(),
                self@.sources == self.source_map@,
                forall|j: int|
                    0 <= j < k ==> (#[trigger] a@[j]).follows_space == b@[j].follows_space
                        && span_text(self@.sources, a@[j].span) == span_text(
                        self@.sources,
                        b@[j].span,
                    ),
            decreases a.len() - k,
        {
            if a[k].follows_space != b[k].follows_space {
                assert(a@[k as int].follows_space != b@[k as int].follows_space);
                return false;
            }
            let left = self.source_map.text(a[k].span);
            let right = self.source_map.text(b[k].span);
            if !same_bytes(left.as_slice(), right.as_slice()) {
                assert(span_text(self@.sources, a@[k as int].span) != span_text(
                    self@.sources,
                    b@[k as int].span,
                ));
                return false;
            }
            k += 1;
        }
        true
    }

    fn same_macro(&self, old_macro: &Macro, new_macro: &Macro) -> (r: bool)
        requires
            self.wf(),
        ensures
            r == same_macro(self@, old_macro@, new_macro@),
    {
        old_macro.handler.is_none() && old_macro.is_variadic == new_macro.is_variadic
            && same_params(&old_macro.params, &new_macro.params) && self.same_body(
            &old_macro.body,
            &new_macro.body,
        )
    }

    /// Bind a name to a macro.
    pub fn insert_macro(&mut self, name: Symbol, def: Macro)
        requires
            old(self).wf(),
        ensures
            final(self).wf(),
            final(self)@ == with_macro(old(self)@, name, def@),
    {
        proof {
            reveal(MacroExpander::view);
        }
        let ghost view = def@;
        map_insert(&mut self.macros, name.0, self.defs.len());
        self.defs.push(def);
        assert(self@.defs =~= old(self)@.defs.push(view));
    }

    /// Unbind a name.
    pub fn remove_macro(&mut self, name: Symbol)
        requires
            old(self).wf(),
        ensures
            final(self).wf(),
            final(self)@ == (Expansion {
                macros: old(self)@.macros.remove(name.0),
                ..old(self)@
            }),
    {
        proof {
            reveal(MacroExpander::view);
        }
        map_remove(&mut self.macros, name.0);
    }

    /// Define a macro.
    fn define_macro(&mut self, name: Symbol, def: Macro, span: SourceSpan)
        requires
            old(self).wf(),
        ensures
            final(self).wf(),
            final(self)@ == define_macro(old(self)@, name, def@, span),
    {
        proof {
            reveal(define_macro);
        }
        let Some(index) = self.find_macro(name) else {
            self.insert_macro(name, def);
            return;
        };
        assert(self.defs@[index as int]@ == self@.defs[index as int]) by {
            reveal(MacroExpander::view);
        }
        if self.same_macro(&self.defs[index], &def) {
            return;
        }
        self.insert_macro(name, def);
        self.warn(span, Message::RedefinitionOfMacro);
    }

    fn directive(&self, token: PreToken) -> (r: Option<Directive>)
        ensures
            r == directive_of(self@.names, token),
    {
        proof {
            reveal(MacroExpander::view);
        }
        find_directive(&self.names, token)
    }

    fn is_defined_operator(&self, token: PreToken) -> (r: bool)
        ensures
            r == is_word(self@.names, token, "defined"@),
    {
        proof {
            reveal(MacroExpander::view);
        }
        is_named(&self.names, token, "defined")
    }

    /// Replace each "defined MACRO" and "defined(MACRO)" of a line.
    fn replace_defined(&mut self, line: &Vec<PreToken>) -> (r: Result<Vec<PreToken>, Error>)
        requires
            old(self).wf(),
        ensures
            final(self).wf(),
            replace_defined(old(self)@, line@, 0, Seq::empty()) == (XOut {
                st: final(self)@,
                r: tokens_in(r),
            }),
    {
        let mut out: Vec<PreToken> = Vec::new();
        let mut k: usize = 0;
        assert(out@ =~= Seq::<PreToken>::empty());
        while k < line.len()
            invariant
                self.wf(),
                k <= line.len(),
                replace_defined(old(self)@, line@, 0, Seq::empty()) == replace_defined(
                    self@,
                    line@,
                    k as int,
                    out@,
                ),
            decreases line.len() - k,
        {
            let token = line[k];
            if !self.is_defined_operator(token) {
                out.push(token);
                k += 1;
                continue;
            }
            let (name, next) = find_defined_name(line, k)?;
            let value: u64 = if self.find_macro(name).is_some() {
                1
            } else {
                0
            };
            let mut text: Vec<u8> = Vec::new();
            push_digits(&mut text, value as u128);
            assert(text@ =~= digits(value as nat));
            let number = self.synthesize(PreTokenKind::NumLit, token.span, token, text);
            out.push(number);
            k = next;
        }
        Ok(out)
    }

    /// Evaluate a preprocessor expression.
    fn evaluate(&mut self, tokens: Vec<Token>, strings: Vec<Vec<u32>>) -> (r: Result<bool, Error>)
        requires
            old(self).wf(),
            tokens@.len() > 0,
        ensures
            final(self).wf(),
            evaluate(tokens@, crate::parse::state::string_views(strings@), old(self)@) == (XOut {
                st: final(self)@,
                r,
            }),
    {
        proof {
            reveal(evaluate);
            reveal(MacroExpander::view);
        }
        let ghost lowered = tokens@;
        let mut tokens = tokens;
        let last = tokens[tokens.len() - 1].span;
        let span = match last.offset.checked_add(last.len) {
            Some(offset) => SourceSpan { id: last.id, offset, len: 0 },
            None => SourceSpan { id: last.id, offset: last.offset, len: 0 },
        };
        tokens.push(Token { kind: TokenKind::Eof, span });
        let floats = FloatTable::new();
        // No declaration is read here
        let hidden = HiddenNames { va_area: Symbol(0), func: Symbol(0), function: Symbol(0) };
        let names: Vec<Vec<u8>> = Vec::new();
        assert(crate::names::name_views(names@) =~= Seq::<Seq<u8>>::empty());
        let mut parser = Parser::new(tokens, strings, floats, true, hidden, names);
        let value = parser.parse_lone_constexpr();
        assert(parser@.warnings == parser.warnings@) by {
            reveal(Parser::view);
        }
        self.append_warnings(&parser.warnings);
        let no_floats = FloatTable::new();
        match value?.truthy(&no_floats) {
            Ok(truth) => Ok(truth),
            Err(query) => Err(Error::NeedsFloat(query)),
        }
    }

    fn append_warnings(&mut self, warnings: &Vec<Warning>)
        requires
            old(self).wf(),
        ensures
            final(self).wf(),
            final(self)@ == (Expansion {
                warnings: old(self)@.warnings + warnings@,
                ..old(self)@
            }),
    {
        proof {
            reveal(MacroExpander::view);
        }
        let mut i: usize = 0;
        assert(self.warnings@ =~= old(self).warnings@ + warnings@.take(0));
        while i < warnings.len()
            invariant
                i <= warnings.len(),
                self.wf(),
                self.source_map == old(self).source_map,
                self.names == old(self).names,
                self.spellings == old(self).spellings,
                self.hidesets == old(self).hidesets,
                self.defs == old(self).defs,
                self.macros == old(self).macros,
                self.warnings@ == old(self).warnings@ + warnings@.take(i as int),
            decreases warnings.len() - i,
        {
            self.warnings.push(warnings[i]);
            i += 1;
            assert(self.warnings@ =~= old(self).warnings@ + warnings@.take(i as int));
        }
        assert(warnings@.take(warnings@.len() as int) =~= warnings@);
    }

    /// Lower the tokens of a preprocessor expression.
    #[verifier::loop_isolation(false)]
    fn lower_line(&mut self, tokens: &Vec<PreToken>) -> (r: (
        Result<Vec<Token>, Error>,
        Vec<Vec<u32>>,
    ))
        requires
            old(self).wf(),
        ensures
            final(self).wf(),
            r.0 is Ok ==> r.0->Ok_0@.len() == tokens@.len(),
            ({
                let x = old(self)@;
                let env = LowerEnv {
                    sources: x.sources,
                    spellings: x.spellings,
                    names: x.names,
                    literals: Seq::empty(),
                };
                let start = LowerState { strings: Seq::empty(), warnings: x.warnings };
                let l = lower_line(env, tokens@, 0, start, Seq::empty());
                &&& final(self)@ == (Expansion { warnings: l.st.warnings, ..x })
                &&& l.st.strings == crate::parse::state::string_views(r.1@)
                &&& l.r == (match r.0 {
                    Ok(lowered) => Ok::<Seq<Token>, Error>(lowered@),
                    Err(e) => Err(e),
                })
            }),
    {
        proof {
            reveal(MacroExpander::view);
        }
        let mut out = Lowered::new();
        std::mem::swap(&mut out.warnings, &mut self.warnings);
        let literals = FloatLiterals::new();
        let resolver = PreTokenResolver::new(
            &self.source_map,
            &self.spellings,
            &self.names,
            &literals,
        );
        let mut lowered: Vec<Token> = Vec::new();
        let mut r: Result<(), Error> = Ok(());
        let mut k: usize = 0;
        assert(lowered@ =~= Seq::<Token>::empty());
        let ghost start = LowerState { strings: Seq::empty(), warnings: old(self)@.warnings };
        assert(out@.strings =~= Seq::<Seq<u32>>::empty());
        let ghost whole = lower_line(resolver@, tokens@, 0, start, Seq::empty());
        while k < tokens.len()
            invariant
                k <= tokens.len(),
                resolver.wf(),
                lowered@.len() == k,
                r is Ok ==> whole == lower_line(resolver@, tokens@, k as int, out@, lowered@),
                r is Ok,
            decreases tokens.len() - k,
        {
            match resolver.lower(tokens[k], true, &mut out) {
                Ok(token) => {
                    lowered.push(token);
                    k += 1;
                },
                Err(e) => {
                    r = Err(e);
                    break;
                },
            }
        }
        std::mem::swap(&mut out.warnings, &mut self.warnings);
        match r {
            Ok(_) => (Ok(lowered), out.strings),
            Err(e) => (Err(e), out.strings),
        }
    }

    fn evaluate_line(&mut self, tokens: &Vec<PreToken>) -> (r: Result<Option<bool>, Error>)
        requires
            old(self).wf(),
        ensures
            final(self).wf(),
            evaluate_line(old(self)@, tokens@) == (XOut { st: final(self)@, r }),
    {
        proof {
            reveal(evaluate_line);
        }
        if tokens.len() == 0 {
            return Ok(None);
        }
        let (lowered, strings) = self.lower_line(tokens);
        let lowered = lowered?;
        let truth = self.evaluate(lowered, strings)?;
        Ok(Some(truth))
    }

    /// Spell the tokens of a line.
    fn line_text(&self, line: &Vec<PreToken>) -> (r: Vec<u8>)
        requires
            self.wf(),
        ensures
            r@ == line_text(self@, line@, line@.len()),
    {
        let mut text: Vec<u8> = Vec::new();
        let mut i: usize = 0;
        assert(text@ =~= line_text(self@, line@, 0));
        while i < line.len()
            invariant
                self.wf(),
                i <= line.len(),
                text@ == line_text(self@, line@, i as nat),
            decreases line.len() - i,
        {
            let token = line[i];
            if text.len() > 0 && token.follows_space {
                text.push(ascii::SPACE);
            }
            let spelling = self.spelling(token);
            push_bytes(&mut text, spelling.as_slice());
            i += 1;
            assert(text@ =~= line_text(self@, line@, i as nat));
        }
        text
    }

    fn angle_name(&self, tokens: &Vec<PreToken>, span: SourceSpan) -> (r: Result<Filename, Error>)
        requires
            self.wf(),
        ensures
            angle_name(self@, tokens@, 1, Seq::empty(), span) == filename_in(r),
    {
        let mut name: Vec<u8> = Vec::new();
        let mut k: usize = 1;
        assert(name@ =~= Seq::<u8>::empty());
        while k < tokens.len()
            invariant
                self.wf(),
                1 <= k,
                angle_name(self@, tokens@, 1, Seq::empty(), span) == angle_name(
                    self@,
                    tokens@,
                    k as int,
                    name@,
                    span,
                ),
            decreases tokens.len() - k,
        {
            let token = tokens[k];
            if token.is_punct(Punct::Gt) {
                if name.len() == 0 {
                    return Err(Error::Terminate(span, Message::EmptyFilename));
                }
                return Ok(Filename { name, span, is_quoted: false });
            }
            if name.len() > 0 && token.follows_space {
                name.push(ascii::SPACE);
            }
            let spelling = self.spelling(token);
            push_bytes(&mut name, spelling.as_slice());
            k += 1;
        }
        Err(Error::Terminate(span, Message::ExpectedPunct(Punct::Gt)))
    }

    fn plain_filename(&mut self, span: SourceSpan, tokens: &Vec<PreToken>) -> (r: Result<
        Option<Filename>,
        Error,
    >)
        requires
            old(self).wf(),
        ensures
            final(self).wf(),
            plain_filename(old(self)@, span, tokens@) == (XOut {
                st: final(self)@,
                r: match r {
                    Ok(Some(filename)) => Ok::<Option<FilenameView>, Error>(Some(filename@)),
                    Ok(None) => Ok(None),
                    Err(e) => Err(e),
                },
            }),
            tokens@.len() == 0 ==> r is Err,
    {
        proof {
            reveal(plain_filename);
        }
        if tokens.len() == 0 {
            return Err(Error::Terminate(span, Message::BareInclude));
        }
        let first = tokens[0];
        if first.is_str_lit() {
            let spelling = self.spelling(first);
            let filename = find_quoted_name(spelling.as_slice(), first.span)?;
            if tokens.len() > 1 {
                self.warn(tokens[1].span, Message::ExtraAfterInclude);
            }
            return Ok(Some(filename));
        }
        if first.is_punct(Punct::Lt) {
            let filename = self.angle_name(tokens, first.span)?;
            return Ok(Some(filename));
        }
        Ok(None)
    }

    /// Process the filename after an "#include" directive.
    ///
    /// The span should be the span of the "#include" directive. The tokens
    /// should be remaining tokens in the same logical line after the "#include"
    /// directive. This will try to expand the tokens once as a macro if they
    /// are no filename.
    fn include_filename(&mut self, span: SourceSpan, tokens: Vec<PreToken>, n: u64) -> (r: Result<
        Filename,
        Error,
    >)
        requires
            old(self).wf(),
        ensures
            final(self).wf(),
            include_filename(n as nat, old(self)@, span, tokens@) == (XOut {
                st: final(self)@,
                r: filename_in(r),
            }),
    {
        proof {
            reveal(include_filename);
        }
        let filename = self.plain_filename(span, &tokens)?;
        if let Some(filename) = filename {
            return Ok(filename);
        }
        let tokens = self.expand_all(tokens, n)?;
        let filename = self.plain_filename(span, &tokens)?;
        match filename {
            Some(filename) => Ok(filename),
            None => Err(Error::Terminate(tokens[0].span, Message::ExpectedFilename)),
        }
    }
}

/// The name of a file in an "#include" directive.
struct Filename {
    name: Vec<u8>,
    span: SourceSpan,
    is_quoted: bool,
}

impl Filename {
    spec fn view(&self) -> FilenameView {
        FilenameView { name: self.name@, span: self.span, is_quoted: self.is_quoted }
    }
}

spec fn filename_in(r: Result<Filename, Error>) -> Result<FilenameView, Error> {
    match r {
        Ok(filename) => Ok(filename@),
        Err(e) => Err(e),
    }
}

fn find_quoted_name(spelling: &[u8], span: SourceSpan) -> (r: Result<Filename, Error>)
    ensures
        quoted_name(spelling@, span) == filename_in(r),
{
    let len: usize = spelling.len();
    if len < 2 || spelling[0] != ascii::DQUOTE || spelling[len - 1] != ascii::DQUOTE {
        return Err(Error::Terminate(span, Message::ExpectedFilename));
    }
    let inner = vstd::slice::slice_subrange(spelling, 1, len - 1);
    Ok(Filename { name: crate::source::copy_bytes(inner), span, is_quoted: true })
}

fn find_defined_name(line: &Vec<PreToken>, k: usize) -> (r: Result<(Symbol, usize), Error>)
    requires
        k < line@.len(),
    ensures
        defined_name(line@, k as int) == (match r {
            Ok((name, next)) => Ok::<(Symbol, int), Error>((name, next as int)),
            Err(e) => Err(e),
        }),
        r is Ok ==> k < r->Ok_0.1 <= line@.len(),
{
    let left: usize = line.len() - k;
    if left < 2 {
        return Err(Error::Terminate(line[k].span, Message::IdentAfterDefined));
    }
    let next = line[k + 1];
    if !next.is_punct(Punct::LParen) {
        return match next.as_ident() {
            Some(name) => Ok((name, k + 2)),
            None => Err(Error::Terminate(next.span, Message::IdentAfterDefined)),
        };
    }
    if left < 3 {
        return Err(Error::Terminate(next.span, Message::IdentAfterDefined));
    }
    let ident = line[k + 2];
    let Some(name) = ident.as_ident() else {
        return Err(Error::Terminate(ident.span, Message::IdentAfterDefined));
    };
    if left < 4 {
        return Err(Error::Terminate(ident.span, Message::RParenAfterDefined));
    }
    let rparen = line[k + 3];
    if !rparen.is_punct(Punct::RParen) {
        return Err(Error::Terminate(rparen.span, Message::RParenAfterDefined));
    }
    Ok((name, k + 4))
}

/// Read the parameters of a macro, up to the token that ends them.
fn read_params(input: &mut TokenStream) -> (r: Result<(Vec<Symbol>, bool), Error>)
    ensures
        params_from(old(input)@, Seq::empty()) == (match r {
            Ok((params, is_variadic)) => Ok::<(Seq<Symbol>, bool, Seq<PreToken>), Error>(
                (params@, is_variadic, final(input)@),
            ),
            Err(e) => Err(e),
        }),
{
    let mut params: Vec<Symbol> = Vec::new();
    assert(params@ =~= Seq::<Symbol>::empty());
    loop
        invariant
            params_from(old(input)@, Seq::empty()) == params_from(input@, params@),
        decreases input@.len(),
    {
        let Some(token) = input.current() else {
            return Err(Error::Overflow);
        };
        if token.is_punct(Punct::RParen) {
            return Ok((params, false));
        }
        if params.len() > 0 {
            if !token.is_punct(Punct::Comma) {
                return Err(Error::Terminate(token.span, Message::ExpectedPunct(Punct::Comma)));
            }
            input.next();
        }
        let Some(token) = input.current() else {
            return Err(Error::Overflow);
        };
        if token.is_punct(Punct::Ellipsis) {
            input.next();
            return Ok((params, true));
        }
        let Some(ident) = token.as_ident() else {
            return Err(Error::Terminate(token.span, Message::ExpectedIdent));
        };
        input.next();
        params.push(ident);
    }
}

fn read_macro_head(input: &mut TokenStream) -> (r: Result<(Option<Vec<Symbol>>, bool), Error>)
    ensures
        macro_head(old(input)@) == (match r {
            Ok((params, is_variadic)) => Ok::<MacroHead, Error>(
                MacroHead { params: params_view(params), is_variadic, rest: final(input)@ },
            ),
            Err(e) => Err(e),
        }),
{
    proof {
        reveal(macro_head);
    }
    let Some(token) = input.current() else {
        return Ok((None, false));
    };
    if token.follows_space || token.at_bol || !token.is_punct(Punct::LParen) {
        return Ok((None, false));
    }
    input.next();
    let (params, is_variadic) = read_params(input)?;
    let Some(token) = input.current() else {
        return Err(Error::Overflow);
    };
    if !token.is_punct(Punct::RParen) {
        return Err(Error::Terminate(token.span, Message::ExpectedPunct(Punct::RParen)));
    }
    input.next();
    Ok((Some(params), is_variadic))
}

impl Preprocessor {
    pub open spec fn view(&self) -> PpState {
        PpState {
            x: self.expander@,
            input: self.input@,
            conds: self.conds@,
            out: self.out@,
            files: waiting_views(self.files@),
        }
    }

    pub open spec fn wf(&self) -> bool {
        self.expander.wf()
    }

    /// Skip extra tokens in the current logical line, with a warning if there
    /// are any.
    fn skip_extra(&mut self, message: Message)
        requires
            old(self).wf(),
        ensures
            final(self).wf(),
            final(self)@ == skip_extra(old(self)@, message),
    {
        let line = self.input.line();
        if line.len() > 0 {
            self.expander.warn(line[0].span, message);
        }
    }

    /// Process a macro token.
    fn process_macro(&mut self, span: SourceSpan, no_name: Message) -> (r: Result<
        (Symbol, PreToken),
        Error,
    >)
        requires
            old(self).wf(),
        ensures
            final(self).wf(),
            leads_to(process_macro(old(self)@, span, no_name), final(self)@, r),
    {
        proof {
            reveal(process_macro);
        }
        let Some(token) = self.input.next_if_mol() else {
            return Err(Error::Terminate(span, no_name));
        };
        match token.as_ident() {
            Some(name) => Ok((name, token)),
            None => Err(Error::Terminate(token.span, Message::MacroNameNotIdent)),
        }
    }

    /// Process a "#define" directive.
    fn process_define(&mut self, span: SourceSpan) -> (r: Result<(), Error>)
        requires
            old(self).wf(),
        ensures
            final(self).wf(),
            leads_to(process_define(old(self)@, span), final(self)@, r),
    {
        proof {
            reveal(process_define);
        }
        let (name, token) = self.process_macro(span, Message::NoNameInDefine)?;
        let (params, is_variadic) = read_macro_head(&mut self.input)?;
        let body = self.input.line();
        self.expander.define_macro(
            name,
            Macro { body, params, is_variadic, handler: None },
            token.span,
        );
        Ok(())
    }

    /// Process an "#undef" directive.
    fn process_undef(&mut self, span: SourceSpan) -> (r: Result<(), Error>)
        requires
            old(self).wf(),
        ensures
            final(self).wf(),
            leads_to(process_undef(old(self)@, span), final(self)@, r),
    {
        proof {
            reveal(process_undef);
        }
        let (name, _) = self.process_macro(span, Message::NoNameInUndef)?;
        self.skip_extra(Message::ExtraAfterUndef);
        self.expander.remove_macro(name);
        Ok(())
    }

    /// Process a preprocessor expression and return whether it is true.
    ///
    /// If there is no tokens remaining in the current logical line, this
    /// returns `Ok(None)`.
    fn process_constexpr(&mut self, n: u64) -> (r: Result<Option<bool>, Error>)
        requires
            old(self).wf(),
        ensures
            final(self).wf(),
            leads_to(process_constexpr(n as nat, old(self)@), final(self)@, r),
    {
        proof {
            reveal(process_constexpr);
        }
        let line = self.input.line();
        if line.len() == 0 {
            return Ok(None);
        }
        let line = self.expander.replace_defined(&line)?;
        let tokens = self.expander.expand_all(line, n)?;
        self.expander.evaluate_line(&tokens)
    }

    /// Process an "#endif" directive.
    fn process_endif(&mut self, span: SourceSpan) -> (r: Result<(), Error>)
        requires
            old(self).wf(),
        ensures
            final(self).wf(),
            leads_to(process_endif(old(self)@, span), final(self)@, r),
    {
        proof {
            reveal(process_endif);
        }
        if self.conds.pop().is_none() {
            return Err(Error::Terminate(span, Message::EndifWithoutIf));
        }
        self.skip_extra(Message::ExtraAfterEndif);
        Ok(())
    }

    /// Skip tokens until the next matching "#else", "#elif", or "#endif".
    fn skip_cond(&mut self, n: u64) -> (r: Result<(), Error>)
        requires
            old(self).wf(),
        ensures
            final(self).wf(),
            leads_to(skip_cond(n as nat, old(self)@, 0), final(self)@, r),
        decreases n, 3int,
    {
        let mut left: u64 = n;
        let mut depth: u64 = 0;
        let ghost whole = skip_cond(n as nat, self@, 0);
        loop
            invariant
                self.wf(),
                left <= n,
                whole == skip_cond(n as nat, old(self)@, 0),
                whole == skip_cond(left as nat, self@, depth as nat),
            decreases left,
        {
            let ghost st0 = self@;
            let Some(token) = self.input.next() else {
                return Ok(());
            };
            if token.is_eof() {
                return Ok(());
            }
            if !(token.at_bol && token.is_punct(Punct::Hash)) {
                if left == 0 {
                    return Err(Error::Overflow);
                }
                left -= 1;
                continue;
            }
            let Some(name) = self.input.next_if_mol() else {
                if left == 0 {
                    return Err(Error::Overflow);
                }
                left -= 1;
                continue;
            };
            assert(whole == skip_directive(left as nat, self@, token.span, name, depth as nat));
            let directive = self.expander.directive(name);
            if depth == 0 {
                match directive {
                    Some(Directive::Elif) => return self.process_elif(token.span, left),
                    Some(Directive::Else) => return self.process_else(token.span, left),
                    Some(Directive::Endif) => return self.process_endif(token.span),
                    _ => {},
                }
            }
            if left == 0 {
                return Err(Error::Overflow);
            }
            match directive {
                Some(Directive::If) | Some(Directive::Ifdef) | Some(Directive::Ifndef) => {
                    if depth == u64::MAX {
                        return Err(Error::Overflow);
                    }
                    depth += 1;
                },
                Some(Directive::Endif) => {
                    depth -= 1;
                },
                _ => {},
            }
            left -= 1;
            self.input.line();
        }
    }

    fn begin_block(&mut self, frame: CondFrame, n: u64) -> (r: Result<(), Error>)
        requires
            old(self).wf(),
        ensures
            final(self).wf(),
            leads_to(begin_block(n as nat, old(self)@, frame), final(self)@, r),
        decreases n, 0int,
    {
        self.conds.push(frame);
        if frame.included {
            return Ok(());
        }
        if n == 0 {
            return Err(Error::Overflow);
        }
        self.skip_cond(n - 1)
    }

    /// Process an "#elif" directive.
    fn process_elif(&mut self, span: SourceSpan, n: u64) -> (r: Result<(), Error>)
        requires
            old(self).wf(),
        ensures
            final(self).wf(),
            leads_to(process_elif(n as nat, old(self)@, span), final(self)@, r),
        decreases n, 1int,
    {
        let Some(was) = self.conds.pop() else {
            return Err(Error::Terminate(span, Message::ElifWithoutIf));
        };
        if matches!(was.ctx, CondFrameContext::Else) {
            return Err(Error::Terminate(span, Message::ElifAfterElse));
        }
        let mut frame = was;
        frame.ctx = CondFrameContext::Elif;
        if was.included {
            self.conds.push(frame);
            if n == 0 {
                return Err(Error::Overflow);
            }
            return self.skip_cond(n - 1);
        }
        let truth = self.process_constexpr(n)?;
        let Some(included) = truth else {
            return Err(Error::Terminate(span, Message::BareElif));
        };
        frame.included = included;
        self.begin_block(frame, n)
    }

    /// Process an "#else" directive.
    fn process_else(&mut self, span: SourceSpan, n: u64) -> (r: Result<(), Error>)
        requires
            old(self).wf(),
        ensures
            final(self).wf(),
            leads_to(process_else(n as nat, old(self)@, span), final(self)@, r),
        decreases n, 1int,
    {
        if self.conds.len() == 0 {
            return Err(Error::Terminate(span, Message::ElseWithoutIf));
        }
        let was = self.conds[self.conds.len() - 1];
        if matches!(was.ctx, CondFrameContext::Else) {
            return Err(Error::Terminate(span, Message::ElseAfterElse));
        }
        let mut frame = was;
        frame.included = true;
        frame.ctx = CondFrameContext::Else;
        self.conds.pop();
        self.conds.push(frame);
        self.skip_extra(Message::ExtraAfterElse);
        if !was.included {
            return Ok(());
        }
        if n == 0 {
            return Err(Error::Overflow);
        }
        self.skip_cond(n - 1)
    }

    /// Enter a new conditional compilation block.
    fn enter_cond(&mut self, kind: CondKind, span: SourceSpan, included: bool, n: u64) -> (r: Result<
        (),
        Error,
    >)
        requires
            old(self).wf(),
        ensures
            final(self).wf(),
            leads_to(enter_cond(n as nat, old(self)@, kind, span, included), final(self)@, r),
    {
        self.begin_block(CondFrame { kind, span, included, ctx: CondFrameContext::Then }, n)
    }

    /// Process an "#if" directive.
    fn process_if(&mut self, span: SourceSpan, n: u64) -> (r: Result<(), Error>)
        requires
            old(self).wf(),
        ensures
            final(self).wf(),
            leads_to(process_if(n as nat, old(self)@, span), final(self)@, r),
    {
        proof {
            reveal(process_if);
        }
        let truth = self.process_constexpr(n)?;
        match truth {
            Some(truth) => self.enter_cond(CondKind::If, span, truth, n),
            None => Err(Error::Terminate(span, Message::BareIf)),
        }
    }

    /// Process an "#ifdef" directive.
    fn process_ifdef(&mut self, span: SourceSpan, n: u64) -> (r: Result<(), Error>)
        requires
            old(self).wf(),
        ensures
            final(self).wf(),
            leads_to(process_ifdef(n as nat, old(self)@, span), final(self)@, r),
    {
        proof {
            reveal(process_ifdef);
        }
        let (name, _) = self.process_macro(span, Message::NoNameInIfdef)?;
        self.skip_extra(Message::ExtraAfterIfdef);
        let defined = self.expander.find_macro(name).is_some();
        self.enter_cond(CondKind::Ifdef, span, defined, n)
    }

    /// Process an "#ifndef" directive.
    fn process_ifndef(&mut self, span: SourceSpan, n: u64) -> (r: Result<(), Error>)
        requires
            old(self).wf(),
        ensures
            final(self).wf(),
            leads_to(process_ifndef(n as nat, old(self)@, span), final(self)@, r),
    {
        proof {
            reveal(process_ifndef);
        }
        let (name, _) = self.process_macro(span, Message::NoNameInIfndef)?;
        self.skip_extra(Message::ExtraAfterIfndef);
        let defined = self.expander.find_macro(name).is_some();
        self.enter_cond(CondKind::Ifndef, span, !defined, n)
    }

    /// Process a "#warning" or "#error" directive.
    fn process_warning_error(&mut self, span: SourceSpan, is_error: bool) -> (r: Result<(), Error>)
        requires
            old(self).wf(),
        ensures
            final(self).wf(),
            leads_to(process_warning_error(old(self)@, span, is_error), final(self)@, r),
    {
        proof {
            reveal(process_warning_error);
        }
        let line = self.input.line();
        let text = self.expander.line_text(&line);
        let message = Message::Text(self.expander.new_spelling(text));
        if is_error {
            Err(Error::Terminate(span, message))
        } else {
            self.expander.warn(span, message);
            Ok(())
        }
    }

    /// Process an "#include" directive.
    fn process_include(&mut self, span: SourceSpan, n: u64) -> (r: Result<Step, Error>)
        requires
            old(self).wf(),
        ensures
            final(self).wf(),
            leads_to(process_include(n as nat, old(self)@, span), final(self)@, r),
    {
        proof {
            reveal(process_include);
        }
        let line = self.input.line();
        let filename = self.expander.include_filename(span, line, n)?;
        if filename.name.len() == 0 {
            return Err(Error::Terminate(filename.span, Message::EmptyFilename));
        }
        let name: usize = self.expander.new_spelling(filename.name);
        Ok(
            Step::File(
                IncludeFilename { name, span: filename.span, is_quoted: filename.is_quoted },
            ),
        )
    }

    /// Process a directive after its name.
    fn process_directive(&mut self, span: SourceSpan, token: PreToken, n: u64) -> (r: Result<
        Step,
        Error,
    >)
        requires
            old(self).wf(),
        ensures
            final(self).wf(),
            leads_to(process_directive(n as nat, old(self)@, span, token), final(self)@, r),
    {
        proof {
            reveal(process_directive);
        }
        let Some(directive) = self.expander.directive(token) else {
            return Err(Error::Terminate(token.span, Message::InvalidDirective));
        };
        match directive {
            Directive::IncludeFile => {
                return self.process_include(span, n);
            },
            Directive::Define => self.process_define(span)?,
            Directive::Undef => self.process_undef(span)?,
            Directive::If => self.process_if(span, n)?,
            Directive::Ifdef => self.process_ifdef(span, n)?,
            Directive::Ifndef => self.process_ifndef(span, n)?,
            Directive::Elif => self.process_elif(span, n)?,
            Directive::Else => self.process_else(span, n)?,
            Directive::Endif => self.process_endif(span)?,
            Directive::Error => self.process_warning_error(token.span, true)?,
            Directive::Warning => self.process_warning_error(token.span, false)?,
        }
        Ok(Step::More)
    }

    /// End the current file, and go on with the one that waits for it.
    fn end_file(&mut self, eof: Option<PreToken>) -> (r: Result<Step, Error>)
        requires
            old(self).wf(),
        ensures
            final(self).wf(),
            leads_to(end_file(old(self)@, eof), final(self)@, r),
    {
        proof {
            reveal(end_file);
        }
        if self.files.len() == 0 {
            if let Some(token) = eof {
                self.out.push(token);
            }
        }
        if self.conds.len() > 0 {
            let frame = self.conds[self.conds.len() - 1];
            let message = match frame.kind {
                CondKind::If => Message::UnterminatedIf,
                CondKind::Ifdef => Message::UnterminatedIfdef,
                CondKind::Ifndef => Message::UnterminatedIfndef,
            };
            return Err(Error::Terminate(frame.span, message));
        }
        match self.files.pop() {
            Some(file) => {
                self.input = file.input;
                self.conds = file.conds;
                assert(self@.files =~= old(self)@.files.drop_last());
                Ok(Step::More)
            },
            None => Ok(Step::Done),
        }
    }

    fn process_token(&mut self, token: PreToken, n: u64) -> (r: Result<Step, Error>)
        requires
            old(self).wf(),
        ensures
            final(self).wf(),
            leads_to(process_token(n as nat, old(self)@, token), final(self)@, r),
    {
        proof {
            reveal(process_token);
        }
        if !(token.at_bol && token.is_punct(Punct::Hash)) {
            self.out.push(token);
            return Ok(Step::More);
        }
        let Some(directive) = self.input.next_if_mol() else {
            return Ok(Step::More);
        };
        self.process_directive(token.span, directive, n)
    }

    /// Preprocess the next token.
    fn step(&mut self, n: u64) -> (r: Result<Step, Error>)
        requires
            old(self).wf(),
        ensures
            final(self).wf(),
            leads_to(step(n as nat, old(self)@), final(self)@, r),
    {
        proof {
            reveal(step);
        }
        let Some(token) = self.input.next() else {
            return self.end_file(None);
        };
        if token.is_eof() {
            return self.end_file(Some(token));
        }
        if self.expander.try_expand_in(token, &mut self.input, n)? {
            return Ok(Step::More);
        }
        self.process_token(token, n)
    }

    /// Preprocess the token stream, until it ends or a file is needed.
    pub fn preprocess(&mut self) -> (r: Result<Step, Error>)
        requires
            old(self).wf(),
        ensures
            final(self).wf(),
            leads_to(preprocess(u64::MAX as nat, old(self)@), final(self)@, r),
    {
        let mut left: u64 = u64::MAX;
        let ghost whole = preprocess(u64::MAX as nat, self@);
        while left > 0
            invariant
                self.wf(),
                whole == preprocess(u64::MAX as nat, old(self)@),
                whole == preprocess(left as nat, self@),
            decreases left,
        {
            left -= 1;
            let r = self.step(left)?;
            match r {
                Step::More => {},
                _ => {
                    return Ok(r);
                },
            }
        }
        Err(Error::Overflow)
    }

    /// Preprocess a file first, which the current one asks for.
    pub fn enter_file(&mut self, path: String, name: String, text: String) -> (r: Result<(), Error>)
        requires
            old(self).wf(),
        ensures
            final(self).wf(),
            leads_to(
                enter_file(old(self)@, path@, name@, text_bytes(&text)),
                final(self)@,
                r,
            ),
    {
        proof {
            reveal(enter_file);
        }
        let Some(tokens) = self.expander.tokenize_file(path, name, text) else {
            return Err(Error::Overflow);
        };
        let tokens = tokens?;
        let Some(input) = TokenStream::new(&tokens) else {
            return Err(Error::Overflow);
        };
        let mut file = WaitingFile { input, conds: Vec::new() };
        std::mem::swap(&mut file.input, &mut self.input);
        std::mem::swap(&mut file.conds, &mut self.conds);
        let ghost view = WaitingView { input: file.input@, conds: file.conds@ };
        self.files.push(file);
        assert(self@.files =~= old(self)@.files.push(view));
        assert(self@.conds =~= Seq::<CondFrame>::empty());
        Ok(())
    }
}

} // verus!
