//! Macros that are defined before preprocessing starts.

use vstd::prelude::*;
use crate::ascii;
use crate::error::Error;
use crate::names::interned;
use crate::preprocess::directive::{with_macro, PpState, Preprocessor};
use crate::preprocess::expand::{Expansion, Macro, MacroExpander, MacroHandler, MacroView, XOut};
use crate::preprocess::stream::{stream_of, TokenStream};
use crate::source::{copy_bytes, spliced, with_virtual};
use crate::tokenize::PreToken;
use crate::tokenize::scan::tokenized;
use crate::utils::push_bytes;

verus! {

/// The number of macros that always have the same replacement.
pub const BUILTINS: usize = 41;

/// The name of a macro that always has the same replacement.
pub open spec fn builtin_name(k: usize) -> Seq<char> {
    match k {
        0 => "_LP64"@,
        1 => "__C99_MACRO_WITH_VA_ARGS"@,
        2 => "__ELF__"@,
        3 => "__LP64__"@,
        4 => "__SIZEOF_DOUBLE__"@,
        5 => "__SIZEOF_FLOAT__"@,
        6 => "__SIZEOF_INT__"@,
        7 => "__SIZEOF_LONG_DOUBLE__"@,
        8 => "__SIZEOF_LONG_LONG__"@,
        9 => "__SIZEOF_LONG__"@,
        10 => "__SIZEOF_POINTER__"@,
        11 => "__SIZEOF_PTRDIFF_T__"@,
        12 => "__SIZEOF_SHORT__"@,
        13 => "__SIZEOF_SIZE_T__"@,
        14 => "__SIZE_TYPE__"@,
        15 => "__STDC_HOSTED__"@,
        16 => "__STDC_NO_ATOMICS__"@,
        17 => "__STDC_NO_COMPLEX__"@,
        18 => "__STDC_NO_THREADS__"@,
        19 => "__STDC_NO_VLA__"@,
        20 => "__STDC_VERSION__"@,
        21 => "__STDC__"@,
        22 => "__USER_LABEL_PREFIX__"@,
        23 => "__alignof__"@,
        24 => "__amd64"@,
        25 => "__amd64__"@,
        26 => "__chacc__"@,
        27 => "__const__"@,
        28 => "__gnu_linux__"@,
        29 => "__inline__"@,
        30 => "linux"@,
        31 => "__linux"@,
        32 => "__linux__"@,
        33 => "__signed__"@,
        34 => "__typeof__"@,
        35 => "unix"@,
        36 => "__unix"@,
        37 => "__unix__"@,
        38 => "__volatile__"@,
        39 => "__x86_64"@,
        40 => "__x86_64__"@,
        _ => ""@,
    }
}

/// The replacement of a macro that always has the same one.
pub open spec fn builtin_text(k: usize) -> Seq<char> {
    match k {
        0 => "1"@,
        1 => "1"@,
        2 => "1"@,
        3 => "1"@,
        4 => "8"@,
        5 => "4"@,
        6 => "4"@,
        7 => "8"@,
        8 => "8"@,
        9 => "8"@,
        10 => "8"@,
        11 => "8"@,
        12 => "2"@,
        13 => "8"@,
        14 => "unsigned long"@,
        15 => "1"@,
        16 => "1"@,
        17 => "1"@,
        18 => "1"@,
        19 => "1"@,
        20 => "201112L"@,
        21 => "1"@,
        22 => "\"\""@,
        23 => "_Alignof"@,
        24 => "1"@,
        25 => "1"@,
        26 => "1"@,
        27 => "const"@,
        28 => "1"@,
        29 => "inline"@,
        30 => "1"@,
        31 => "1"@,
        32 => "1"@,
        33 => "signed"@,
        34 => "typeof"@,
        35 => "1"@,
        36 => "1"@,
        37 => "1"@,
        38 => "volatile"@,
        39 => "1"@,
        40 => "1"@,
        _ => ""@,
    }
}

fn builtin(k: usize) -> (r: (&'static str, &'static str))
    ensures
        r.0@ == builtin_name(k),
        r.1@ == builtin_text(k),
{
    match k {
        0 => ("_LP64", "1"),
        1 => ("__C99_MACRO_WITH_VA_ARGS", "1"),
        2 => ("__ELF__", "1"),
        3 => ("__LP64__", "1"),
        4 => ("__SIZEOF_DOUBLE__", "8"),
        5 => ("__SIZEOF_FLOAT__", "4"),
        6 => ("__SIZEOF_INT__", "4"),
        7 => ("__SIZEOF_LONG_DOUBLE__", "8"),
        8 => ("__SIZEOF_LONG_LONG__", "8"),
        9 => ("__SIZEOF_LONG__", "8"),
        10 => ("__SIZEOF_POINTER__", "8"),
        11 => ("__SIZEOF_PTRDIFF_T__", "8"),
        12 => ("__SIZEOF_SHORT__", "2"),
        13 => ("__SIZEOF_SIZE_T__", "8"),
        14 => ("__SIZE_TYPE__", "unsigned long"),
        15 => ("__STDC_HOSTED__", "1"),
        16 => ("__STDC_NO_ATOMICS__", "1"),
        17 => ("__STDC_NO_COMPLEX__", "1"),
        18 => ("__STDC_NO_THREADS__", "1"),
        19 => ("__STDC_NO_VLA__", "1"),
        20 => ("__STDC_VERSION__", "201112L"),
        21 => ("__STDC__", "1"),
        22 => ("__USER_LABEL_PREFIX__", "\"\""),
        23 => ("__alignof__", "_Alignof"),
        24 => ("__amd64", "1"),
        25 => ("__amd64__", "1"),
        26 => ("__chacc__", "1"),
        27 => ("__const__", "const"),
        28 => ("__gnu_linux__", "1"),
        29 => ("__inline__", "inline"),
        30 => ("linux", "1"),
        31 => ("__linux", "1"),
        32 => ("__linux__", "1"),
        33 => ("__signed__", "signed"),
        34 => ("__typeof__", "typeof"),
        35 => ("unix", "1"),
        36 => ("__unix", "1"),
        37 => ("__unix__", "1"),
        38 => ("__volatile__", "volatile"),
        39 => ("__x86_64", "1"),
        40 => ("__x86_64__", "1"),
        _ => ("", ""),
    }
}

/// An object-like macro defined from its spelling.
#[verifier::opaque]
pub open spec fn define_text(x: Expansion, name: Seq<u8>, text: Seq<u8>) -> XOut<()> {
    let (names, symbol) = interned(x.names, name);
    match with_virtual(x.sources, text, Some("<built-in>")) {
        None => XOut { st: Expansion { names, ..x }, r: Err(Error::Overflow) },
        Some(sources) => {
            let t = tokenized(x.sources.len() as usize, spliced(text), names, false, false);
            let x = Expansion { sources, names: t.names, ..x };
            match t.r {
                Err(e) => XOut { st: x, r: Err(e) },
                Ok(tokens) => XOut {
                    st: with_macro(
                        x,
                        symbol,
                        MacroView {
                            body: tokens,
                            params: None,
                            is_variadic: false,
                            handler: None,
                        },
                    ),
                    r: Ok(()),
                },
            }
        },
    }
}

/// The macros that always have the same replacement defined from `k` on.
pub open spec fn define_fixed(x: Expansion, k: usize) -> XOut<()>
    decreases BUILTINS - k,
{
    if k >= BUILTINS {
        XOut { st: x, r: Ok(()) }
    } else {
        let o = define_text(
            x,
            vstd::utf8::encode_utf8(builtin_name(k)),
            vstd::utf8::encode_utf8(builtin_text(k)),
        );
        match o.r {
            Err(e) => XOut { st: o.st, r: Err(e) },
            Ok(_) => define_fixed(o.st, (k + 1) as usize),
        }
    }
}

/// A text between quotes.
pub open spec fn quoted(text: Seq<u8>) -> Seq<u8> {
    seq![ascii::DQUOTE] + text + seq![ascii::DQUOTE]
}

/// A macro defined that a handler expands.
pub open spec fn define_handler(x: Expansion, name: Seq<char>, handler: MacroHandler) -> Expansion {
    let (names, symbol) = interned(x.names, vstd::utf8::encode_utf8(name));
    with_macro(
        Expansion { names, ..x },
        symbol,
        MacroView {
            body: Seq::empty(),
            params: None,
            is_variadic: false,
            handler: Some(handler),
        },
    )
}

/// All macros defined that are there before preprocessing starts.
#[verifier::opaque]
pub open spec fn define_builtins(
    x: Expansion,
    version: Seq<u8>,
    date: Seq<u8>,
    time: Seq<u8>,
) -> XOut<()> {
    let o = define_text(x, vstd::utf8::encode_utf8("__VERSION__"@), quoted(version));
    match o.r {
        Err(e) => XOut { st: o.st, r: Err(e) },
        Ok(_) => {
            let o = define_fixed(o.st, 0);
            match o.r {
                Err(e) => XOut { st: o.st, r: Err(e) },
                Ok(_) => {
                    let o = define_text(
                        o.st,
                        vstd::utf8::encode_utf8("__DATE__"@),
                        quoted(date),
                    );
                    match o.r {
                        Err(e) => XOut { st: o.st, r: Err(e) },
                        Ok(_) => {
                            let o = define_text(
                                o.st,
                                vstd::utf8::encode_utf8("__TIME__"@),
                                quoted(time),
                            );
                            match o.r {
                                Err(e) => XOut { st: o.st, r: Err(e) },
                                Ok(_) => XOut {
                                    st: define_handler(
                                        define_handler(o.st, "__FILE__"@, MacroHandler::File),
                                        "__LINE__"@,
                                        MacroHandler::Line,
                                    ),
                                    r: Ok(()),
                                },
                            }
                        },
                    }
                },
            }
        },
    }
}

/// A macro to be defined or undefined by the command line.
pub struct MacroOp {
    /// The name of the macro, and when it is defined, "=" and the replacement
    /// if there is one.
    pub content: Vec<u8>,
    pub is_def: bool,
}

/// The mathematical form of [`MacroOp`].
pub struct MacroOpView {
    pub content: Seq<u8>,
    pub is_def: bool,
}

impl MacroOp {
    pub open spec fn view(&self) -> MacroOpView {
        MacroOpView { content: self.content@, is_def: self.is_def }
    }
}

/// The options of a list, each in its mathematical form.
pub open spec fn op_views(ops: Seq<MacroOp>) -> Seq<MacroOpView> {
    Seq::new(ops.len(), |k: int| ops[k]@)
}

/// Where the first "=" stands from `k` on; the end if there is none.
pub open spec fn equals_sign(content: Seq<u8>, k: nat) -> nat
    decreases content.len() - k,
{
    if k >= content.len() || content[k as int] == ascii::EQ {
        k
    } else {
        equals_sign(content, k + 1)
    }
}

/// The directive that an option of the command line stands for.
#[verifier::opaque]
pub open spec fn op_text(op: MacroOpView) -> Seq<u8> {
    if op.is_def {
        let at = equals_sign(op.content, 0);
        let replacement = if at < op.content.len() {
            op.content.skip(at as int + 1)
        } else {
            vstd::utf8::encode_utf8("1"@)
        };
        vstd::utf8::encode_utf8("#define "@) + op.content.take(at as int)
            + vstd::utf8::encode_utf8(" "@) + replacement
    } else {
        vstd::utf8::encode_utf8("#undef "@) + op.content
    }
}

/// The directives for the first `n` options put before the input, where the
/// directives for the others are.
pub open spec fn prepend_ops(
    x: Expansion,
    ops: Seq<MacroOpView>,
    n: nat,
    input: Seq<PreToken>,
) -> XOut<
    Seq<PreToken>,
>
    decreases n,
{
    if n == 0 || n > ops.len() {
        XOut { st: x, r: Ok(input) }
    } else {
        let text = op_text(ops[n - 1]);
        match with_virtual(x.sources, text, Some("<command-line>")) {
            None => XOut { st: x, r: Err(Error::Overflow) },
            Some(sources) => {
                let t = tokenized(x.sources.len() as usize, spliced(text), x.names, true, false);
                let x = Expansion { sources, names: t.names, ..x };
                match t.r {
                    Err(e) => XOut { st: x, r: Err(e) },
                    Ok(tokens) => prepend_ops(x, ops, (n - 1) as nat, tokens + input),
                }
            },
        }
    }
}

/// A preprocessor before it starts: what it works on, and its input.
#[verifier::opaque]
pub open spec fn initial(
    x: Expansion,
    version: Seq<u8>,
    date: Seq<u8>,
    time: Seq<u8>,
    ops: Seq<MacroOpView>,
    tokens: Seq<PreToken>,
) -> XOut<Seq<PreToken>> {
    let o = define_builtins(x, version, date, time);
    match o.r {
        Err(e) => XOut { st: o.st, r: Err(e) },
        Ok(_) => match stream_of(tokens) {
            None => XOut { st: o.st, r: Err(Error::Overflow) },
            Some(input) => prepend_ops(o.st, ops, ops.len(), input),
        },
    }
}

fn quote(text: &[u8]) -> (r: Vec<u8>)
    ensures
        r@ == quoted(text@),
{
    let mut out: Vec<u8> = Vec::new();
    out.push(ascii::DQUOTE);
    push_bytes(&mut out, text);
    out.push(ascii::DQUOTE);
    assert(out@ =~= quoted(text@));
    out
}

fn text_of_op(op: &MacroOp) -> (r: Vec<u8>)
    ensures
        r@ == op_text(op@),
{
    proof {
        reveal(op_text);
    }
    let content = op.content.as_slice();
    if !op.is_def {
        let mut out = copy_bytes("#undef ".as_bytes());
        push_bytes(&mut out, content);
        return out;
    }
    let mut at: usize = 0;
    while at < content.len() && content[at] != ascii::EQ
        invariant
            at <= content.len(),
            equals_sign(content@, 0) == equals_sign(content@, at as nat),
        decreases content.len() - at,
    {
        at += 1;
    }
    let mut out = copy_bytes("#define ".as_bytes());
    let name = vstd::slice::slice_subrange(content, 0, at);
    assert(name@ =~= content@.take(at as int));
    push_bytes(&mut out, name);
    push_bytes(&mut out, " ".as_bytes());
    if at < content.len() {
        let replacement = vstd::slice::slice_subrange(content, at + 1, content.len());
        assert(replacement@ =~= content@.skip(at + 1));
        push_bytes(&mut out, replacement);
    } else {
        push_bytes(&mut out, "1".as_bytes());
    }
    out
}

impl MacroExpander {
    /// Define an object-like macro from the given spelling.
    fn define_text(&mut self, name: &[u8], text: &[u8]) -> (r: Result<(), Error>)
        requires
            old(self).wf(),
        ensures
            final(self).wf(),
            define_text(old(self)@, name@, text@) == (XOut { st: final(self)@, r }),
    {
        proof {
            reveal(define_text);
        }
        let symbol = self.intern(name);
        let Some((_, tokens)) = self.tokenize_virtual(text, Some("<built-in>"), false) else {
            return Err(Error::Overflow);
        };
        let body = tokens?;
        self.insert_macro(
            symbol,
            Macro { body, params: None, is_variadic: false, handler: None },
        );
        Ok(())
    }

    fn define_fixed(&mut self) -> (r: Result<(), Error>)
        requires
            old(self).wf(),
        ensures
            final(self).wf(),
            define_fixed(old(self)@, 0) == (XOut { st: final(self)@, r }),
    {
        let mut k: usize = 0;
        while k < BUILTINS
            invariant
                self.wf(),
                k <= BUILTINS,
                define_fixed(old(self)@, 0) == define_fixed(self@, k),
            decreases BUILTINS - k,
        {
            let (name, text) = builtin(k);
            self.define_text(name.as_bytes(), text.as_bytes())?;
            k += 1;
        }
        Ok(())
    }

    fn define_handler(&mut self, name: &str, handler: MacroHandler)
        requires
            old(self).wf(),
        ensures
            final(self).wf(),
            final(self)@ == define_handler(old(self)@, name@, handler),
    {
        let symbol = self.intern(name.as_bytes());
        let body: Vec<PreToken> = Vec::new();
        assert(body@ =~= Seq::<PreToken>::empty());
        self.insert_macro(
            symbol,
            Macro { body, params: None, is_variadic: false, handler: Some(handler) },
        );
    }

    fn define_builtins(
        &mut self,
        version: &[u8],
        date: &[u8],
        time: &[u8],
    ) -> (r: Result<(), Error>)
        requires
            old(self).wf(),
        ensures
            final(self).wf(),
            define_builtins(old(self)@, version@, date@, time@) == (XOut { st: final(self)@, r }),
    {
        proof {
            reveal(define_builtins);
        }
        self.define_text("__VERSION__".as_bytes(), quote(version).as_slice())?;
        self.define_fixed()?;
        self.define_text("__DATE__".as_bytes(), quote(date).as_slice())?;
        self.define_text("__TIME__".as_bytes(), quote(time).as_slice())?;
        self.define_handler("__FILE__", MacroHandler::File);
        self.define_handler("__LINE__", MacroHandler::Line);
        Ok(())
    }

    fn prepend_ops(&mut self, ops: &Vec<MacroOp>, input: &mut TokenStream) -> (r: Result<(), Error>)
        requires
            old(self).wf(),
        ensures
            final(self).wf(),
            prepend_ops(old(self)@, op_views(ops@), ops@.len(), old(input)@) == (XOut {
                st: final(self)@,
                r: match r {
                    Ok(_) => Ok::<Seq<PreToken>, Error>(final(input)@),
                    Err(e) => Err(e),
                },
            }),
    {
        let mut n: usize = ops.len();
        while n > 0
            invariant
                self.wf(),
                n <= ops.len(),
                prepend_ops(old(self)@, op_views(ops@), ops@.len(), old(input)@) == prepend_ops(
                    self@,
                    op_views(ops@),
                    n as nat,
                    input@,
                ),
            decreases n,
        {
            assert(op_views(ops@)[n - 1] == ops@[n - 1]@);
            let text = text_of_op(&ops[n - 1]);
            let Some((_, tokens)) = self.tokenize_virtual(
                text.as_slice(),
                Some("<command-line>"),
                true,
            ) else {
                return Err(Error::Overflow);
            };
            let tokens = tokens?;
            input.prepend(&tokens);
            n -= 1;
        }
        Ok(())
    }
}

impl Preprocessor {
    /// Create a new preprocessor for the given token stream.
    ///
    /// The version, the date, and the time are what the macros for them expand
    /// to, without quotes.
    pub fn new(
        expander: MacroExpander,
        version: &[u8],
        date: &[u8],
        time: &[u8],
        macro_ops: &Vec<MacroOp>,
        tokens: &Vec<PreToken>,
    ) -> (r: Result<Preprocessor, Error>)
        requires
            expander.wf(),
        ensures
            ({
                let o = initial(
                    expander@,
                    version@,
                    date@,
                    time@,
                    op_views(macro_ops@),
                    tokens@,
                );
                match o.r {
                    Ok(input) => r is Ok && r->Ok_0.wf() && r->Ok_0@ == (PpState {
                        x: o.st,
                        input,
                        conds: Seq::empty(),
                        out: Seq::empty(),
                        files: Seq::empty(),
                    }),
                    Err(e) => r is Err && r->Err_0 == e,
                }
            }),
    {
        proof {
            reveal(initial);
        }
        let mut expander = expander;
        expander.define_builtins(version, date, time)?;
        let Some(stream) = TokenStream::new(tokens) else {
            return Err(Error::Overflow);
        };
        let mut input = stream;
        expander.prepend_ops(macro_ops, &mut input)?;
        let r = Preprocessor {
            expander,
            input,
            conds: Vec::new(),
            out: Vec::new(),
            files: Vec::new(),
        };
        assert(r@.conds =~= Seq::empty());
        assert(r@.out =~= Seq::empty());
        assert(r@.files =~= Seq::empty());
        Ok(r)
    }
}

} // verus!
