//! What becomes of preprocessed tokens.

use vstd::prelude::*;
use crate::ascii;
use crate::error::Error;
use crate::preprocess::expand::{spell, Expansion, MacroExpander};
use crate::tokenize::{PreToken, PreTokenKind, Token, TokenKind};
use crate::tokenize::lower::{lowered, LowerEnv, LowerOut, LowerState, Lowered, PreTokenResolver};
use crate::utils::push_bytes;

verus! {

/// A token added to lowered tokens; adjacent string literals are folded into
/// one, of the type of the first.
#[verifier::opaque]
pub open spec fn fold_token(tokens: Seq<Token>, token: Token, st: LowerState) -> LowerOut<Seq<Token>> {
    if tokens.len() == 0 {
        LowerOut { st, r: Ok(tokens.push(token)) }
    } else {
        match (tokens.last().kind, token.kind) {
            (TokenKind::Str(a, ty), TokenKind::Str(b, _)) => if a < st.strings.len() && b
                < st.strings.len() && st.strings[a as int].len() > 0 {
                LowerOut {
                    st: LowerState {
                        strings: st.strings.push(
                            st.strings[a as int].drop_last() + st.strings[b as int],
                        ),
                        ..st
                    },
                    r: Ok(
                        tokens.update(
                            tokens.len() - 1,
                            Token {
                                kind: TokenKind::Str(st.strings.len() as usize, ty),
                                ..tokens.last()
                            },
                        ),
                    ),
                }
            } else {
                LowerOut { st, r: Err(Error::Overflow) }
            },
            _ => LowerOut { st, r: Ok(tokens.push(token)) },
        }
    }
}

/// Preprocessed tokens lowered from `k` on, after those that are.
pub open spec fn lower_tokens(
    env: LowerEnv,
    tokens: Seq<PreToken>,
    k: int,
    st: LowerState,
    out: Seq<Token>,
) -> LowerOut<Seq<Token>>
    decreases tokens.len() - k,
{
    if k < 0 || k >= tokens.len() {
        LowerOut { st, r: Ok(out) }
    } else {
        let o = lowered(env, tokens[k], false, st);
        match o.r {
            Err(e) => LowerOut { st: o.st, r: Err(e) },
            Ok(token) => {
                let o = fold_token(out, token, o.st);
                match o.r {
                    Err(e) => LowerOut { st: o.st, r: Err(e) },
                    Ok(out) => lower_tokens(env, tokens, k + 1, o.st, out),
                }
            },
        }
    }
}

/// The preprocessed tokens stored in memory.
pub struct PreprocessedTokens {
    pub tokens: Vec<PreToken>,
}

/// Join two strings, dropping the terminator of the first.
fn join(a: &Vec<u32>, b: &Vec<u32>) -> (r: Vec<u32>)
    requires
        a@.len() > 0,
    ensures
        r@ == a@.drop_last() + b@,
{
    let mut out: Vec<u32> = Vec::new();
    let mut i: usize = 0;
    while i < a.len() - 1
        invariant
            a@.len() > 0,
            i <= a.len() - 1,
            out@ =~= a@.take(i as int),
        decreases a.len() - i,
    {
        out.push(a[i]);
        i += 1;
    }
    assert(out@ =~= a@.drop_last());
    let mut j: usize = 0;
    while j < b.len()
        invariant
            j <= b.len(),
            out@ =~= a@.drop_last() + b@.take(j as int),
        decreases b.len() - j,
    {
        out.push(b[j]);
        j += 1;
        assert(b@.take(j as int) =~= b@.take(j - 1).push(b@[j - 1]));
    }
    assert(b@.take(b@.len() as int) =~= b@);
    out
}

fn push_folded(tokens: &mut Vec<Token>, token: Token, out: &mut Lowered) -> (r: Result<(), Error>)
    ensures
        fold_token(old(tokens)@, token, old(out)@) == (LowerOut {
            st: final(out)@,
            r: match r {
                Ok(_) => Ok::<Seq<Token>, Error>(final(tokens)@),
                Err(e) => Err(e),
            },
        }),
{
    proof {
        reveal(fold_token);
    }
    if tokens.len() == 0 {
        tokens.push(token);
        return Ok(());
    }
    let at: usize = tokens.len() - 1;
    let mut last = tokens[at];
    match (last.kind, token.kind) {
        (TokenKind::Str(a, ty), TokenKind::Str(b, _)) => {
            if a >= out.strings.len() || b >= out.strings.len() || out.strings[a].len() == 0 {
                return Err(Error::Overflow);
            }
            let joined = join(&out.strings[a], &out.strings[b]);
            let ghost content = joined@;
            last.kind = TokenKind::Str(out.strings.len(), ty);
            out.strings.push(joined);
            assert(out@.strings =~= old(out)@.strings.push(content));
            tokens.set(at, last);
            Ok(())
        },
        _ => {
            tokens.push(token);
            Ok(())
        },
    }
}

impl PreprocessedTokens {
    /// Lower the collected preprocessed tokens into regular tokens.
    pub fn lower(&self, resolver: &PreTokenResolver, out: &mut Lowered) -> (r: Result<
        Vec<Token>,
        Error,
    >)
        requires
            resolver.wf(),
        ensures
            lower_tokens(resolver@, self.tokens@, 0, old(out)@, Seq::empty()) == (LowerOut {
                st: final(out)@,
                r: match r {
                    Ok(tokens) => Ok::<Seq<Token>, Error>(tokens@),
                    Err(e) => Err(e),
                },
            }),
    {
        let mut tokens: Vec<Token> = Vec::new();
        let mut k: usize = 0;
        assert(tokens@ =~= Seq::<Token>::empty());
        while k < self.tokens.len()
            invariant
                resolver.wf(),
                k <= self.tokens.len(),
                lower_tokens(resolver@, self.tokens@, 0, old(out)@, Seq::empty()) == lower_tokens(
                    resolver@,
                    self.tokens@,
                    k as int,
                    out@,
                    tokens@,
                ),
            decreases self.tokens.len() - k,
        {
            let token = resolver.lower(self.tokens[k], false, out)?;
            push_folded(&mut tokens, token, out)?;
            k += 1;
        }
        Ok(tokens)
    }
}

/// What a writer has written, and whether that is nothing yet.
pub struct Written {
    pub out: Seq<u8>,
    pub first: bool,
}

/// A preprocessed token written: on a new line if it begins one in the source
/// and is not the first, and after a space if it follows one.
pub open spec fn write_token(w: Written, x: Expansion, token: PreToken) -> Written {
    let out = if (!w.first && token.at_bol) || token.kind == PreTokenKind::Eof {
        w.out.push(ascii::NEWLINE)
    } else {
        w.out
    };
    let out = if !token.at_bol && token.follows_space {
        out.push(ascii::SPACE)
    } else {
        out
    };
    Written { out: out + spell(x, token), first: false }
}

/// The first `n` tokens of a list written after what is there.
pub open spec fn written(w: Written, x: Expansion, tokens: Seq<PreToken>, n: nat) -> Written
    decreases n,
{
    if n == 0 {
        w
    } else {
        write_token(written(w, x, tokens, (n - 1) as nat), x, tokens[n - 1])
    }
}

/// A writer that directly writes out preprocessed tokens.
pub struct PreprocessedWriter {
    out: Vec<u8>,
    first: bool,
}

impl PreprocessedWriter {
    pub closed spec fn view(&self) -> Written {
        Written { out: self.out@, first: self.first }
    }

    /// Create a new preprocessor writer.
    pub fn new() -> (r: PreprocessedWriter)
        ensures
            r@ == (Written { out: Seq::empty(), first: true }),
    {
        let r = PreprocessedWriter { out: Vec::new(), first: true };
        assert(r@.out =~= Seq::<u8>::empty());
        r
    }

    /// Write out a preprocessed token.
    pub fn emit(&mut self, expander: &MacroExpander, token: PreToken)
        requires
            expander.wf(),
        ensures
            final(self)@ == write_token(old(self)@, expander@, token),
    {
        if (!self.first && token.at_bol) || token.is_eof() {
            self.out.push(ascii::NEWLINE);
        }
        if !token.at_bol && token.follows_space {
            self.out.push(ascii::SPACE);
        }
        let spelling = expander.spelling(token);
        push_bytes(&mut self.out, spelling.as_slice());
        self.first = false;
    }

    /// Write out preprocessed tokens.
    pub fn emit_all(&mut self, expander: &MacroExpander, tokens: &Vec<PreToken>)
        requires
            expander.wf(),
        ensures
            final(self)@ == written(old(self)@, expander@, tokens@, tokens@.len()),
    {
        let mut n: usize = 0;
        while n < tokens.len()
            invariant
                expander.wf(),
                n <= tokens.len(),
                self@ == written(old(self)@, expander@, tokens@, n as nat),
            decreases tokens.len() - n,
        {
            self.emit(expander, tokens[n]);
            n += 1;
        }
    }

    /// Return what was written.
    pub fn into_bytes(self) -> (r: Vec<u8>)
        ensures
            r@ == self@.out,
    {
        self.out
    }
}

} // verus!
