//! A stream of preprocessor tokens.

use vstd::prelude::*;
use std::collections::VecDeque;
use crate::source::SourceSpan;
use crate::tokenize::{PreToken, PreTokenKind};

verus! {

/// Some tokens as a stream, which ends with an EOF sentinel; `None` if there
/// are no tokens.
#[verifier::opaque]
pub open spec fn stream_of(tokens: Seq<PreToken>) -> Option<Seq<PreToken>> {
    if tokens.len() == 0 {
        None
    } else if tokens.last().kind == PreTokenKind::Eof {
        Some(tokens)
    } else if tokens.last().span.offset + tokens.last().span.len > usize::MAX {
        None
    } else {
        Some(tokens.push(eof_after(tokens.last().span)))
    }
}

/// An EOF sentinel right behind a span.
pub open spec fn eof_after(span: SourceSpan) -> PreToken {
    PreToken {
        kind: PreTokenKind::Eof,
        span: SourceSpan { id: span.id, offset: (span.offset + span.len) as usize, len: 0 },
        at_bol: false,
        follows_space: false,
        hideset: None,
        synthetic: None,
        origin: None,
    }
}

/// The token at the front of a stream, if there is one.
pub open spec fn front(input: Seq<PreToken>) -> Option<PreToken> {
    if input.len() > 0 {
        Some(input[0])
    } else {
        None
    }
}

/// Whether a token is in the middle of a logical line.
pub open spec fn is_mol(token: PreToken) -> bool {
    !token.at_bol && token.kind != PreTokenKind::Eof
}

/// How many tokens of a stream, from the `k`th on, are in the middle of the
/// same logical line; with the `k` before.
pub open spec fn line_len(input: Seq<PreToken>, k: nat) -> nat
    decreases input.len() - k,
{
    if k < input.len() && is_mol(input[k as int]) {
        line_len(input, k + 1)
    } else {
        k
    }
}

/// Copy some tokens.
pub fn copy_tokens(tokens: &Vec<PreToken>) -> (r: Vec<PreToken>)
    ensures
        r@ == tokens@,
{
    let mut out: Vec<PreToken> = Vec::new();
    let mut i: usize = 0;
    while i < tokens.len()
        invariant
            i <= tokens.len(),
            out@ =~= tokens@.take(i as int),
        decreases tokens.len() - i,
    {
        out.push(tokens[i]);
        i += 1;
        assert(tokens@.take(i as int) =~= tokens@.take(i - 1).push(tokens@[i - 1]));
    }
    assert(tokens@.take(tokens@.len() as int) =~= tokens@);
    out
}

/// A consumable and prependable stream of tokens.
pub struct TokenStream {
    tokens: VecDeque<PreToken>,
}

impl TokenStream {
    pub closed spec fn view(&self) -> Seq<PreToken> {
        self.tokens@
    }

    /// Create a new token stream from the given tokens.
    pub fn new(tokens: &Vec<PreToken>) -> (r: Option<TokenStream>)
        ensures
            stream_of(tokens@) == (match r {
                Some(stream) => Some(stream@),
                None => None,
            }),
    {
        proof {
            reveal(stream_of);
        }
        if tokens.len() == 0 {
            return None;
        }
        let mut out: VecDeque<PreToken> = VecDeque::new();
        let mut i: usize = 0;
        while i < tokens.len()
            invariant
                i <= tokens.len(),
                out@ =~= tokens@.take(i as int),
            decreases tokens.len() - i,
        {
            out.push_back(tokens[i]);
            i += 1;
            assert(tokens@.take(i as int) =~= tokens@.take(i - 1).push(tokens@[i - 1]));
        }
        assert(tokens@.take(tokens@.len() as int) =~= tokens@);
        let last = tokens[tokens.len() - 1];
        if !last.is_eof() {
            let Some(offset) = last.span.offset.checked_add(last.span.len) else {
                return None;
            };
            out.push_back(
                PreToken {
                    kind: PreTokenKind::Eof,
                    span: SourceSpan { id: last.span.id, offset, len: 0 },
                    at_bol: false,
                    follows_space: false,
                    hideset: None,
                    synthetic: None,
                    origin: None,
                },
            );
        }
        Some(TokenStream { tokens: out })
    }

    /// Return the current token.
    pub fn current(&self) -> (r: Option<PreToken>)
        ensures
            r == front(self@),
    {
        if self.tokens.len() > 0 {
            Some(self.tokens[0])
        } else {
            None
        }
    }

    /// Consume the next token.
    pub fn next(&mut self) -> (r: Option<PreToken>)
        ensures
            r == front(old(self)@),
            final(self)@ == (if old(self)@.len() > 0 {
                old(self)@.skip(1)
            } else {
                old(self)@
            }),
    {
        let r = self.tokens.pop_front();
        assert(old(self)@.len() > 0 ==> self@ =~= old(self)@.skip(1));
        r
    }

    /// Consume the next token if it is in the middle of a logical line.
    pub fn next_if_mol(&mut self) -> (r: Option<PreToken>)
        ensures
            if old(self)@.len() > 0 && is_mol(old(self)@[0]) {
                r == Some(old(self)@[0]) && final(self)@ == old(self)@.skip(1)
            } else {
                r is None && final(self)@ == old(self)@
            },
    {
        match self.current() {
            Some(token) => if !token.at_bol && !token.is_eof() {
                self.next()
            } else {
                None
            },
            None => None,
        }
    }

    /// Consume the rest of the current logical line.
    pub fn line(&mut self) -> (r: Vec<PreToken>)
        ensures
            r@.len() == line_len(old(self)@, 0) <= old(self)@.len(),
            r@ == old(self)@.take(line_len(old(self)@, 0) as int),
            final(self)@ == old(self)@.skip(line_len(old(self)@, 0) as int),
    {
        let mut out: Vec<PreToken> = Vec::new();
        let ghost all = self@;
        assert(all.skip(0) =~= all);
        loop
            invariant_except_break
                out@.len() <= all.len(),
                out@ =~= all.take(out@.len() as int),
                self@ == all.skip(out@.len() as int),
                line_len(all, 0) == line_len(all, out@.len()),
            ensures
                out@.len() == line_len(all, 0) <= all.len(),
                out@ == all.take(line_len(all, 0) as int),
                self@ == all.skip(line_len(all, 0) as int),
            decreases self@.len(),
        {
            match self.next_if_mol() {
                Some(token) => {
                    out.push(token);
                    assert(self@ =~= all.skip(out@.len() as int));
                },
                None => {
                    break;
                },
            }
        }
        out
    }

    /// Prepend tokens to the front of the stream.
    pub fn prepend(&mut self, tokens: &Vec<PreToken>)
        ensures
            final(self)@ == tokens@ + old(self)@,
    {
        let mut n: usize = tokens.len();
        assert(tokens@.skip(tokens@.len() as int) + self@ =~= self@);
        while n > 0
            invariant
                n <= tokens.len(),
                self@ =~= tokens@.skip(n as int) + old(self)@,
            decreases n,
        {
            n -= 1;
            self.tokens.push_front(tokens[n]);
            assert(self@ =~= tokens@.skip(n as int) + old(self)@);
        }
        assert(tokens@.skip(0) =~= tokens@);
    }
}

} // verus!
