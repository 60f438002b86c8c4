//! Tokenize C source code into a flat list of preprocessor tokens.

use vstd::prelude::*;
use crate::ascii;
use crate::error::{Error, Message};
use crate::names::{interned, Names};
use crate::source::{spliced, Source, SourceSpan};
use crate::tokenize::{PreToken, PreTokenKind, Punct};

verus! {

/// Whether the codepoint can start an identifier, see annex D.1 of C11.
pub open spec fn ident_start(code: u32) -> bool {
    ||| code == 0x5f
    ||| 0x61 <= code <= 0x7a
    ||| 0x41 <= code <= 0x5a
    ||| code == 0xa8
    ||| code == 0xaa
    ||| code == 0xad
    ||| code == 0xaf
    ||| 0xb2 <= code <= 0xb5
    ||| 0xb7 <= code <= 0xba
    ||| 0xbc <= code <= 0xbe
    ||| 0xc0 <= code <= 0xd6
    ||| 0xd8 <= code <= 0xf6
    ||| 0xf8 <= code <= 0xff
    ||| 0x0100 <= code <= 0x02ff
    ||| 0x0370 <= code <= 0x167f
    ||| 0x1681 <= code <= 0x180d
    ||| 0x180f <= code <= 0x1dbf
    ||| 0x1e00 <= code <= 0x1fff
    ||| 0x200b <= code <= 0x200d
    ||| 0x202a <= code <= 0x202e
    ||| 0x203f <= code <= 0x2040
    ||| code == 0x2054
    ||| 0x2060 <= code <= 0x206f
    ||| 0x2070 <= code <= 0x20cf
    ||| 0x2100 <= code <= 0x218f
    ||| 0x2460 <= code <= 0x24ff
    ||| 0x2776 <= code <= 0x2793
    ||| 0x2c00 <= code <= 0x2dff
    ||| 0x2e80 <= code <= 0x2fff
    ||| 0x3004 <= code <= 0x3007
    ||| 0x3021 <= code <= 0x302f
    ||| 0x3031 <= code <= 0x303f
    ||| 0x3040 <= code <= 0xd7ff
    ||| 0xf900 <= code <= 0xfd3d
    ||| 0xfd40 <= code <= 0xfdcf
    ||| 0xfdf0 <= code <= 0xfe1f
    ||| 0xfe30 <= code <= 0xfe44
    ||| 0xfe47 <= code <= 0xfffd
    ||| 0x10000 <= code <= 0x1fffd
    ||| 0x20000 <= code <= 0x2fffd
    ||| 0x30000 <= code <= 0x3fffd
    ||| 0x40000 <= code <= 0x4fffd
    ||| 0x50000 <= code <= 0x5fffd
    ||| 0x60000 <= code <= 0x6fffd
    ||| 0x70000 <= code <= 0x7fffd
    ||| 0x80000 <= code <= 0x8fffd
    ||| 0x90000 <= code <= 0x9fffd
    ||| 0xa0000 <= code <= 0xafffd
    ||| 0xb0000 <= code <= 0xbfffd
    ||| 0xc0000 <= code <= 0xcfffd
    ||| 0xd0000 <= code <= 0xdfffd
    ||| 0xe0000 <= code <= 0xefffd
}

/// Whether the codepoint can continue an identifier, see annex D.2 of C11.
pub open spec fn ident_cont(code: u32) -> bool {
    ||| ident_start(code)
    ||| 0x30 <= code <= 0x39
    ||| 0x0300 <= code <= 0x036f
    ||| 0x1dc0 <= code <= 0x1dff
    ||| 0x20d0 <= code <= 0x20ff
    ||| 0xfe20 <= code <= 0xfe2f
}

fn is_ident_start(code: u32) -> (r: bool)
    ensures
        r == ident_start(code),
{
    code == 0x5f
        || (0x61 <= code && code <= 0x7a)
        || (0x41 <= code && code <= 0x5a)
        || code == 0xa8
        || code == 0xaa
        || code == 0xad
        || code == 0xaf
        || (0xb2 <= code && code <= 0xb5)
        || (0xb7 <= code && code <= 0xba)
        || (0xbc <= code && code <= 0xbe)
        || (0xc0 <= code && code <= 0xd6)
        || (0xd8 <= code && code <= 0xf6)
        || (0xf8 <= code && code <= 0xff)
        || (0x0100 <= code && code <= 0x02ff)
        || (0x0370 <= code && code <= 0x167f)
        || (0x1681 <= code && code <= 0x180d)
        || (0x180f <= code && code <= 0x1dbf)
        || (0x1e00 <= code && code <= 0x1fff)
        || (0x200b <= code && code <= 0x200d)
        || (0x202a <= code && code <= 0x202e)
        || (0x203f <= code && code <= 0x2040)
        || code == 0x2054
        || (0x2060 <= code && code <= 0x206f)
        || (0x2070 <= code && code <= 0x20cf)
        || (0x2100 <= code && code <= 0x218f)
        || (0x2460 <= code && code <= 0x24ff)
        || (0x2776 <= code && code <= 0x2793)
        || (0x2c00 <= code && code <= 0x2dff)
        || (0x2e80 <= code && code <= 0x2fff)
        || (0x3004 <= code && code <= 0x3007)
        || (0x3021 <= code && code <= 0x302f)
        || (0x3031 <= code && code <= 0x303f)
        || (0x3040 <= code && code <= 0xd7ff)
        || (0xf900 <= code && code <= 0xfd3d)
        || (0xfd40 <= code && code <= 0xfdcf)
        || (0xfdf0 <= code && code <= 0xfe1f)
        || (0xfe30 <= code && code <= 0xfe44)
        || (0xfe47 <= code && code <= 0xfffd)
        || (0x10000 <= code && code <= 0x1fffd)
        || (0x20000 <= code && code <= 0x2fffd)
        || (0x30000 <= code && code <= 0x3fffd)
        || (0x40000 <= code && code <= 0x4fffd)
        || (0x50000 <= code && code <= 0x5fffd)
        || (0x60000 <= code && code <= 0x6fffd)
        || (0x70000 <= code && code <= 0x7fffd)
        || (0x80000 <= code && code <= 0x8fffd)
        || (0x90000 <= code && code <= 0x9fffd)
        || (0xa0000 <= code && code <= 0xafffd)
        || (0xb0000 <= code && code <= 0xbfffd)
        || (0xc0000 <= code && code <= 0xcfffd)
        || (0xd0000 <= code && code <= 0xdfffd)
        || (0xe0000 <= code && code <= 0xefffd)
}

fn is_ident_cont(code: u32) -> (r: bool)
    ensures
        r == ident_cont(code),
{
    is_ident_start(code)
        || (0x30 <= code && code <= 0x39)
        || (0x0300 <= code && code <= 0x036f)
        || (0x1dc0 <= code && code <= 0x1dff)
        || (0x20d0 <= code && code <= 0x20ff)
        || (0xfe20 <= code && code <= 0xfe2f)
}

/// Whether a byte continues a character of more than one byte.
pub open spec fn trail(text: Seq<u8>, i: int) -> bool {
    0 <= i < text.len() && 0x80 <= text[i] < 0xc0
}

/// The character that UTF-8 text holds at an offset, and how many bytes it takes.
#[verifier::opaque]
pub open spec fn char_at(text: Seq<u8>, i: int) -> Option<(u32, int)> {
    if i < 0 || i >= text.len() {
        None
    } else if text[i] < 0x80 {
        Some((text[i] as u32, 1))
    } else if 0xc0 <= text[i] < 0xe0 && trail(text, i + 1) {
        Some((((text[i] - 0xc0) * 0x40 + (text[i + 1] - 0x80)) as u32, 2))
    } else if 0xe0 <= text[i] < 0xf0 && trail(text, i + 1) && trail(text, i + 2) {
        Some(
            (
                ((text[i] - 0xe0) * 0x1000 + (text[i + 1] - 0x80) * 0x40 + (text[i + 2]
                    - 0x80)) as u32,
                3,
            ),
        )
    } else if 0xf0 <= text[i] < 0xf8 && trail(text, i + 1) && trail(text, i + 2) && trail(
        text,
        i + 3,
    ) {
        Some(
            (
                ((text[i] - 0xf0) * 0x40000 + (text[i + 1] - 0x80) * 0x1000 + (text[i + 2] - 0x80)
                    * 0x40 + (text[i + 3] - 0x80)) as u32,
                4,
            ),
        )
    } else {
        None
    }
}

fn is_trail(text: &[u8], i: usize) -> (r: bool)
    ensures
        r == trail(text@, i as int),
{
    i < text.len() && text[i] >= 0x80 && text[i] < 0xc0
}

/// Decode the character at an offset.
pub fn decode_char(text: &[u8], i: usize) -> (r: Option<(u32, usize)>)
    ensures
        char_at(text@, i as int) == (match r {
            Some((code, len)) => Some((code, len as int)),
            None => None,
        }),
        r is Some ==> r.unwrap().1 >= 1 && i + r.unwrap().1 <= text@.len(),
{
    proof {
        reveal(char_at);
    }
    if i >= text.len() {
        return None;
    }
    let b0: u32 = text[i] as u32;
    if b0 < 0x80 {
        return Some((b0, 1));
    }
    let rest: usize = text.len() - i;
    if b0 >= 0xc0 && b0 < 0xe0 && rest > 1 && is_trail(text, i + 1) {
        let b1: u32 = text[i + 1] as u32;
        return Some(((b0 - 0xc0) * 0x40 + (b1 - 0x80), 2));
    }
    if b0 >= 0xe0 && b0 < 0xf0 && rest > 2 && is_trail(text, i + 1) && is_trail(text, i + 2) {
        let b1: u32 = text[i + 1] as u32;
        let b2: u32 = text[i + 2] as u32;
        return Some(((b0 - 0xe0) * 0x1000 + (b1 - 0x80) * 0x40 + (b2 - 0x80), 3));
    }
    if b0 >= 0xf0 && b0 < 0xf8 && rest > 3 && is_trail(text, i + 1) && is_trail(text, i + 2)
        && is_trail(text, i + 3) {
        let b1: u32 = text[i + 1] as u32;
        let b2: u32 = text[i + 2] as u32;
        let b3: u32 = text[i + 3] as u32;
        return Some(
            (
                (b0 - 0xf0) * 0x40000 + (b1 - 0x80) * 0x1000 + (b2 - 0x80) * 0x40 + (b3 - 0x80),
                4,
            ),
        );
    }
    None
}

/// The punctuator of three characters, if they are one.
pub open spec fn punct3(a: u8, b: u8, c: u8) -> Option<Punct> {
    if a == ascii::LT && b == ascii::LT && c == ascii::EQ {
        Some(Punct::ShlEq)
    } else if a == ascii::GT && b == ascii::GT && c == ascii::EQ {
        Some(Punct::ShrEq)
    } else if a == ascii::DOT && b == ascii::DOT && c == ascii::DOT {
        Some(Punct::Ellipsis)
    } else {
        None
    }
}

/// The punctuator of two characters, if they are one.
pub open spec fn punct2(a: u8, b: u8) -> Option<Punct> {
    if a == ascii::EQ && b == ascii::EQ {
        Some(Punct::EqEq)
    } else if a == ascii::BANG && b == ascii::EQ {
        Some(Punct::Ne)
    } else if a == ascii::LT && b == ascii::EQ {
        Some(Punct::Le)
    } else if a == ascii::GT && b == ascii::EQ {
        Some(Punct::Ge)
    } else if a == ascii::LT && b == ascii::LT {
        Some(Punct::Shl)
    } else if a == ascii::GT && b == ascii::GT {
        Some(Punct::Shr)
    } else if a == ascii::MINUS && b == ascii::GT {
        Some(Punct::Arrow)
    } else if a == ascii::PLUS && b == ascii::EQ {
        Some(Punct::PlusEq)
    } else if a == ascii::MINUS && b == ascii::EQ {
        Some(Punct::MinusEq)
    } else if a == ascii::STAR && b == ascii::EQ {
        Some(Punct::StarEq)
    } else if a == ascii::SLASH && b == ascii::EQ {
        Some(Punct::SlashEq)
    } else if a == ascii::PERCENT && b == ascii::EQ {
        Some(Punct::PercentEq)
    } else if a == ascii::AMP && b == ascii::EQ {
        Some(Punct::AmpEq)
    } else if a == ascii::PIPE && b == ascii::EQ {
        Some(Punct::PipeEq)
    } else if a == ascii::CARET && b == ascii::EQ {
        Some(Punct::CaretEq)
    } else if a == ascii::PLUS && b == ascii::PLUS {
        Some(Punct::PlusPlus)
    } else if a == ascii::MINUS && b == ascii::MINUS {
        Some(Punct::MinusMinus)
    } else if a == ascii::AMP && b == ascii::AMP {
        Some(Punct::AndAnd)
    } else if a == ascii::PIPE && b == ascii::PIPE {
        Some(Punct::OrOr)
    } else if a == ascii::HASH && b == ascii::HASH {
        Some(Punct::HashHash)
    } else {
        None
    }
}

/// The punctuator of one character, which can be any punctuation of ASCII.
pub open spec fn punct1(a: u8) -> Option<Punct> {
    if a == ascii::LPAREN {
        Some(Punct::LParen)
    } else if a == ascii::RPAREN {
        Some(Punct::RParen)
    } else if a == ascii::LBRACE {
        Some(Punct::LBrace)
    } else if a == ascii::RBRACE {
        Some(Punct::RBrace)
    } else if a == ascii::LBRACKET {
        Some(Punct::LBracket)
    } else if a == ascii::RBRACKET {
        Some(Punct::RBracket)
    } else if a == ascii::SEMI {
        Some(Punct::Semi)
    } else if a == ascii::COMMA {
        Some(Punct::Comma)
    } else if a == ascii::DOT {
        Some(Punct::Dot)
    } else if a == ascii::PLUS {
        Some(Punct::Plus)
    } else if a == ascii::MINUS {
        Some(Punct::Minus)
    } else if a == ascii::STAR {
        Some(Punct::Star)
    } else if a == ascii::SLASH {
        Some(Punct::Slash)
    } else if a == ascii::PERCENT {
        Some(Punct::Percent)
    } else if a == ascii::AMP {
        Some(Punct::Amp)
    } else if a == ascii::PIPE {
        Some(Punct::Pipe)
    } else if a == ascii::CARET {
        Some(Punct::Caret)
    } else if a == ascii::TILDE {
        Some(Punct::Tilde)
    } else if a == ascii::BANG {
        Some(Punct::Not)
    } else if a == ascii::LT {
        Some(Punct::Lt)
    } else if a == ascii::GT {
        Some(Punct::Gt)
    } else if a == ascii::EQ {
        Some(Punct::Assign)
    } else if a == ascii::QUESTION {
        Some(Punct::Question)
    } else if a == ascii::COLON {
        Some(Punct::Colon)
    } else if a == ascii::HASH {
        Some(Punct::Hash)
    } else if a == ascii::DQUOTE {
        Some(Punct::Quote)
    } else if a == ascii::QUOTE {
        Some(Punct::SingleQuote)
    } else if a == ascii::DOLLAR {
        Some(Punct::Dollar)
    } else if a == ascii::AT {
        Some(Punct::At)
    } else if a == ascii::BACKSLASH {
        Some(Punct::Backslash)
    } else if a == ascii::UNDERSCORE {
        Some(Punct::Underscore)
    } else if a == ascii::BACKQUOTE {
        Some(Punct::Backquote)
    } else {
        None
    }
}

/// The longest punctuator at an offset, and its length.
#[verifier::opaque]
pub open spec fn punct_at(text: Seq<u8>, i: int) -> Option<(Punct, int)> {
    if i + 2 < text.len() && punct3(text[i], text[i + 1], text[i + 2]) is Some {
        Some((punct3(text[i], text[i + 1], text[i + 2]).unwrap(), 3))
    } else if i + 1 < text.len() && punct2(text[i], text[i + 1]) is Some {
        Some((punct2(text[i], text[i + 1]).unwrap(), 2))
    } else if i < text.len() && punct1(text[i]) is Some {
        Some((punct1(text[i]).unwrap(), 1))
    } else {
        None
    }
}

fn find_punct3(a: u8, b: u8, c: u8) -> (r: Option<Punct>)
    ensures
        r == punct3(a, b, c),
{
    if a == ascii::LT && b == ascii::LT && c == ascii::EQ {
        Some(Punct::ShlEq)
    } else if a == ascii::GT && b == ascii::GT && c == ascii::EQ {
        Some(Punct::ShrEq)
    } else if a == ascii::DOT && b == ascii::DOT && c == ascii::DOT {
        Some(Punct::Ellipsis)
    } else {
        None
    }
}

fn find_punct2(a: u8, b: u8) -> (r: Option<Punct>)
    ensures
        r == punct2(a, b),
{
    if a == ascii::EQ && b == ascii::EQ {
        Some(Punct::EqEq)
    } else if a == ascii::BANG && b == ascii::EQ {
        Some(Punct::Ne)
    } else if a == ascii::LT && b == ascii::EQ {
        Some(Punct::Le)
    } else if a == ascii::GT && b == ascii::EQ {
        Some(Punct::Ge)
    } else if a == ascii::LT && b == ascii::LT {
        Some(Punct::Shl)
    } else if a == ascii::GT && b == ascii::GT {
        Some(Punct::Shr)
    } else if a == ascii::MINUS && b == ascii::GT {
        Some(Punct::Arrow)
    } else if a == ascii::PLUS && b == ascii::EQ {
        Some(Punct::PlusEq)
    } else if a == ascii::MINUS && b == ascii::EQ {
        Some(Punct::MinusEq)
    } else if a == ascii::STAR && b == ascii::EQ {
        Some(Punct::StarEq)
    } else if a == ascii::SLASH && b == ascii::EQ {
        Some(Punct::SlashEq)
    } else if a == ascii::PERCENT && b == ascii::EQ {
        Some(Punct::PercentEq)
    } else if a == ascii::AMP && b == ascii::EQ {
        Some(Punct::AmpEq)
    } else if a == ascii::PIPE && b == ascii::EQ {
        Some(Punct::PipeEq)
    } else if a == ascii::CARET && b == ascii::EQ {
        Some(Punct::CaretEq)
    } else if a == ascii::PLUS && b == ascii::PLUS {
        Some(Punct::PlusPlus)
    } else if a == ascii::MINUS && b == ascii::MINUS {
        Some(Punct::MinusMinus)
    } else if a == ascii::AMP && b == ascii::AMP {
        Some(Punct::AndAnd)
    } else if a == ascii::PIPE && b == ascii::PIPE {
        Some(Punct::OrOr)
    } else if a == ascii::HASH && b == ascii::HASH {
        Some(Punct::HashHash)
    } else {
        None
    }
}

fn find_punct1(a: u8) -> (r: Option<Punct>)
    ensures
        r == punct1(a),
{
    if a == ascii::LPAREN {
        Some(Punct::LParen)
    } else if a == ascii::RPAREN {
        Some(Punct::RParen)
    } else if a == ascii::LBRACE {
        Some(Punct::LBrace)
    } else if a == ascii::RBRACE {
        Some(Punct::RBrace)
    } else if a == ascii::LBRACKET {
        Some(Punct::LBracket)
    } else if a == ascii::RBRACKET {
        Some(Punct::RBracket)
    } else if a == ascii::SEMI {
        Some(Punct::Semi)
    } else if a == ascii::COMMA {
        Some(Punct::Comma)
    } else if a == ascii::DOT {
        Some(Punct::Dot)
    } else if a == ascii::PLUS {
        Some(Punct::Plus)
    } else if a == ascii::MINUS {
        Some(Punct::Minus)
    } else if a == ascii::STAR {
        Some(Punct::Star)
    } else if a == ascii::SLASH {
        Some(Punct::Slash)
    } else if a == ascii::PERCENT {
        Some(Punct::Percent)
    } else if a == ascii::AMP {
        Some(Punct::Amp)
    } else if a == ascii::PIPE {
        Some(Punct::Pipe)
    } else if a == ascii::CARET {
        Some(Punct::Caret)
    } else if a == ascii::TILDE {
        Some(Punct::Tilde)
    } else if a == ascii::BANG {
        Some(Punct::Not)
    } else if a == ascii::LT {
        Some(Punct::Lt)
    } else if a == ascii::GT {
        Some(Punct::Gt)
    } else if a == ascii::EQ {
        Some(Punct::Assign)
    } else if a == ascii::QUESTION {
        Some(Punct::Question)
    } else if a == ascii::COLON {
        Some(Punct::Colon)
    } else if a == ascii::HASH {
        Some(Punct::Hash)
    } else if a == ascii::DQUOTE {
        Some(Punct::Quote)
    } else if a == ascii::QUOTE {
        Some(Punct::SingleQuote)
    } else if a == ascii::DOLLAR {
        Some(Punct::Dollar)
    } else if a == ascii::AT {
        Some(Punct::At)
    } else if a == ascii::BACKSLASH {
        Some(Punct::Backslash)
    } else if a == ascii::UNDERSCORE {
        Some(Punct::Underscore)
    } else if a == ascii::BACKQUOTE {
        Some(Punct::Backquote)
    } else {
        None
    }
}

fn find_punct(text: &[u8], i: usize) -> (r: Option<(Punct, usize)>)
    requires
        i <= text@.len(),
    ensures
        punct_at(text@, i as int) == (match r {
            Some((punct, len)) => Some((punct, len as int)),
            None => None,
        }),
        r is Some ==> r.unwrap().1 >= 1 && i + r.unwrap().1 <= text@.len(),
{
    proof {
        reveal(punct_at);
    }
    let rest: usize = text.len() - i;
    if rest > 2 {
        if let Some(punct) = find_punct3(text[i], text[i + 1], text[i + 2]) {
            return Some((punct, 3));
        }
    }
    if rest > 1 {
        if let Some(punct) = find_punct2(text[i], text[i + 1]) {
            return Some((punct, 2));
        }
    }
    if rest > 0 {
        if let Some(punct) = find_punct1(text[i]) {
            return Some((punct, 1));
        }
    }
    None
}

/// White space that does not end a line.
pub open spec fn is_space(b: u8) -> bool {
    b == ascii::SPACE || b == ascii::TAB || b == 0x0c || b == ascii::RETURN
}

pub open spec fn is_digit(b: u8) -> bool {
    ascii::DIGIT_0 <= b <= ascii::DIGIT_9
}

pub open spec fn is_alnum(b: u8) -> bool {
    is_digit(b) || ascii::LOWER_A <= b <= ascii::LOWER_Z || ascii::UPPER_A <= b <= ascii::UPPER_Z
}

fn is_ascii_digit(b: u8) -> (r: bool)
    ensures
        r == is_digit(b),
{
    b >= ascii::DIGIT_0 && b <= ascii::DIGIT_9
}

fn is_ascii_alnum(b: u8) -> (r: bool)
    ensures
        r == is_alnum(b),
{
    is_ascii_digit(b) || (b >= ascii::LOWER_A && b <= ascii::LOWER_Z) || (b >= ascii::UPPER_A && b <= ascii::UPPER_Z)
}

/// Where a line ends that is read from an offset on.
pub open spec fn line_end(text: Seq<u8>, i: int) -> int
    decreases text.len() - i,
{
    if i >= text.len() || text[i] == ascii::NEWLINE {
        i
    } else {
        line_end(text, i + 1)
    }
}

/// Where a block comment ends that is read from an offset on, if it does.
pub open spec fn comment_end(text: Seq<u8>, i: int) -> Option<int>
    decreases text.len() - i,
{
    if i + 1 >= text.len() {
        None
    } else if text[i] == ascii::STAR && text[i + 1] == ascii::SLASH {
        Some(i + 2)
    } else {
        comment_end(text, i + 1)
    }
}

/// Whether a byte belongs to a number that reaches up to it.
pub open spec fn in_number(b: u8, before: u8) -> bool {
    ||| is_alnum(b)
    ||| b == ascii::DOT
    ||| (b == ascii::PLUS || b == ascii::MINUS) && (before == ascii::LOWER_E || before == ascii::UPPER_E || before == ascii::LOWER_P || before
        == ascii::UPPER_P)
}

/// Where a number ends that reaches up to an offset.
pub open spec fn number_end(text: Seq<u8>, i: int) -> int
    decreases text.len() - i,
{
    if 0 < i < text.len() && in_number(text[i], text[i - 1]) {
        number_end(text, i + 1)
    } else {
        i
    }
}

/// Where the quote stands that closes a literal, and whether there is one; if
/// not, where the literal breaks off.
pub open spec fn literal_end(text: Seq<u8>, i: int, quote: u8) -> (int, bool)
    decreases text.len() - i,
{
    if i >= text.len() {
        (i, false)
    } else if text[i] == quote {
        (i, true)
    } else if text[i] == ascii::BACKSLASH {
        if i + 1 >= text.len() || text[i + 1] == ascii::NEWLINE || text[i + 1] == 0 {
            (i + 1, false)
        } else {
            literal_end(text, i + 2, quote)
        }
    } else if text[i] == ascii::NEWLINE || text[i] == 0 {
        (i, false)
    } else {
        literal_end(text, i + 1, quote)
    }
}

/// Where an identifier ends that reaches up to an offset.
pub open spec fn ident_end(text: Seq<u8>, i: int) -> int
    decreases text.len() - i,
{
    match char_at(text, i) {
        Some((code, len)) => if ident_cont(code) && 0 < len && i + len <= text.len() {
            ident_end(text, i + len)
        } else {
            i
        },
        None => i,
    }
}

/// How far a tokenizer has come.
pub struct Scan {
    pub pos: int,
    pub at_bol: bool,
    pub follows_space: bool,
    pub tokens: Seq<PreToken>,
    pub names: Seq<Seq<u8>>,
}

/// A token of the given kind read up to `end`.
pub open spec fn token_read(id: usize, st: Scan, kind: PreTokenKind, end: int) -> Scan {
    Scan {
        pos: end,
        at_bol: false,
        follows_space: false,
        tokens: st.tokens.push(
            PreToken {
                kind,
                span: SourceSpan { id, offset: st.pos as usize, len: (end - st.pos) as usize },
                at_bol: st.at_bol,
                follows_space: st.follows_space,
                hideset: None,
                synthetic: None,
                origin: None,
            },
        ),
        names: st.names,
    }
}

/// White space or a comment skipped up to `end`.
pub open spec fn space_read(st: Scan, end: int) -> Scan {
    Scan { pos: end, follows_space: true, ..st }
}

/// The bytes at an offset and after it; 0 past the end.
pub open spec fn byte_at(text: Seq<u8>, i: int) -> u8 {
    if 0 <= i < text.len() {
        text[i]
    } else {
        0
    }
}

/// A comment read, if there is one.
#[verifier::opaque]
pub open spec fn read_comment(id: usize, text: Seq<u8>, st: Scan) -> Result<Option<Scan>, Error> {
    let first = byte_at(text, st.pos);
    let second = byte_at(text, st.pos + 1);
    if first == ascii::SLASH && second == ascii::SLASH {
        Ok(Some(space_read(st, line_end(text, st.pos + 2))))
    } else if first == ascii::SLASH && second == ascii::STAR {
        match comment_end(text, st.pos + 2) {
            Some(end) => Ok(Some(space_read(st, end))),
            None => Err(
                Error::Terminate(
                    SourceSpan { id, offset: st.pos as usize, len: 2 },
                    Message::UnclosedComment,
                ),
            ),
        }
    } else {
        Ok(None)
    }
}

/// A string or char literal read, whose opening quote follows a prefix.
#[verifier::opaque]
pub open spec fn read_literal(
    id: usize,
    text: Seq<u8>,
    st: Scan,
    is_char: bool,
    prefix_len: int,
) -> Result<Scan, Error> {
    let quote = if is_char {
        ascii::QUOTE
    } else {
        ascii::DQUOTE
    };
    let (end, closed) = literal_end(text, st.pos + prefix_len + 1, quote);
    if closed {
        Ok(
            token_read(
                id,
                st,
                if is_char {
                    PreTokenKind::CharLit
                } else {
                    PreTokenKind::StrLit
                },
                end + 1,
            ),
        )
    } else {
        Err(
            Error::Terminate(
                SourceSpan { id, offset: st.pos as usize, len: (end - st.pos) as usize },
                if is_char {
                    Message::UnclosedChar
                } else {
                    Message::UnclosedString
                },
            ),
        )
    }
}

/// An identifier or a punctuator read.
#[verifier::opaque]
pub open spec fn read_word(id: usize, text: Seq<u8>, st: Scan) -> Result<Scan, Error> {
    let start = char_at(text, st.pos);
    if start is Some && ident_start(start.unwrap().0) {
        let end = ident_end(text, st.pos + start.unwrap().1);
        let (names, symbol) = interned(st.names, text.subrange(st.pos, end));
        Ok(token_read(id, Scan { names, ..st }, PreTokenKind::Ident(symbol), end))
    } else {
        match punct_at(text, st.pos) {
            Some((punct, len)) => Ok(
                token_read(id, st, PreTokenKind::Punct(punct), st.pos + len),
            ),
            None => Err(
                Error::Terminate(
                    SourceSpan { id, offset: st.pos as usize, len: 1 },
                    Message::InvalidToken,
                ),
            ),
        }
    }
}

/// Whether a literal starts at an offset, and the length of its prefix.
pub open spec fn literal_at(text: Seq<u8>, i: int, quote: u8) -> Option<int> {
    let first = byte_at(text, i);
    let wide = first == ascii::LOWER_U || first == ascii::UPPER_U || first == ascii::UPPER_L;
    if first == quote {
        Some(0)
    } else if wide && byte_at(text, i + 1) == quote {
        Some(1)
    } else if quote == ascii::DQUOTE && first == ascii::LOWER_U && byte_at(text, i + 1) == ascii::DIGIT_8 && byte_at(text, i + 2)
        == quote {
        Some(2)
    } else {
        None
    }
}

/// White space or a token read, where no comment stands.
#[verifier::opaque]
pub open spec fn read_token(id: usize, text: Seq<u8>, st: Scan) -> Result<Scan, Error> {
    let first = byte_at(text, st.pos);
    if first == ascii::NEWLINE {
        Ok(Scan { pos: st.pos + 1, at_bol: true, follows_space: false, ..st })
    } else if is_space(first) {
        Ok(space_read(st, st.pos + 1))
    } else if is_digit(first) || (first == ascii::DOT && is_digit(byte_at(text, st.pos + 1))) {
        Ok(token_read(id, st, PreTokenKind::NumLit, number_end(text, st.pos + 1)))
    } else if literal_at(text, st.pos, ascii::DQUOTE) is Some {
        read_literal(id, text, st, false, literal_at(text, st.pos, ascii::DQUOTE).unwrap())
    } else if literal_at(text, st.pos, ascii::QUOTE) is Some {
        read_literal(id, text, st, true, literal_at(text, st.pos, ascii::QUOTE).unwrap())
    } else {
        read_word(id, text, st)
    }
}

/// Whether a comment starts at a position.
pub open spec fn comment_starts(text: Seq<u8>, i: int) -> bool {
    byte_at(text, i) == ascii::SLASH && (byte_at(text, i + 1) == ascii::SLASH || byte_at(
        text,
        i + 1,
    ) == ascii::STAR)
}

/// A comment, white space, or a token read. Unless comments are allowed, one is
/// an invalid token.
pub open spec fn read_piece(id: usize, text: Seq<u8>, st: Scan, allow_comment: bool) -> Result<
    Scan,
    Error,
> {
    if !allow_comment && comment_starts(text, st.pos) {
        Err(
            Error::Terminate(
                SourceSpan { id, offset: st.pos as usize, len: 1 },
                Message::InvalidToken,
            ),
        )
    } else {
        match read_comment(id, text, st) {
            Err(e) => Err(e),
            Ok(Some(st)) => Ok(st),
            Ok(None) => read_token(id, text, st),
        }
    }
}

/// Everything read from a position on, or up to the first error.
pub open spec fn read_all(id: usize, text: Seq<u8>, st: Scan, allow_comment: bool) -> (
    Scan,
    Option<Error>,
)
    decreases text.len() - st.pos,
{
    if st.pos >= text.len() {
        (st, None)
    } else {
        match read_piece(id, text, st, allow_comment) {
            Err(e) => (st, Some(e)),
            Ok(next) => if st.pos < next.pos <= text.len() {
                read_all(id, text, next, allow_comment)
            } else {
                (st, Some(Error::Overflow))
            },
        }
    }
}

/// The names known with those in a text, and the tokens of the text.
pub struct Tokenized {
    pub names: Seq<Seq<u8>>,
    pub r: Result<Seq<PreToken>, Error>,
}

/// The tokens of a text, and the names known with those in it.
///
/// Unless comments are allowed, they are invalid tokens instead of space. The
/// EOF sentinel is the last token if it is asked for.
pub open spec fn tokenized(
    id: usize,
    text: Seq<u8>,
    names: Seq<Seq<u8>>,
    allow_comment: bool,
    emit_eof: bool,
) -> Tokenized {
    let st = Scan { pos: 0, at_bol: true, follows_space: false, tokens: Seq::empty(), names };
    let (st, e) = read_all(id, text, st, allow_comment);
    Tokenized {
        names: st.names,
        r: match e {
            Some(e) => Err(e),
            None => Ok(
                if emit_eof {
                    token_read(id, st, PreTokenKind::Eof, st.pos).tokens
                } else {
                    st.tokens
                },
            ),
        },
    }
}

/// Where comments are not allowed, a text that starts with one is refused.
pub proof fn comments_are_invalid_unless_allowed(
    id: usize,
    text: Seq<u8>,
    names: Seq<Seq<u8>>,
    emit_eof: bool,
)
    requires
        comment_starts(text, 0),
    ensures
        tokenized(id, text, names, false, emit_eof).r == Err::<Seq<PreToken>, Error>(
            Error::Terminate(SourceSpan { id, offset: 0, len: 1 }, Message::InvalidToken),
        ),
{
}

/// Whether tokens lie one after the other within the first `end` bytes.
pub open spec fn in_order(id: usize, tokens: Seq<PreToken>, end: int) -> bool {
    &&& forall|i: int|
        0 <= i < tokens.len() ==> {
            &&& (#[trigger] tokens[i]).span.id == id
            &&& tokens[i].span.len > 0
            &&& tokens[i].span.offset + tokens[i].span.len <= end
        }
    &&& forall|i: int, j: int|
        0 <= i < j < tokens.len() ==> (#[trigger] tokens[i]).span.offset + tokens[i].span.len <= (
        #[trigger] tokens[j]).span.offset
}

/// What a piece of text is read as: at most one token, from where the piece starts to where it ends.
proof fn piece_is_one_token(id: usize, text: Seq<u8>, st: Scan, allow_comment: bool)
    requires
        0 <= st.pos < text.len() <= usize::MAX,
        in_order(id, st.tokens, st.pos),
        read_piece(id, text, st, allow_comment) is Ok,
        st.pos < read_piece(id, text, st, allow_comment)->Ok_0.pos <= text.len(),
    ensures
        in_order(
            id,
            read_piece(id, text, st, allow_comment)->Ok_0.tokens,
            read_piece(id, text, st, allow_comment)->Ok_0.pos,
        ),
{
    reveal(read_comment);
    reveal(read_token);
    reveal(read_literal);
    reveal(read_word);
}

proof fn everything_is_read_in_order(id: usize, text: Seq<u8>, st: Scan, allow_comment: bool)
    requires
        0 <= st.pos <= text.len() <= usize::MAX,
        in_order(id, st.tokens, st.pos),
    ensures
        ({
            let (last, e) = read_all(id, text, st, allow_comment);
            &&& in_order(id, last.tokens, last.pos)
            &&& last.pos <= text.len()
            &&& e is None ==> last.pos == text.len()
        }),
    decreases text.len() - st.pos,
{
    if st.pos < text.len() {
        if let Ok(next) = read_piece(id, text, st, allow_comment) {
            if st.pos < next.pos <= text.len() {
                piece_is_one_token(id, text, st, allow_comment);
                everything_is_read_in_order(id, text, next, allow_comment);
            }
        }
    }
}

/// The tokens of a text lie in it one after the other, without overlap, and
/// none of them is empty but the EOF sentinel, which stands at its end.
pub proof fn tokens_lie_in_order(
    id: usize,
    text: Seq<u8>,
    names: Seq<Seq<u8>>,
    allow_comment: bool,
    emit_eof: bool,
)
    requires
        text.len() <= usize::MAX,
        tokenized(id, text, names, allow_comment, emit_eof).r is Ok,
    ensures
        ({
            let tokens = tokenized(id, text, names, allow_comment, emit_eof).r->Ok_0;
            if emit_eof {
                &&& tokens.len() > 0
                &&& tokens.last().kind == PreTokenKind::Eof
                &&& tokens.last().span == (SourceSpan { id, offset: text.len() as usize, len: 0 })
                &&& in_order(id, tokens.drop_last(), text.len() as int)
            } else {
                in_order(id, tokens, text.len() as int)
            }
        }),
{
    let st = Scan { pos: 0, at_bol: true, follows_space: false, tokens: Seq::empty(), names };
    everything_is_read_in_order(id, text, st, allow_comment);
    let (last, _) = read_all(id, text, st, allow_comment);
    assert(token_read(id, last, PreTokenKind::Eof, last.pos).tokens.drop_last() =~= last.tokens);
}

/// A punctuator that is found in a text is spelled there.
pub proof fn punctuators_are_spelled_in_the_text(text: Seq<u8>, i: int)
    requires
        0 <= i < text.len(),
        punct_at(text, i) is Some,
    ensures
        ({
            let (punct, len) = punct_at(text, i).unwrap();
            &&& 1 <= len <= 3
            &&& i + len <= text.len()
            &&& punct.spec_text().len() == len
            &&& forall|k: int|
                0 <= k < len ==> #[trigger] punct.spec_text()[k] as u32 == text[i + k] as u32
        }),
{
    reveal(punct_at);
    reveal_strlit("(");
    reveal_strlit(")");
    reveal_strlit("{");
    reveal_strlit("}");
    reveal_strlit("[");
    reveal_strlit("]");
    reveal_strlit(";");
    reveal_strlit(",");
    reveal_strlit(".");
    reveal_strlit("->");
    reveal_strlit("...");
    reveal_strlit("+");
    reveal_strlit("-");
    reveal_strlit("*");
    reveal_strlit("/");
    reveal_strlit("%");
    reveal_strlit("&");
    reveal_strlit("|");
    reveal_strlit("^");
    reveal_strlit("~");
    reveal_strlit("!");
    reveal_strlit("<");
    reveal_strlit(">");
    reveal_strlit("<=");
    reveal_strlit(">=");
    reveal_strlit("==");
    reveal_strlit("!=");
    reveal_strlit("=");
    reveal_strlit("&&");
    reveal_strlit("||");
    reveal_strlit("++");
    reveal_strlit("--");
    reveal_strlit("+=");
    reveal_strlit("-=");
    reveal_strlit("*=");
    reveal_strlit("/=");
    reveal_strlit("%=");
    reveal_strlit("&=");
    reveal_strlit("|=");
    reveal_strlit("^=");
    reveal_strlit("<<");
    reveal_strlit(">>");
    reveal_strlit("<<=");
    reveal_strlit(">>=");
    reveal_strlit("?");
    reveal_strlit(":");
    reveal_strlit("#");
    reveal_strlit("##");
    reveal_strlit("\"");
    reveal_strlit("'");
    reveal_strlit("$");
    reveal_strlit("@");
    reveal_strlit("\\");
    reveal_strlit("_");
    reveal_strlit("`");
}

/// The tokens of a list, if there is one.
pub open spec fn tokens_in(r: Result<Vec<PreToken>, Error>) -> Result<Seq<PreToken>, Error> {
    match r {
        Ok(tokens) => Ok(tokens@),
        Err(e) => Err(e),
    }
}

/// Tokenizer for C source code.
pub struct Tokenizer<'a> {
    source: &'a Source,
    pos: usize,
    at_bol: bool,
    follows_space: bool,
    tokens: Vec<PreToken>,
}

impl<'a> Tokenizer<'a> {
    /// What is tokenized.
    pub closed spec fn text(self) -> Seq<u8> {
        self.source.content@
    }

    /// The source that is tokenized.
    pub closed spec fn id(self) -> usize {
        self.source.id
    }

    /// How far the tokenizer has come.
    pub closed spec fn scan(self, names: Seq<Seq<u8>>) -> Scan {
        Scan {
            pos: self.pos as int,
            at_bol: self.at_bol,
            follows_space: self.follows_space,
            tokens: self.tokens@,
            names,
        }
    }

    /// Create a new tokenizer for the given source.
    pub fn new(source: &'a Source) -> (r: Tokenizer<'a>)
        requires
            source.wf(),
        ensures
            r.id() == source.id,
            r.text() == spliced(source@.original),
            forall|names: Seq<Seq<u8>>|
                #[trigger] r.scan(names) == (Scan {
                    pos: 0,
                    at_bol: true,
                    follows_space: false,
                    tokens: Seq::empty(),
                    names,
                }),
    {
        let r = Tokenizer { source, pos: 0, at_bol: true, follows_space: false, tokens: Vec::new() };
        assert(r.tokens@ =~= Seq::<PreToken>::empty());
        r
    }

    /// The position is inside of the text.
    closed spec fn inside(self) -> bool {
        self.pos <= self.source.content.len()
    }

    /// Push a token with the given kind that ends at the given offset.
    fn push(&mut self, kind: PreTokenKind, end: usize)
        requires
            old(self).pos <= end,
        ensures
            final(self).source == old(self).source,
            final(self).pos == end,
            forall|names: Seq<Seq<u8>>|
                token_read(old(self).id(), old(self).scan(names), kind, end as int)
                    == #[trigger] final(self).scan(names),
    {
        self.tokens.push(
            PreToken {
                kind,
                span: SourceSpan { id: self.source.id, offset: self.pos, len: end - self.pos },
                at_bol: self.at_bol,
                follows_space: self.follows_space,
                hideset: None,
                synthetic: None,
                origin: None,
            },
        );
        self.pos = end;
        self.at_bol = false;
        self.follows_space = false;
    }

    fn error<T>(&self, len: usize, message: Message) -> (r: Result<T, Error>)
        ensures
            r == Err::<T, Error>(
                Error::Terminate(
                    SourceSpan { id: self.id(), offset: self.pos, len },
                    message,
                ),
            ),
    {
        Err(Error::Terminate(SourceSpan { id: self.source.id, offset: self.pos, len }, message))
    }

    fn byte_at(&self, ahead: usize) -> (r: u8)
        requires
            self.inside(),
        ensures
            r == byte_at(self.text(), self.pos + ahead),
    {
        let content = &self.source.content;
        if ahead < content.len() - self.pos {
            content[self.pos + ahead]
        } else {
            0
        }
    }

    /// Read an inline or block comment, returning whether there is one.
    fn read_comment(&mut self, names: &Names) -> (r: Result<bool, Error>)
        requires
            old(self).inside(),
        ensures
            final(self).inside(),
            final(self).source == old(self).source,
            read_comment(old(self).id(), old(self).text(), old(self).scan(names@)) == (match r {
                Err(e) => Err::<Option<Scan>, Error>(e),
                Ok(true) => Ok(Some(final(self).scan(names@))),
                Ok(false) => Ok(None),
            }),
            r == Ok::<bool, Error>(false) ==> *final(self) == *old(self),
            r == Ok::<bool, Error>(true) ==> final(self).pos > old(self).pos,
    {
        proof {
            reveal(read_comment);
        }
        let content = &self.source.content;
        let first: u8 = self.byte_at(0);
        if first != ascii::SLASH {
            return Ok(false);
        }
        let second: u8 = self.byte_at(1);
        if second == ascii::SLASH {
            let mut end: usize = self.pos + 2;
            while end < content.len() && content[end] != ascii::NEWLINE
                invariant
                    self.pos + 2 <= end <= content.len(),
                    line_end(content@, self.pos + 2) == line_end(content@, end as int),
                decreases content.len() - end,
            {
                end += 1;
            }
            self.pos = end;
            self.follows_space = true;
            return Ok(true);
        }
        if second == ascii::STAR {
            let mut end: usize = self.pos + 2;
            while content.len() - end >= 2
                invariant
                    self.inside(),
                    self.source == old(self).source,
                    self.pos == old(self).pos,
                    self.scan(names@) == old(self).scan(names@),
                    content@ == self.text(),
                    read_comment(old(self).id(), old(self).text(), old(self).scan(names@)) == (
                    match comment_end(content@, self.pos + 2) {
                        Some(end) => Ok(Some(space_read(old(self).scan(names@), end))),
                        None => Err(
                            Error::Terminate(
                                SourceSpan { id: old(self).id(), offset: self.pos, len: 2 },
                                Message::UnclosedComment,
                            ),
                        ),
                    }),
                    self.pos + 2 <= end <= content.len(),
                    comment_end(content@, self.pos + 2) == comment_end(content@, end as int),
                decreases content.len() - end,
            {
                if content[end] == ascii::STAR && content[end + 1] == ascii::SLASH {
                    self.pos = end + 2;
                    self.follows_space = true;
                    return Ok(true);
                }
                end += 1;
            }
            return self.error(2, Message::UnclosedComment);
        }
        Ok(false)
    }

    /// Read a numeric literal token.
    fn read_numeric_literal(&mut self)
        requires
            old(self).pos < old(self).source.content.len(),
        ensures
            final(self).inside(),
            final(self).source == old(self).source,
            final(self).pos > old(self).pos,
            forall|names: Seq<Seq<u8>>|
                token_read(
                    old(self).id(),
                    old(self).scan(names),
                    PreTokenKind::NumLit,
                    number_end(old(self).text(), old(self).pos + 1),
                ) == #[trigger] final(self).scan(names),
    {
        let content = &self.source.content;
        let mut end: usize = self.pos + 1;
        while end < content.len()
            invariant_except_break
                number_end(content@, self.pos + 1) == number_end(content@, end as int),
            invariant
                self.pos + 1 <= end <= content.len(),
            ensures
                end == number_end(content@, self.pos + 1),
            decreases content.len() - end,
        {
            let b: u8 = content[end];
            let before: u8 = content[end - 1];
            let exponent = before == ascii::LOWER_E || before == ascii::UPPER_E || before == ascii::LOWER_P || before == ascii::UPPER_P;
            if is_ascii_alnum(b) || b == ascii::DOT || ((b == ascii::PLUS || b == ascii::MINUS) && exponent) {
                end += 1;
            } else {
                break;
            }
        }
        self.push(PreTokenKind::NumLit, end);
    }

    /// Read a string or char literal token.
    fn read_string_char_literal(&mut self, is_char: bool, prefix_len: usize, names: &Names) -> (r:
        Result<(), Error>)
        requires
            old(self).pos + prefix_len < old(self).source.content.len(),
        ensures
            final(self).inside(),
            final(self).source == old(self).source,
            read_literal(
                old(self).id(),
                old(self).text(),
                old(self).scan(names@),
                is_char,
                prefix_len as int,
            ) == (match r {
                Err(e) => Err::<Scan, Error>(e),
                Ok(_) => Ok(final(self).scan(names@)),
            }),
            r is Ok ==> final(self).pos > old(self).pos,
    {
        proof {
            reveal(read_literal);
        }
        let content = &self.source.content;
        let quote: u8 = if is_char {
            ascii::QUOTE
        } else {
            ascii::DQUOTE
        };
        let mut i: usize = self.pos + prefix_len + 1;
        let mut closed: bool = false;
        while i < content.len()
            invariant_except_break
                !closed,
                literal_end(content@, self.pos + prefix_len + 1, quote) == literal_end(
                    content@,
                    i as int,
                    quote,
                ),
            invariant
                self.pos + prefix_len + 1 <= i <= content.len(),
            ensures
                literal_end(content@, self.pos + prefix_len + 1, quote) == (i as int, closed),
                closed ==> i < content.len(),
            decreases content.len() - i,
        {
            let b: u8 = content[i];
            if b == quote {
                closed = true;
                break;
            }
            if b == ascii::BACKSLASH {
                i += 1;
                if i >= content.len() {
                    break;
                }
                let escaped: u8 = content[i];
                if escaped == ascii::NEWLINE || escaped == 0 {
                    break;
                }
                i += 1;
            } else if b == ascii::NEWLINE || b == 0 {
                break;
            } else {
                i += 1;
            }
        }
        if closed {
            self.push(
                if is_char {
                    PreTokenKind::CharLit
                } else {
                    PreTokenKind::StrLit
                },
                i + 1,
            );
            return Ok(());
        }
        self.error(
            i - self.pos,
            if is_char {
                Message::UnclosedChar
            } else {
                Message::UnclosedString
            },
        )
    }

    /// Read an identifier token, returning whether there is one.
    fn read_ident(&mut self, names: &mut Names) -> (r: bool)
        requires
            old(self).pos < old(self).source.content.len(),
        ensures
            final(self).inside(),
            final(self).source == old(self).source,
            r == (char_at(old(self).text(), old(self).pos as int) is Some && ident_start(
                char_at(old(self).text(), old(self).pos as int).unwrap().0,
            )),
            !r ==> *final(self) == *old(self) && *final(names) == *old(names),
            r ==> final(self).pos > old(self).pos && read_word(
                old(self).id(),
                old(self).text(),
                old(self).scan(old(names)@),
            ) == Ok::<Scan, Error>(final(self).scan(final(names)@)),
    {
        proof {
            reveal(read_word);
        }
        let content = self.source.content.as_slice();
        let Some((first, first_len)) = decode_char(content, self.pos) else {
            return false;
        };
        if !is_ident_start(first) {
            return false;
        }
        let mut end: usize = self.pos + first_len;
        let ghost from = self.pos + first_len;
        while end < content.len()
            invariant_except_break
                ident_end(content@, from) == ident_end(content@, end as int),
            invariant
                from <= end <= content.len(),
            ensures
                end == ident_end(content@, from),
            decreases content.len() - end,
        {
            match decode_char(content, end) {
                Some((code, len)) => {
                    if !is_ident_cont(code) {
                        break;
                    }
                    end += len;
                },
                None => {
                    break;
                },
            }
        }
        proof {
            if end >= content.len() {
                reveal(char_at);
            }
        }
        let lexeme = vstd::slice::slice_subrange(content, self.pos, end);
        let symbol = names.intern(lexeme);
        self.push(PreTokenKind::Ident(symbol), end);
        true
    }

    /// Read a punctuator token, or fail if there is none.
    fn read_punct(&mut self, names: &Names) -> (r: Result<(), Error>)
        requires
            old(self).pos < old(self).source.content.len(),
            !(char_at(old(self).text(), old(self).pos as int) is Some && ident_start(
                char_at(old(self).text(), old(self).pos as int).unwrap().0,
            )),
        ensures
            final(self).inside(),
            final(self).source == old(self).source,
            read_word(old(self).id(), old(self).text(), old(self).scan(names@)) == (match r {
                Err(e) => Err::<Scan, Error>(e),
                Ok(_) => Ok(final(self).scan(names@)),
            }),
            r is Ok ==> final(self).pos > old(self).pos,
    {
        proof {
            reveal(read_word);
        }
        match find_punct(self.source.content.as_slice(), self.pos) {
            Some((punct, len)) => {
                self.push(PreTokenKind::Punct(punct), self.pos + len);
                Ok(())
            },
            None => self.error(1, Message::InvalidToken),
        }
    }

    /// Return whether a comment starts here.
    fn at_comment(&self) -> (r: bool)
        requires
            self.inside(),
        ensures
            r == comment_starts(self.text(), self.pos as int),
    {
        if self.byte_at(0) != ascii::SLASH {
            return false;
        }
        let second: u8 = self.byte_at(1);
        second == ascii::SLASH || second == ascii::STAR
    }

    fn literal_at(&self, quote: u8) -> (r: Option<usize>)
        requires
            self.inside(),
            quote == ascii::DQUOTE || quote == ascii::QUOTE,
        ensures
            literal_at(self.text(), self.pos as int, quote) == (match r {
                Some(len) => Some(len as int),
                None => None,
            }),
            r is Some ==> self.pos + r.unwrap() < self.source.content.len(),
    {
        let first: u8 = self.byte_at(0);
        if first == quote {
            return Some(0);
        }
        let second: u8 = self.byte_at(1);
        if (first == ascii::LOWER_U || first == ascii::UPPER_U || first == ascii::UPPER_L) && second == quote {
            return Some(1);
        }
        if quote == ascii::DQUOTE && first == ascii::LOWER_U && second == ascii::DIGIT_8 && self.byte_at(2) == quote {
            return Some(2);
        }
        None
    }

    /// Read white space or a token.
    fn read_token(&mut self, names: &mut Names) -> (r: Result<(), Error>)
        requires
            old(self).pos < old(self).source.content.len(),
        ensures
            final(self).inside(),
            final(self).source == old(self).source,
            read_token(old(self).id(), old(self).text(), old(self).scan(old(names)@)) == (match r {
                Err(e) => Err::<Scan, Error>(e),
                Ok(_) => Ok(final(self).scan(final(names)@)),
            }),
            r is Err ==> final(names)@ == old(names)@,
            r is Ok ==> final(self).pos > old(self).pos,
    {
        proof {
            reveal(read_token);
        }
        let first: u8 = self.byte_at(0);
        if first == ascii::NEWLINE {
            self.pos += 1;
            self.at_bol = true;
            self.follows_space = false;
            return Ok(());
        }
        if first == ascii::SPACE || first == ascii::TAB || first == 0x0c || first == ascii::RETURN {
            self.pos += 1;
            self.follows_space = true;
            return Ok(());
        }
        if is_ascii_digit(first) || (first == ascii::DOT && is_ascii_digit(self.byte_at(1))) {
            self.read_numeric_literal();
            return Ok(());
        }
        if let Some(prefix_len) = self.literal_at(ascii::DQUOTE) {
            return self.read_string_char_literal(false, prefix_len, names);
        }
        if let Some(prefix_len) = self.literal_at(ascii::QUOTE) {
            return self.read_string_char_literal(true, prefix_len, names);
        }
        if self.read_ident(names) {
            return Ok(());
        }
        self.read_punct(names)
    }

    /// Tokenize the entire source into a flat token list.
    ///
    /// If `allow_comment` is false, comments will be treated as invalid tokens
    /// instead of being skipped. If `emit_eof` is false, no EOF sentinel will
    /// be emitted at the end of the token stream.
    pub fn tokenize(self, names: &mut Names, allow_comment: bool, emit_eof: bool) -> (r: Result<
        Vec<PreToken>,
        Error,
    >)
        requires
            self.scan(Seq::empty()) == (Scan {
                pos: 0,
                at_bol: true,
                follows_space: false,
                tokens: Seq::empty(),
                names: Seq::empty(),
            }),
        ensures
            tokenized(self.id(), self.text(), old(names)@, allow_comment, emit_eof)
                == (Tokenized { names: final(names)@, r: tokens_in(r) }),
    {
        let mut this = self;
        let ghost whole = read_all(self.id(), self.text(), self.scan(old(names)@), allow_comment);
        while this.pos < this.source.content.len()
            invariant
                this.source == self.source,
                this.inside(),
                whole == read_all(self.id(), self.text(), self.scan(old(names)@), allow_comment),
                whole == read_all(self.id(), self.text(), this.scan(names@), allow_comment),
                self.scan(Seq::empty()) == (Scan {
                    pos: 0,
                    at_bol: true,
                    follows_space: false,
                    tokens: Seq::empty(),
                    names: Seq::empty(),
                }),
            decreases this.source.content.len() - this.pos,
        {
            if !allow_comment && this.at_comment() {
                return this.error(1, Message::InvalidToken);
            }
            if this.read_comment(names)? {
                continue;
            }
            this.read_token(names)?;
        }
        if emit_eof {
            let end: usize = this.pos;
            let ghost st = this.scan(names@);
            this.push(PreTokenKind::Eof, end);
            assert(this.scan(names@) == token_read(self.id(), st, PreTokenKind::Eof, st.pos));
        }
        Ok(this.tokens)
    }
}

} // verus!
