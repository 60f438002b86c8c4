//! Tokens of the C programming language.

use vstd::prelude::*;
use crate::source::SourceSpan;
use crate::types::{Symbol, Type};

pub mod lower;
pub mod scan;

verus! {

/// A punctuator.
#[derive(Clone, Copy, Debug, PartialEq, Eq, Structural)]
pub enum Punct {
    LParen,
    RParen,
    LBrace,
    RBrace,
    LBracket,
    RBracket,
    Semi,
    Comma,
    Dot,
    Arrow,
    Ellipsis,
    Plus,
    Minus,
    Star,
    Slash,
    Percent,
    Amp,
    Pipe,
    Caret,
    Tilde,
    Not,
    Lt,
    Gt,
    Le,
    Ge,
    EqEq,
    Ne,
    Assign,
    AndAnd,
    OrOr,
    PlusPlus,
    MinusMinus,
    PlusEq,
    MinusEq,
    StarEq,
    SlashEq,
    PercentEq,
    AmpEq,
    PipeEq,
    CaretEq,
    Shl,
    Shr,
    ShlEq,
    ShrEq,
    Question,
    Colon,
    Hash,
    HashHash,
    Quote,
    SingleQuote,
    Dollar,
    At,
    Backslash,
    Underscore,
    Backquote,
}

impl Punct {
    /// How the punctuator is spelled.
    pub open spec fn spec_text(self) -> Seq<char> {
        match self {
            Punct::LParen => "("@,
            Punct::RParen => ")"@,
            Punct::LBrace => "{"@,
            Punct::RBrace => "}"@,
            Punct::LBracket => "["@,
            Punct::RBracket => "]"@,
            Punct::Semi => ";"@,
            Punct::Comma => ","@,
            Punct::Dot => "."@,
            Punct::Arrow => "->"@,
            Punct::Ellipsis => "..."@,
            Punct::Plus => "+"@,
            Punct::Minus => "-"@,
            Punct::Star => "*"@,
            Punct::Slash => "/"@,
            Punct::Percent => "%"@,
            Punct::Amp => "&"@,
            Punct::Pipe => "|"@,
            Punct::Caret => "^"@,
            Punct::Tilde => "~"@,
            Punct::Not => "!"@,
            Punct::Lt => "<"@,
            Punct::Gt => ">"@,
            Punct::Le => "<="@,
            Punct::Ge => ">="@,
            Punct::EqEq => "=="@,
            Punct::Ne => "!="@,
            Punct::Assign => "="@,
            Punct::AndAnd => "&&"@,
            Punct::OrOr => "||"@,
            Punct::PlusPlus => "++"@,
            Punct::MinusMinus => "--"@,
            Punct::PlusEq => "+="@,
            Punct::MinusEq => "-="@,
            Punct::StarEq => "*="@,
            Punct::SlashEq => "/="@,
            Punct::PercentEq => "%="@,
            Punct::AmpEq => "&="@,
            Punct::PipeEq => "|="@,
            Punct::CaretEq => "^="@,
            Punct::Shl => "<<"@,
            Punct::Shr => ">>"@,
            Punct::ShlEq => "<<="@,
            Punct::ShrEq => ">>="@,
            Punct::Question => "?"@,
            Punct::Colon => ":"@,
            Punct::Hash => "#"@,
            Punct::HashHash => "##"@,
            Punct::Quote => "\""@,
            Punct::SingleQuote => "'"@,
            Punct::Dollar => "$"@,
            Punct::At => "@"@,
            Punct::Backslash => "\\"@,
            Punct::Underscore => "_"@,
            Punct::Backquote => "`"@,
        }
    }

    /// Return how the punctuator is spelled.
    pub fn text(self) -> (r: String)
        ensures
            r@ == self.spec_text(),
    {
        String::from_str(self.spelling())
    }

    fn spelling(self) -> (r: &'static str)
        ensures
            r@ == self.spec_text(),
    {
        match self {
            Punct::LParen => "(",
            Punct::RParen => ")",
            Punct::LBrace => "{",
            Punct::RBrace => "}",
            Punct::LBracket => "[",
            Punct::RBracket => "]",
            Punct::Semi => ";",
            Punct::Comma => ",",
            Punct::Dot => ".",
            Punct::Arrow => "->",
            Punct::Ellipsis => "...",
            Punct::Plus => "+",
            Punct::Minus => "-",
            Punct::Star => "*",
            Punct::Slash => "/",
            Punct::Percent => "%",
            Punct::Amp => "&",
            Punct::Pipe => "|",
            Punct::Caret => "^",
            Punct::Tilde => "~",
            Punct::Not => "!",
            Punct::Lt => "<",
            Punct::Gt => ">",
            Punct::Le => "<=",
            Punct::Ge => ">=",
            Punct::EqEq => "==",
            Punct::Ne => "!=",
            Punct::Assign => "=",
            Punct::AndAnd => "&&",
            Punct::OrOr => "||",
            Punct::PlusPlus => "++",
            Punct::MinusMinus => "--",
            Punct::PlusEq => "+=",
            Punct::MinusEq => "-=",
            Punct::StarEq => "*=",
            Punct::SlashEq => "/=",
            Punct::PercentEq => "%=",
            Punct::AmpEq => "&=",
            Punct::PipeEq => "|=",
            Punct::CaretEq => "^=",
            Punct::Shl => "<<",
            Punct::Shr => ">>",
            Punct::ShlEq => "<<=",
            Punct::ShrEq => ">>=",
            Punct::Question => "?",
            Punct::Colon => ":",
            Punct::Hash => "#",
            Punct::HashHash => "##",
            Punct::Quote => "\"",
            Punct::SingleQuote => "'",
            Punct::Dollar => "$",
            Punct::At => "@",
            Punct::Backslash => "\\",
            Punct::Underscore => "_",
            Punct::Backquote => "`",
        }
    }
}

/// A keyword.
#[derive(Clone, Copy, Debug, PartialEq, Eq, Structural)]
pub enum Keyword {
    Return,
    If,
    Else,
    For,
    While,
    Do,
    Goto,
    Break,
    Continue,
    Switch,
    Case,
    Default,
    Void,
    Bool,
    Char,
    Short,
    Int,
    Long,
    Float,
    Double,
    Signed,
    Unsigned,
    Sizeof,
    Struct,
    Union,
    Enum,
    Const,
    Volatile,
    Typedef,
    Static,
    Extern,
    Auto,
    Register,
    Restrict,
    Noreturn,
    Alignof,
    Alignas,
}

/// Preprocessor token kinds for [`PreToken`].
#[derive(Clone, Copy, Debug, PartialEq, Eq, Structural)]
pub enum PreTokenKind {
    Ident(Symbol),
    Punct(Punct),
    NumLit,
    StrLit,
    CharLit,
    Eof,
}

/// A preprocessor token.
///
/// This is the direct output of tokenization consumed by the preprocessor,
/// which needs to be lowered into [`Token`] before C level parsing.
#[derive(Clone, Copy, Debug, PartialEq, Eq, Structural)]
pub struct PreToken {
    pub kind: PreTokenKind,
    pub span: SourceSpan,
    /// Whether this token begins a logical source line.
    pub at_bol: bool,
    /// Whether this token follows a space.
    pub follows_space: bool,
    /// The set of macro names suppressed for this token during preprocessing,
    /// given by its index among those sets.
    pub hideset: Option<usize>,
    /// The spelling if this is a synthetic token, given by its index among
    /// the spellings of synthetic tokens.
    ///
    /// If this is `None`, this token must originate from the source content,
    /// and its spelling can be obtained from the source using its `span`.
    pub synthetic: Option<usize>,
    /// The origin span, if this token needs to be expanded elsewhere.
    pub origin: Option<SourceSpan>,
}

impl PreToken {
    /// Create a synthetic preprocessor token.
    pub fn synthetic(
        kind: PreTokenKind,
        span: SourceSpan,
        at_bol: bool,
        follows_space: bool,
        spelling: usize,
    ) -> (r: PreToken)
        ensures
            r == synthetic_token(kind, span, at_bol, follows_space, spelling),
    {
        PreToken {
            kind,
            span,
            at_bol,
            follows_space,
            hideset: None,
            synthetic: Some(spelling),
            origin: None,
        }
    }

    /// Return whether this token is a punctuator.
    pub fn is_punct(&self, expected: Punct) -> (r: bool)
        ensures
            r == (self.kind == PreTokenKind::Punct(expected)),
    {
        match self.kind {
            PreTokenKind::Punct(punct) => punct == expected,
            _ => false,
        }
    }

    /// Return whether this token is a string literal.
    pub fn is_str_lit(&self) -> (r: bool)
        ensures
            r == (self.kind == PreTokenKind::StrLit),
    {
        matches!(self.kind, PreTokenKind::StrLit)
    }

    /// Return whether this token is the EOF sentinel.
    pub fn is_eof(&self) -> (r: bool)
        ensures
            r == (self.kind == PreTokenKind::Eof),
    {
        matches!(self.kind, PreTokenKind::Eof)
    }

    /// Return the name if this is an identifier token.
    pub fn as_ident(&self) -> (r: Option<Symbol>)
        ensures
            r == (if self.kind is Ident {
                Some(self.kind->Ident_0)
            } else {
                None
            }),
    {
        match self.kind {
            PreTokenKind::Ident(name) => Some(name),
            _ => None,
        }
    }
}

/// A token that stands in no source text, with the index of its spelling.
pub open spec fn synthetic_token(
    kind: PreTokenKind,
    span: SourceSpan,
    at_bol: bool,
    follows_space: bool,
    spelling: usize,
) -> PreToken {
    PreToken {
        kind,
        span,
        at_bol,
        follows_space,
        hideset: None,
        synthetic: Some(spelling),
        origin: None,
    }
}

/// Token kinds for [`Token`].
#[derive(Clone, Copy, Debug, PartialEq, Eq, Structural)]
pub enum TokenKind {
    Ident(Symbol),
    Keyword(Keyword),
    Punct(Punct),
    /// An integer constant.
    Num(u64, Type),
    /// A floating-point constant, given by the bits of a double.
    Flonum(u64, Type),
    /// A string literal, given by its index among the string literals, and the
    /// type of its elements.
    Str(usize, Type),
    Eof,
}

/// A token.
#[derive(Clone, Copy, Debug, PartialEq, Eq, Structural)]
pub struct Token {
    pub kind: TokenKind,
    pub span: SourceSpan,
}

/// Whether a keyword can stand in declaration specifiers.
pub open spec fn is_typename_kw(keyword: Keyword) -> bool {
    match keyword {
        Keyword::Void
        | Keyword::Bool
        | Keyword::Char
        | Keyword::Short
        | Keyword::Int
        | Keyword::Long
        | Keyword::Float
        | Keyword::Double
        | Keyword::Signed
        | Keyword::Unsigned
        | Keyword::Struct
        | Keyword::Union
        | Keyword::Enum
        | Keyword::Const
        | Keyword::Volatile
        | Keyword::Typedef
        | Keyword::Static
        | Keyword::Extern
        | Keyword::Auto
        | Keyword::Register
        | Keyword::Restrict
        | Keyword::Noreturn
        | Keyword::Alignas => true,
        _ => false,
    }
}

impl Token {
    /// Return whether this is an EOF token.
    pub fn is_eof(&self) -> (r: bool)
        ensures
            r == (self.kind == TokenKind::Eof),
    {
        matches!(self.kind, TokenKind::Eof)
    }

    /// Return whether this is the given keyword token.
    pub fn is_keyword(&self, expected: Keyword) -> (r: bool)
        ensures
            r == (self.kind == TokenKind::Keyword(expected)),
    {
        match self.kind {
            TokenKind::Keyword(keyword) => keyword == expected,
            _ => false,
        }
    }

    /// Return whether this is the given punctuator token.
    pub fn is_punct(&self, expected: Punct) -> (r: bool)
        ensures
            r == (self.kind == TokenKind::Punct(expected)),
    {
        match self.kind {
            TokenKind::Punct(punct) => punct == expected,
            _ => false,
        }
    }

    /// Return whether this token is a typename keyword.
    pub fn is_typename_keyword(&self) -> (r: bool)
        ensures
            r == (self.kind is Keyword && is_typename_kw(self.kind->Keyword_0)),
    {
        matches!(
            self.kind,
            TokenKind::Keyword(
                Keyword::Void
                | Keyword::Bool
                | Keyword::Char
                | Keyword::Short
                | Keyword::Int
                | Keyword::Long
                | Keyword::Float
                | Keyword::Double
                | Keyword::Signed
                | Keyword::Unsigned
                | Keyword::Struct
                | Keyword::Union
                | Keyword::Enum
                | Keyword::Const
                | Keyword::Volatile
                | Keyword::Typedef
                | Keyword::Static
                | Keyword::Extern
                | Keyword::Auto
                | Keyword::Register
                | Keyword::Restrict
                | Keyword::Noreturn
                | Keyword::Alignas,
            )
        )
    }

    /// Return the keyword if this is a keyword token.
    pub fn as_keyword(&self) -> (r: Option<Keyword>)
        ensures
            r == (if self.kind is Keyword {
                Some(self.kind->Keyword_0)
            } else {
                None
            }),
    {
        match self.kind {
            TokenKind::Keyword(keyword) => Some(keyword),
            _ => None,
        }
    }

    /// Return the name if this is an identifier token.
    pub fn as_ident(&self) -> (r: Option<Symbol>)
        ensures
            r == (if self.kind is Ident {
                Some(self.kind->Ident_0)
            } else {
                None
            }),
    {
        match self.kind {
            TokenKind::Ident(name) => Some(name),
            _ => None,
        }
    }

    /// Return the value if this is an integer numeric token.
    pub fn as_num(&self) -> (r: Option<(u64, Type)>)
        ensures
            r == (match self.kind {
                TokenKind::Num(value, ty) => Some((value, ty)),
                _ => None,
            }),
    {
        match self.kind {
            TokenKind::Num(value, ty) => Some((value, ty)),
            _ => None,
        }
    }

    /// Return the bits of the value if this is a floating-point numeric token.
    pub fn as_flonum(&self) -> (r: Option<(u64, Type)>)
        ensures
            r == (match self.kind {
                TokenKind::Flonum(bits, ty) => Some((bits, ty)),
                _ => None,
            }),
    {
        match self.kind {
            TokenKind::Flonum(bits, ty) => Some((bits, ty)),
            _ => None,
        }
    }

    /// Return the index of the content if this is a string literal token.
    pub fn as_str(&self) -> (r: Option<(usize, Type)>)
        ensures
            r == (match self.kind {
                TokenKind::Str(content, base_ty) => Some((content, base_ty)),
                _ => None,
            }),
    {
        match self.kind {
            TokenKind::Str(content, base_ty) => Some((content, base_ty)),
            _ => None,
        }
    }
}

} // verus!
