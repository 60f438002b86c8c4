//! Errors and diagnostics for chacc.

use vstd::prelude::*;
use crate::constexpr::FloatQuery;
use crate::names::name_views;
use crate::source::{copy_bytes, SourceMap, SourceSpan, SourceView};
use crate::tokenize::Punct;
use crate::utils::{digits, push_bytes, push_digits};

verus! {

/// The severity level of a diagnostic message.
#[derive(Clone, Copy, Debug, PartialEq, Eq, Structural)]
pub enum DiagnosticLevel {
    Warning,
    Error,
}

/// A compiler diagnostic message.
#[derive(Debug)]
pub struct Diagnostic {
    pub level: DiagnosticLevel,
    pub message: Vec<u8>,
    pub file: String,
    /// The line of the source, without the line break.
    pub line: Vec<u8>,
    pub line_no: u64,
    pub col_no: u64,
    pub span_len: usize,
}

/// The parsing context for declaration specifiers.
#[derive(Clone, Copy, Debug, PartialEq, Eq, Structural)]
pub enum DeclspecContext {
    FileScopeDecl,
    BlockScopeDecl,
    Typename,
    ParameterDecl,
    ForLoopInitializer,
    /// A member of a struct (true) or of a union (false).
    MemberDecl(bool),
}

/// What a diagnostic says.
#[derive(Clone, Copy, Debug, PartialEq, Eq, Structural)]
pub enum Message {
    ExpectedPunct(Punct),
    ExpectedWhile,
    StorageClassNotAllowed(DeclspecContext),
    NoreturnNotAllowed(DeclspecContext),
    AlignasNotAllowed(DeclspecContext),
    /// Redefinition of a struct (true) or union (false) tag.
    RedefinitionOfTag(bool),
    ExpectedIdent,
    ExpectedRBrace,
    MultipleTypes,
    MultipleStorageClasses,
    ConstOutOfRange,
    MissingTypeSpecifier,
    ExpectedTypename,
    VoidMustBeOnly,
    ParamNoreturn,
    ParamIncomplete,
    RedefinitionOfParam,
    ArrayQualifiers,
    DuplicateStatic,
    StaticWithoutBound,
    ArraySizeRange,
    ArrayElementIncomplete,
    ArrayElementFunction,
    TypeTooLarge,
    WrongKindOfTag,
    FieldIncomplete,
    FlexibleInUnion,
    FlexibleNotAtEnd,
    FlexibleAlone,
    DeclaresNothing,
    ExpectedSemi,
    MissingMemberName,
    ExpectedCommaOrSemi,
    UnknownEnum,
    NotAnEnumTag,
    RedeclarationOfEnumTag,
    RedeclarationOfEnumerator,
    DifferentKindOfSymbol,
    MissingFunctionName,
    ExpectedFunction,
    RedefinitionOfFunction,
    UselessTypeName,
    MissingVariableName,
    VariableNoreturn,
    ExpectedGlobalVariable,
    VariableIncomplete,
    ReturnWithoutValue,
    ReturnWithValue,
    SwitchNotInteger,
    CaseOutsideSwitch,
    DuplicateCase,
    MultipleDefaults,
    DefaultOutsideSwitch,
    BreakOutsideLoop,
    ContinueOutsideLoop,
    MissingDeclaratorName,
    NoLinkageAfterExtern,
    RedefinitionOfLocal,
    FunctionInitialized,
    InvalidFunctionStorage,
    ExternInitialized,
    StringTooLong,
    ExcessArrayElements,
    InitFlexible,
    ExcessStructElements,
    StmtExprInPreprocessor,
    SizeofIncomplete,
    AlignofIncomplete,
    ImplicitFunction,
    UndefinedIdent,
    StringInPreprocessor,
    FloatInPreprocessor,
    ExpectedExpression,
    NotAFunction,
    AggregateByValue,
    TooManyArguments,
    TooFewArguments,
    TypedefNoreturn,
    MissingTypedefName,
    ConflictingTypes,
    ExtraneousTokens,
    MissingParamName,
    ExternAfterNoLinkage,
    NonStaticAfterStatic,
    StaticAfterNonStatic,
    RedefinitionOfGlobal,
    InvalidOperands,
    MemberOfIncomplete,
    MemberOfNonAggregate,
    NotAnIdent,
    NoSuchMember,
    NotConstant,
    InvalidInitializer,
    CompoundLiteralIncomplete,
    InvalidDeref,
    DerefVoid,
    InvalidOperandType,
    NotAnLvalue,
    VoidStmtExpr,
    DuplicateLabel,
    UndeclaredLabel,
    DivisionByZero,
    VoidLvalue,
    InvalidFloatOperator,
    InvalidToken,
    /// Too few arguments, with the number of parameters.
    TooFewArgs(usize),
    TooManyArgs(usize),
    /// No token is spelled so, given by the index of the spelling, and the
    /// source made for it.
    PasteInvalid(usize, usize),
    /// Several tokens are spelled so, given by the index of the spelling.
    PasteMultiple(usize),
    /// A text of the program, given by the index of its spelling.
    Text(usize),
    UnclosedComment,
    UnclosedChar,
    UnclosedString,
    StringInPpExpr,
    FloatInPpExpr,
    InvalidFloat,
    InvalidInteger,
    InvalidString,
    InvalidCharInLiteral,
    InvalidEscape,
    InvalidChar,
    EmptyChar,
    MultiChar,
    OctalOutOfRange,
    InvalidHexEscape,
    HexOutOfRange,
    IncompleteUniversalName,
    InvalidUniversalName,
    UnknownEscape,
    UnterminatedMacroCall,
    HashNotParam,
    PasteAtStart,
    PasteAtEnd,
    RedefinitionOfMacro,
    InvalidDirective,
    BareInclude,
    ExpectedFilename,
    ExtraAfterInclude,
    EmptyFilename,
    FileNotFound,
    MacroNameNotIdent,
    ExtraAfterUndef,
    ExtraAfterIfdef,
    ExtraAfterIfndef,
    ExtraAfterElse,
    ExtraAfterEndif,
    IdentAfterDefined,
    RParenAfterDefined,
    BareIf,
    BareElif,
    ElifWithoutIf,
    ElifAfterElse,
    ElseWithoutIf,
    ElseAfterElse,
    EndifWithoutIf,
    NoNameInDefine,
    NoNameInUndef,
    NoNameInIfdef,
    NoNameInIfndef,
    UnterminatedIf,
    UnterminatedIfdef,
    UnterminatedIfndef,
}

/// The error type for chacc.
#[derive(Clone, Copy, Debug, PartialEq, Eq, Structural)]
pub enum Error {
    /// The program is wrong at the given place; compilation terminates.
    Terminate(SourceSpan, Message),
    /// A floating-point operation is needed whose result is not known yet.
    NeedsFloat(FloatQuery),
    /// The value of the floating-point literal at the given place is not known
    /// yet.
    NeedsLiteral(SourceSpan),
    /// A number does not fit where the compiler keeps it, or a reference within
    /// what was handed in leads nowhere.
    Overflow,
}

impl Error {
    /// Returns whether this is a termination.
    pub fn is_terminate(&self) -> (r: bool)
        ensures
            r == (*self is Terminate),
    {
        matches!(self, Error::Terminate(_, _))
    }
}

/// A warning against the program being compiled.
#[derive(Clone, Copy, Debug, PartialEq, Eq, Structural)]
pub struct Warning {
    pub span: SourceSpan,
    pub message: Message,
}

impl DeclspecContext {
    /// How the context is called in a diagnostic.
    pub open spec fn spec_text(self) -> Seq<char> {
        match self {
            DeclspecContext::FileScopeDecl => "file-scope declaration"@,
            DeclspecContext::BlockScopeDecl => "block-scope declaration"@,
            DeclspecContext::Typename => "typename"@,
            DeclspecContext::ParameterDecl => "parameter declaration"@,
            DeclspecContext::ForLoopInitializer => "for loop initializer"@,
            DeclspecContext::MemberDecl(true) => "struct member declaration"@,
            DeclspecContext::MemberDecl(false) => "union member declaration"@,
        }
    }

    /// How the context is called in a diagnostic.
    pub fn text(self) -> (r: &'static str)
        ensures
            r@ == self.spec_text(),
    {
        match self {
            DeclspecContext::FileScopeDecl => "file-scope declaration",
            DeclspecContext::BlockScopeDecl => "block-scope declaration",
            DeclspecContext::Typename => "typename",
            DeclspecContext::ParameterDecl => "parameter declaration",
            DeclspecContext::ForLoopInitializer => "for loop initializer",
            DeclspecContext::MemberDecl(true) => "struct member declaration",
            DeclspecContext::MemberDecl(false) => "union member declaration",
        }
    }
}

impl Message {
    /// The words of a message that is the same in every context.
    pub open spec fn fixed_text(self) -> Seq<char> {
        match self {
            Message::ExpectedIdent => "expected an identifier"@,
            Message::ExpectedRBrace => "expected '}'"@,
            Message::MultipleTypes => "multiple types in declaration specifiers"@,
            Message::MultipleStorageClasses => "multiple storage classes in declaration specifiers"@,
            Message::ConstOutOfRange => "constant expression is out of range"@,
            Message::MissingTypeSpecifier => "missing type specifier, defaults to 'int'"@,
            Message::ExpectedTypename => "expected a typename"@,
            Message::VoidMustBeOnly => "'void' must be the only parameter"@,
            Message::ParamNoreturn => "parameter declared '_Noreturn'"@,
            Message::ParamIncomplete => "parameter has incomplete type"@,
            Message::RedefinitionOfParam => "redefinition of parameter"@,
            Message::ArrayQualifiers => "'static' or qualifiers in non-parameter array declarator"@,
            Message::DuplicateStatic => "duplicate 'static' in array parameter declarator"@,
            Message::StaticWithoutBound => "array parameter declared 'static' but bound is missing"@,
            Message::ArraySizeRange => "array size is negative or out of range"@,
            Message::ArrayElementIncomplete => "array element type is incomplete"@,
            Message::ArrayElementFunction => "array element type cannot be function"@,
            Message::TypeTooLarge => "size of type is too large"@,
            Message::WrongKindOfTag => "defined as wrong kind of tag"@,
            Message::FieldIncomplete => "field has incomplete type"@,
            Message::FlexibleInUnion => "flexible array member in union"@,
            Message::FlexibleNotAtEnd => "flexible array member not at end of struct"@,
            Message::FlexibleAlone => "flexible array member in a struct with no named members"@,
            Message::DeclaresNothing => "declaration does not declare anything"@,
            Message::ExpectedSemi => "expected ';'"@,
            Message::MissingMemberName => "missing member name"@,
            Message::ExpectedCommaOrSemi => "expected ',' or ';'"@,
            Message::UnknownEnum => "unknown enum type"@,
            Message::NotAnEnumTag => "not an enum tag"@,
            Message::RedeclarationOfEnumTag => "redeclaration of enum tag"@,
            Message::RedeclarationOfEnumerator => "redeclaration of enumerator"@,
            Message::DifferentKindOfSymbol => "redeclared as a different kind of symbol"@,
            Message::MissingFunctionName => "missing function name"@,
            Message::ExpectedFunction => "expected a function"@,
            Message::RedefinitionOfFunction => "redefinition of function"@,
            Message::UselessTypeName => "useless type name in empty declaration"@,
            Message::MissingVariableName => "missing variable name"@,
            Message::VariableNoreturn => "variable declared '_Noreturn'"@,
            Message::ExpectedGlobalVariable => "expected a global variable"@,
            Message::VariableIncomplete => "variable has incomplete type"@,
            Message::ReturnWithoutValue => "return with no value in a non-void function"@,
            Message::ReturnWithValue => "return with a value in a void function"@,
            Message::SwitchNotInteger => "switch condition is not an integer"@,
            Message::CaseOutsideSwitch => "case label not within a switch"@,
            Message::DuplicateCase => "duplicate case value"@,
            Message::MultipleDefaults => "multiple default labels in one switch"@,
            Message::DefaultOutsideSwitch => "default label not within a switch"@,
            Message::BreakOutsideLoop => "break statement not within a loop or switch"@,
            Message::ContinueOutsideLoop => "continue statement not within a loop"@,
            Message::MissingDeclaratorName => "missing declarator name"@,
            Message::NoLinkageAfterExtern => "declaration with no linkage follows extern declaration"@,
            Message::RedefinitionOfLocal => "redefinition of local variable"@,
            Message::FunctionInitialized => "function declaration cannot be initialized"@,
            Message::InvalidFunctionStorage => "invalid storage class specifier in function declaration"@,
            Message::ExternInitialized => "extern declaration cannot be initialized"@,
            Message::StringTooLong => "initializer string is too long"@,
            Message::ExcessArrayElements => "excess elements in array initializer"@,
            Message::InitFlexible => "cannot initialize a flexible array member"@,
            Message::ExcessStructElements => "excess elements in struct initializer"@,
            Message::StmtExprInPreprocessor => "statement expression is not valid in preprocessor expressions"@,
            Message::SizeofIncomplete => "cannot apply 'sizeof' to incomplete type"@,
            Message::AlignofIncomplete => "cannot apply '_Alignof' to incomplete type"@,
            Message::ImplicitFunction => "implicit declaration of a function"@,
            Message::UndefinedIdent => "undefined identifier"@,
            Message::StringInPreprocessor => "string literal is not valid in preprocessor expressions"@,
            Message::FloatInPreprocessor => "floating-point constant is not valid in preprocessor expressions"@,
            Message::ExpectedExpression => "expected an expression"@,
            Message::NotAFunction => "not a function"@,
            Message::AggregateByValue => "passing struct or union by value is not supported yet"@,
            Message::TooManyArguments => "too many arguments"@,
            Message::TooFewArguments => "too few arguments"@,
            Message::TypedefNoreturn => "typedef declared '_Noreturn'"@,
            Message::MissingTypedefName => "missing typedef name"@,
            Message::ConflictingTypes => "conflicting types"@,
            Message::ExtraneousTokens => "extraneous tokens"@,
            Message::MissingParamName => "missing parameter name"@,
            Message::ExternAfterNoLinkage => "extern declaration follows declaration with no linkage"@,
            Message::NonStaticAfterStatic => "non-static declaration follows static declaration"@,
            Message::StaticAfterNonStatic => "static declaration follows non-static declaration"@,
            Message::RedefinitionOfGlobal => "redefinition of global variable"@,
            Message::InvalidOperands => "invalid operands"@,
            Message::MemberOfIncomplete => "request for member in an incomplete type"@,
            Message::MemberOfNonAggregate => "request for member in something that is not a struct or union"@,
            Message::NotAnIdent => "not an ident"@,
            Message::NoSuchMember => "no such member"@,
            Message::NotConstant => "not a compile-time constant"@,
            Message::InvalidInitializer => "invalid initializer"@,
            Message::CompoundLiteralIncomplete => "compound literal has incomplete type"@,
            Message::InvalidDeref => "invalid pointer dereference"@,
            Message::DerefVoid => "dereferencing a void pointer"@,
            Message::InvalidOperandType => "invalid operand type"@,
            Message::NotAnLvalue => "not an lvalue"@,
            Message::VoidStmtExpr => "statement expression returning void is not supported"@,
            Message::DuplicateLabel => "duplicate label"@,
            Message::UndeclaredLabel => "use of undeclared label"@,
            Message::DivisionByZero => "division by zero"@,
            Message::VoidLvalue => "invalid use of void expression as lvalue"@,
            Message::InvalidFloatOperator => "invalid operator for floating-point operands"@,
            Message::InvalidToken => "invalid token"@,
            Message::UnclosedComment => "unclosed block comment"@,
            Message::UnclosedChar => "unclosed char literal"@,
            Message::UnclosedString => "unclosed string literal"@,
            Message::StringInPpExpr => "string literal is not valid in preprocessor expressions"@,
            Message::FloatInPpExpr => "floating-point literal is not valid in preprocessor expressions"@,
            Message::InvalidFloat => "invalid floating-point literal"@,
            Message::InvalidInteger => "invalid integer literal"@,
            Message::InvalidString => "invalid string literal"@,
            Message::InvalidCharInLiteral => "invalid character in literal"@,
            Message::InvalidEscape => "invalid escape sequence"@,
            Message::InvalidChar => "invalid char literal"@,
            Message::EmptyChar => "empty char constant"@,
            Message::MultiChar => "multi-character char constant"@,
            Message::OctalOutOfRange => "octal escape sequence out of range"@,
            Message::InvalidHexEscape => "invalid hex escape sequence"@,
            Message::HexOutOfRange => "hex escape sequence out of range"@,
            Message::IncompleteUniversalName => "incomplete universal character name"@,
            Message::InvalidUniversalName => "invalid universal character name"@,
            Message::UnknownEscape => "unknown escape sequence"@,
            Message::UnterminatedMacroCall => "unterminated macro call"@,
            Message::HashNotParam => "'#' is not followed by a macro parameter"@,
            Message::PasteAtStart => "'##' cannot appear at start of macro expansion"@,
            Message::PasteAtEnd => "'##' cannot appear at end of macro expansion"@,
            Message::RedefinitionOfMacro => "redefinition of macro"@,
            Message::InvalidDirective => "invalid preprocessor directive"@,
            Message::BareInclude => "bare #include without a filename"@,
            Message::ExpectedFilename => "expected a filename"@,
            Message::ExtraAfterInclude => "extra tokens after #include"@,
            Message::EmptyFilename => "empty filename"@,
            Message::FileNotFound => "file not found"@,
            Message::MacroNameNotIdent => "macro names must be identifiers"@,
            Message::ExtraAfterUndef => "extra tokens after #undef"@,
            Message::ExtraAfterIfdef => "extra tokens after #ifdef"@,
            Message::ExtraAfterIfndef => "extra tokens after #ifndef"@,
            Message::ExtraAfterElse => "extra tokens after #else"@,
            Message::ExtraAfterEndif => "extra tokens after #endif"@,
            Message::IdentAfterDefined => "expected an identifier after 'defined'"@,
            Message::RParenAfterDefined => "missing ')' after 'defined'"@,
            Message::BareIf => "bare #if without an expression"@,
            Message::BareElif => "bare #elif without an expression"@,
            Message::ElifWithoutIf => "#elif without #if"@,
            Message::ElifAfterElse => "#elif after #else"@,
            Message::ElseWithoutIf => "#else without #if"@,
            Message::ElseAfterElse => "#else after #else"@,
            Message::EndifWithoutIf => "#endif without #if"@,
            Message::NoNameInDefine => "no macro name given in #define"@,
            Message::NoNameInUndef => "no macro name given in #undef"@,
            Message::NoNameInIfdef => "no macro name given in #ifdef"@,
            Message::NoNameInIfndef => "no macro name given in #ifndef"@,
            Message::UnterminatedIf => "unterminated #if"@,
            Message::UnterminatedIfdef => "unterminated #ifdef"@,
            Message::UnterminatedIfndef => "unterminated #ifndef"@,
            Message::ExpectedWhile => "expected 'while'"@,
            Message::RedefinitionOfTag(true) => "redefinition of struct tag"@,
            Message::RedefinitionOfTag(false) => "redefinition of union tag"@,
            Message::TooFewArgs(_) => "too few arguments for macro call (expected "@,
            Message::TooManyArgs(_) => "too many arguments for macro call (expected "@,
            Message::PasteInvalid(_, _) => "pasting formed an invalid preprocessing token: '"@,
            Message::PasteMultiple(_) => "pasting formed multiple preprocessing tokens: '"@,
            Message::Text(_) => ""@,
            Message::ExpectedPunct(_) => "expected '"@,
            Message::StorageClassNotAllowed(
                _,
            ) => "storage class specifier is not allowed in "@,
            Message::NoreturnNotAllowed(_) => "'_Noreturn' is not allowed in "@,
            Message::AlignasNotAllowed(_) => "'_Alignas' is not allowed in "@,
        }
    }

    /// The words of the message.
    pub open spec fn spec_text(self) -> Seq<char> {
        match self {
            Message::ExpectedPunct(punct) => self.fixed_text() + punct.spec_text() + "'"@,
            Message::StorageClassNotAllowed(context)
            | Message::NoreturnNotAllowed(context)
            | Message::AlignasNotAllowed(context) => self.fixed_text() + context.spec_text(),
            _ => self.fixed_text(),
        }
    }

    fn fixed(self) -> (r: &'static str)
        ensures
            r@ == self.fixed_text(),
    {
        match self {
            Message::ExpectedIdent => "expected an identifier",
            Message::ExpectedRBrace => "expected '}'",
            Message::MultipleTypes => "multiple types in declaration specifiers",
            Message::MultipleStorageClasses => "multiple storage classes in declaration specifiers",
            Message::ConstOutOfRange => "constant expression is out of range",
            Message::MissingTypeSpecifier => "missing type specifier, defaults to 'int'",
            Message::ExpectedTypename => "expected a typename",
            Message::VoidMustBeOnly => "'void' must be the only parameter",
            Message::ParamNoreturn => "parameter declared '_Noreturn'",
            Message::ParamIncomplete => "parameter has incomplete type",
            Message::RedefinitionOfParam => "redefinition of parameter",
            Message::ArrayQualifiers => "'static' or qualifiers in non-parameter array declarator",
            Message::DuplicateStatic => "duplicate 'static' in array parameter declarator",
            Message::StaticWithoutBound => "array parameter declared 'static' but bound is missing",
            Message::ArraySizeRange => "array size is negative or out of range",
            Message::ArrayElementIncomplete => "array element type is incomplete",
            Message::ArrayElementFunction => "array element type cannot be function",
            Message::TypeTooLarge => "size of type is too large",
            Message::WrongKindOfTag => "defined as wrong kind of tag",
            Message::FieldIncomplete => "field has incomplete type",
            Message::FlexibleInUnion => "flexible array member in union",
            Message::FlexibleNotAtEnd => "flexible array member not at end of struct",
            Message::FlexibleAlone => "flexible array member in a struct with no named members",
            Message::DeclaresNothing => "declaration does not declare anything",
            Message::ExpectedSemi => "expected ';'",
            Message::MissingMemberName => "missing member name",
            Message::ExpectedCommaOrSemi => "expected ',' or ';'",
            Message::UnknownEnum => "unknown enum type",
            Message::NotAnEnumTag => "not an enum tag",
            Message::RedeclarationOfEnumTag => "redeclaration of enum tag",
            Message::RedeclarationOfEnumerator => "redeclaration of enumerator",
            Message::DifferentKindOfSymbol => "redeclared as a different kind of symbol",
            Message::MissingFunctionName => "missing function name",
            Message::ExpectedFunction => "expected a function",
            Message::RedefinitionOfFunction => "redefinition of function",
            Message::UselessTypeName => "useless type name in empty declaration",
            Message::MissingVariableName => "missing variable name",
            Message::VariableNoreturn => "variable declared '_Noreturn'",
            Message::ExpectedGlobalVariable => "expected a global variable",
            Message::VariableIncomplete => "variable has incomplete type",
            Message::ReturnWithoutValue => "return with no value in a non-void function",
            Message::ReturnWithValue => "return with a value in a void function",
            Message::SwitchNotInteger => "switch condition is not an integer",
            Message::CaseOutsideSwitch => "case label not within a switch",
            Message::DuplicateCase => "duplicate case value",
            Message::MultipleDefaults => "multiple default labels in one switch",
            Message::DefaultOutsideSwitch => "default label not within a switch",
            Message::BreakOutsideLoop => "break statement not within a loop or switch",
            Message::ContinueOutsideLoop => "continue statement not within a loop",
            Message::MissingDeclaratorName => "missing declarator name",
            Message::NoLinkageAfterExtern => "declaration with no linkage follows extern declaration",
            Message::RedefinitionOfLocal => "redefinition of local variable",
            Message::FunctionInitialized => "function declaration cannot be initialized",
            Message::InvalidFunctionStorage => "invalid storage class specifier in function declaration",
            Message::ExternInitialized => "extern declaration cannot be initialized",
            Message::StringTooLong => "initializer string is too long",
            Message::ExcessArrayElements => "excess elements in array initializer",
            Message::InitFlexible => "cannot initialize a flexible array member",
            Message::ExcessStructElements => "excess elements in struct initializer",
            Message::StmtExprInPreprocessor => "statement expression is not valid in preprocessor expressions",
            Message::SizeofIncomplete => "cannot apply 'sizeof' to incomplete type",
            Message::AlignofIncomplete => "cannot apply '_Alignof' to incomplete type",
            Message::ImplicitFunction => "implicit declaration of a function",
            Message::UndefinedIdent => "undefined identifier",
            Message::StringInPreprocessor => "string literal is not valid in preprocessor expressions",
            Message::FloatInPreprocessor => "floating-point constant is not valid in preprocessor expressions",
            Message::ExpectedExpression => "expected an expression",
            Message::NotAFunction => "not a function",
            Message::AggregateByValue => "passing struct or union by value is not supported yet",
            Message::TooManyArguments => "too many arguments",
            Message::TooFewArguments => "too few arguments",
            Message::TypedefNoreturn => "typedef declared '_Noreturn'",
            Message::MissingTypedefName => "missing typedef name",
            Message::ConflictingTypes => "conflicting types",
            Message::ExtraneousTokens => "extraneous tokens",
            Message::MissingParamName => "missing parameter name",
            Message::ExternAfterNoLinkage => "extern declaration follows declaration with no linkage",
            Message::NonStaticAfterStatic => "non-static declaration follows static declaration",
            Message::StaticAfterNonStatic => "static declaration follows non-static declaration",
            Message::RedefinitionOfGlobal => "redefinition of global variable",
            Message::InvalidOperands => "invalid operands",
            Message::MemberOfIncomplete => "request for member in an incomplete type",
            Message::MemberOfNonAggregate => "request for member in something that is not a struct or union",
            Message::NotAnIdent => "not an ident",
            Message::NoSuchMember => "no such member",
            Message::NotConstant => "not a compile-time constant",
            Message::InvalidInitializer => "invalid initializer",
            Message::CompoundLiteralIncomplete => "compound literal has incomplete type",
            Message::InvalidDeref => "invalid pointer dereference",
            Message::DerefVoid => "dereferencing a void pointer",
            Message::InvalidOperandType => "invalid operand type",
            Message::NotAnLvalue => "not an lvalue",
            Message::VoidStmtExpr => "statement expression returning void is not supported",
            Message::DuplicateLabel => "duplicate label",
            Message::UndeclaredLabel => "use of undeclared label",
            Message::DivisionByZero => "division by zero",
            Message::VoidLvalue => "invalid use of void expression as lvalue",
            Message::InvalidFloatOperator => "invalid operator for floating-point operands",
            Message::InvalidToken => "invalid token",
            Message::UnclosedComment => "unclosed block comment",
            Message::UnclosedChar => "unclosed char literal",
            Message::UnclosedString => "unclosed string literal",
            Message::StringInPpExpr => "string literal is not valid in preprocessor expressions",
            Message::FloatInPpExpr => "floating-point literal is not valid in preprocessor expressions",
            Message::InvalidFloat => "invalid floating-point literal",
            Message::InvalidInteger => "invalid integer literal",
            Message::InvalidString => "invalid string literal",
            Message::InvalidCharInLiteral => "invalid character in literal",
            Message::InvalidEscape => "invalid escape sequence",
            Message::InvalidChar => "invalid char literal",
            Message::EmptyChar => "empty char constant",
            Message::MultiChar => "multi-character char constant",
            Message::OctalOutOfRange => "octal escape sequence out of range",
            Message::InvalidHexEscape => "invalid hex escape sequence",
            Message::HexOutOfRange => "hex escape sequence out of range",
            Message::IncompleteUniversalName => "incomplete universal character name",
            Message::InvalidUniversalName => "invalid universal character name",
            Message::UnknownEscape => "unknown escape sequence",
            Message::UnterminatedMacroCall => "unterminated macro call",
            Message::HashNotParam => "'#' is not followed by a macro parameter",
            Message::PasteAtStart => "'##' cannot appear at start of macro expansion",
            Message::PasteAtEnd => "'##' cannot appear at end of macro expansion",
            Message::RedefinitionOfMacro => "redefinition of macro",
            Message::InvalidDirective => "invalid preprocessor directive",
            Message::BareInclude => "bare #include without a filename",
            Message::ExpectedFilename => "expected a filename",
            Message::ExtraAfterInclude => "extra tokens after #include",
            Message::EmptyFilename => "empty filename",
            Message::FileNotFound => "file not found",
            Message::MacroNameNotIdent => "macro names must be identifiers",
            Message::ExtraAfterUndef => "extra tokens after #undef",
            Message::ExtraAfterIfdef => "extra tokens after #ifdef",
            Message::ExtraAfterIfndef => "extra tokens after #ifndef",
            Message::ExtraAfterElse => "extra tokens after #else",
            Message::ExtraAfterEndif => "extra tokens after #endif",
            Message::IdentAfterDefined => "expected an identifier after 'defined'",
            Message::RParenAfterDefined => "missing ')' after 'defined'",
            Message::BareIf => "bare #if without an expression",
            Message::BareElif => "bare #elif without an expression",
            Message::ElifWithoutIf => "#elif without #if",
            Message::ElifAfterElse => "#elif after #else",
            Message::ElseWithoutIf => "#else without #if",
            Message::ElseAfterElse => "#else after #else",
            Message::EndifWithoutIf => "#endif without #if",
            Message::NoNameInDefine => "no macro name given in #define",
            Message::NoNameInUndef => "no macro name given in #undef",
            Message::NoNameInIfdef => "no macro name given in #ifdef",
            Message::NoNameInIfndef => "no macro name given in #ifndef",
            Message::UnterminatedIf => "unterminated #if",
            Message::UnterminatedIfdef => "unterminated #ifdef",
            Message::UnterminatedIfndef => "unterminated #ifndef",
            Message::ExpectedWhile => "expected 'while'",
            Message::RedefinitionOfTag(true) => "redefinition of struct tag",
            Message::RedefinitionOfTag(false) => "redefinition of union tag",
            Message::TooFewArgs(_) => "too few arguments for macro call (expected ",
            Message::TooManyArgs(_) => "too many arguments for macro call (expected ",
            Message::PasteInvalid(_, _) => "pasting formed an invalid preprocessing token: '",
            Message::PasteMultiple(_) => "pasting formed multiple preprocessing tokens: '",
            Message::Text(_) => "",
            Message::ExpectedPunct(_) => "expected '",
            Message::StorageClassNotAllowed(_) => "storage class specifier is not allowed in ",
            Message::NoreturnNotAllowed(_) => "'_Noreturn' is not allowed in ",
            Message::AlignasNotAllowed(_) => "'_Alignas' is not allowed in ",
        }
    }

    /// Return the words of the message.
    pub fn text(self) -> (r: String)
        ensures
            r@ == self.spec_text(),
    {
        let mut out = String::from_str(self.fixed());
        match self {
            Message::ExpectedPunct(punct) => {
                let text = punct.text();
                out.append(text.as_str());
                out.append("'");
            },
            Message::StorageClassNotAllowed(context)
            | Message::NoreturnNotAllowed(context)
            | Message::AlignasNotAllowed(context) => {
                out.append(context.text());
            },
            _ => {},
        }
        out
    }
}

/// A spelling by its index; empty if there is none.
pub open spec fn spelling_at(spellings: Seq<Seq<u8>>, k: usize) -> Seq<u8> {
    if k < spellings.len() {
        spellings[k as int]
    } else {
        Seq::empty()
    }
}

/// The name of a source; empty if there is none.
pub open spec fn source_name(sources: Seq<SourceView>, id: usize) -> Seq<u8> {
    if id < sources.len() {
        vstd::utf8::encode_utf8(sources[id as int].name)
    } else {
        Seq::empty()
    }
}

/// A message with what it says of spellings and sources.
#[verifier::opaque]
pub open spec fn message_text(
    message: Message,
    spellings: Seq<Seq<u8>>,
    sources: Seq<SourceView>,
) -> Seq<u8> {
    let words = vstd::utf8::encode_utf8(message.spec_text());
    match message {
        Message::TooFewArgs(n) | Message::TooManyArgs(n) => words + digits(n as nat)
            + vstd::utf8::encode_utf8(")"@),
        Message::PasteInvalid(k, id) => words + spelling_at(spellings, k)
            + vstd::utf8::encode_utf8("'; see "@) + source_name(sources, id)
            + vstd::utf8::encode_utf8(" for more details"@),
        Message::PasteMultiple(k) => words + spelling_at(spellings, k) + vstd::utf8::encode_utf8(
            "'"@,
        ),
        Message::Text(k) => spelling_at(spellings, k),
        _ => words,
    }
}

fn push_spelling(out: &mut Vec<u8>, spellings: &Vec<Vec<u8>>, k: usize)
    ensures
        final(out)@ == old(out)@ + spelling_at(name_views(spellings@), k),
{
    if k < spellings.len() {
        push_bytes(out, spellings[k].as_slice());
    } else {
        assert(out@ + Seq::<u8>::empty() =~= out@);
    }
}

fn push_source_name(out: &mut Vec<u8>, source_map: &SourceMap, id: usize)
    ensures
        final(out)@ == old(out)@ + source_name(source_map@, id),
{
    if id < source_map.sources.len() {
        assert(source_map@[id as int].name == source_map.sources@[id as int].name@);
        push_bytes(out, source_map.sources[id].name.as_str().as_bytes());
    } else {
        assert(out@ + Seq::<u8>::empty() =~= out@);
    }
}

impl Message {
    /// Return the message with what it says of spellings and sources.
    pub fn render(self, spellings: &Vec<Vec<u8>>, source_map: &SourceMap) -> (r: Vec<u8>)
        ensures
            r@ == message_text(self, name_views(spellings@), source_map@),
    {
        proof {
            reveal(message_text);
        }
        let words = self.text();
        let mut out = copy_bytes(words.as_str().as_bytes());
        match self {
            Message::TooFewArgs(n) | Message::TooManyArgs(n) => {
                push_digits(&mut out, n as u128);
                push_bytes(&mut out, ")".as_bytes());
            },
            Message::PasteInvalid(k, id) => {
                push_spelling(&mut out, spellings, k);
                push_bytes(&mut out, "'; see ".as_bytes());
                push_source_name(&mut out, source_map, id);
                push_bytes(&mut out, " for more details".as_bytes());
            },
            Message::PasteMultiple(k) => {
                push_spelling(&mut out, spellings, k);
                push_bytes(&mut out, "'".as_bytes());
            },
            Message::Text(k) => {
                let mut text: Vec<u8> = Vec::new();
                push_spelling(&mut text, spellings, k);
                assert(text@ =~= spelling_at(name_views(spellings@), k));
                return text;
            },
            _ => {},
        }
        out
    }
}

impl DiagnosticLevel {
    /// The name of the level.
    pub open spec fn spec_text(self) -> Seq<char> {
        match self {
            DiagnosticLevel::Warning => "warning"@,
            DiagnosticLevel::Error => "error"@,
        }
    }

    /// Return the name of the level.
    pub fn text(self) -> (r: &'static str)
        ensures
            r@ == self.spec_text(),
    {
        match self {
            DiagnosticLevel::Warning => "warning",
            DiagnosticLevel::Error => "error",
        }
    }
}

/// A byte a number of times.
pub open spec fn repeated(byte: u8, n: int) -> Seq<u8> {
    Seq::new(
        if n > 0 {
            n as nat
        } else {
            0
        },
        |k: int| byte,
    )
}

fn push_repeated(out: &mut Vec<u8>, byte: u8, n: u64)
    ensures
        final(out)@ == old(out)@ + repeated(byte, n as int),
{
    let mut k: u64 = 0;
    assert(out@ =~= old(out)@ + repeated(byte, 0));
    while k < n
        invariant
            k <= n,
            out@ == old(out)@ + repeated(byte, k as int),
        decreases n - k,
    {
        out.push(byte);
        k += 1;
        assert(out@ =~= old(out)@ + repeated(byte, k as int));
    }
}

impl Diagnostic {
    /// How a diagnostic is shown: where it is and what it says, then the line of
    /// the source, then a mark below the span.
    pub open spec fn spec_render(&self) -> Seq<u8> {
        vstd::utf8::encode_utf8(self.file@) + vstd::utf8::encode_utf8(":"@) + digits(
            self.line_no as nat,
        ) + vstd::utf8::encode_utf8(":"@) + digits(self.col_no as nat) + vstd::utf8::encode_utf8(
            ": "@,
        ) + vstd::utf8::encode_utf8(self.level.spec_text()) + vstd::utf8::encode_utf8(": "@)
            + self.message@ + vstd::utf8::encode_utf8("\n"@) + self.line@
            + vstd::utf8::encode_utf8("\n"@) + repeated(32, self.col_no - 1)
            + vstd::utf8::encode_utf8("^"@) + repeated(126, self.span_len - 1)
    }

    /// Return how the diagnostic is shown.
    pub fn render(&self) -> (r: Vec<u8>)
        ensures
            r@ == self.spec_render(),
    {
        let mut out = copy_bytes(self.file.as_str().as_bytes());
        push_bytes(&mut out, ":".as_bytes());
        push_digits(&mut out, self.line_no as u128);
        push_bytes(&mut out, ":".as_bytes());
        push_digits(&mut out, self.col_no as u128);
        push_bytes(&mut out, ": ".as_bytes());
        push_bytes(&mut out, self.level.text().as_bytes());
        push_bytes(&mut out, ": ".as_bytes());
        push_bytes(&mut out, self.message.as_slice());
        push_bytes(&mut out, "\n".as_bytes());
        push_bytes(&mut out, self.line.as_slice());
        push_bytes(&mut out, "\n".as_bytes());
        let before: u64 = if self.col_no > 0 {
            self.col_no - 1
        } else {
            0
        };
        push_repeated(&mut out, 32, before);
        push_bytes(&mut out, "^".as_bytes());
        let after: usize = if self.span_len > 0 {
            self.span_len - 1
        } else {
            0
        };
        push_repeated(&mut out, 126, after as u64);
        assert(repeated(32, before as int) =~= repeated(32, self.col_no - 1));
        assert(repeated(126, after as int) =~= repeated(126, self.span_len - 1));
        out
    }
}

} // verus!
