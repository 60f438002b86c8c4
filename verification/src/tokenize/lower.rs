//! Lower preprocessor tokens into the tokens of the C programming language.

use vstd::prelude::*;
use crate::ascii;
use crate::error::{Error, Message, Warning};
use crate::names::{name_views, same_bytes, Names};
use crate::source::{copy_bytes, span_text, SourceMap, SourceSpan, SourceView};
use crate::tokenize::{Keyword, PreToken, PreTokenKind, Token, TokenKind};
use crate::tokenize::scan::{char_at, decode_char};
use crate::types::{ArithType, Type};

verus! {

/// Whether bytes spell a text.
pub open spec fn spells(bytes: Seq<u8>, text: Seq<char>) -> bool {
    bytes == vstd::utf8::encode_utf8(text)
}

#[verifier::opaque]
pub open spec fn keyword_0(text: Seq<u8>) -> Option<Keyword> {
    if spells(text, "return"@) {
        Some(Keyword::Return)
    } else if spells(text, "if"@) {
        Some(Keyword::If)
    } else if spells(text, "else"@) {
        Some(Keyword::Else)
    } else if spells(text, "for"@) {
        Some(Keyword::For)
    } else if spells(text, "while"@) {
        Some(Keyword::While)
    } else if spells(text, "do"@) {
        Some(Keyword::Do)
    } else if spells(text, "goto"@) {
        Some(Keyword::Goto)
    } else if spells(text, "break"@) {
        Some(Keyword::Break)
    } else {
        None
    }
}

fn find_keyword_0(text: &[u8]) -> (r: Option<Keyword>)
    ensures
        r == keyword_0(text@),
{
    proof {
        reveal(keyword_0);
    }
    if same_bytes(text, "return".as_bytes()) {
        Some(Keyword::Return)
    } else if same_bytes(text, "if".as_bytes()) {
        Some(Keyword::If)
    } else if same_bytes(text, "else".as_bytes()) {
        Some(Keyword::Else)
    } else if same_bytes(text, "for".as_bytes()) {
        Some(Keyword::For)
    } else if same_bytes(text, "while".as_bytes()) {
        Some(Keyword::While)
    } else if same_bytes(text, "do".as_bytes()) {
        Some(Keyword::Do)
    } else if same_bytes(text, "goto".as_bytes()) {
        Some(Keyword::Goto)
    } else if same_bytes(text, "break".as_bytes()) {
        Some(Keyword::Break)
    } else {
        None
    }
}

#[verifier::opaque]
pub open spec fn keyword_1(text: Seq<u8>) -> Option<Keyword> {
    if spells(text, "continue"@) {
        Some(Keyword::Continue)
    } else if spells(text, "switch"@) {
        Some(Keyword::Switch)
    } else if spells(text, "case"@) {
        Some(Keyword::Case)
    } else if spells(text, "default"@) {
        Some(Keyword::Default)
    } else if spells(text, "void"@) {
        Some(Keyword::Void)
    } else if spells(text, "_Bool"@) {
        Some(Keyword::Bool)
    } else if spells(text, "char"@) {
        Some(Keyword::Char)
    } else if spells(text, "short"@) {
        Some(Keyword::Short)
    } else {
        None
    }
}

fn find_keyword_1(text: &[u8]) -> (r: Option<Keyword>)
    ensures
        r == keyword_1(text@),
{
    proof {
        reveal(keyword_1);
    }
    if same_bytes(text, "continue".as_bytes()) {
        Some(Keyword::Continue)
    } else if same_bytes(text, "switch".as_bytes()) {
        Some(Keyword::Switch)
    } else if same_bytes(text, "case".as_bytes()) {
        Some(Keyword::Case)
    } else if same_bytes(text, "default".as_bytes()) {
        Some(Keyword::Default)
    } else if same_bytes(text, "void".as_bytes()) {
        Some(Keyword::Void)
    } else if same_bytes(text, "_Bool".as_bytes()) {
        Some(Keyword::Bool)
    } else if same_bytes(text, "char".as_bytes()) {
        Some(Keyword::Char)
    } else if same_bytes(text, "short".as_bytes()) {
        Some(Keyword::Short)
    } else {
        None
    }
}

#[verifier::opaque]
pub open spec fn keyword_2(text: Seq<u8>) -> Option<Keyword> {
    if spells(text, "int"@) {
        Some(Keyword::Int)
    } else if spells(text, "long"@) {
        Some(Keyword::Long)
    } else if spells(text, "float"@) {
        Some(Keyword::Float)
    } else if spells(text, "double"@) {
        Some(Keyword::Double)
    } else if spells(text, "signed"@) {
        Some(Keyword::Signed)
    } else if spells(text, "unsigned"@) {
        Some(Keyword::Unsigned)
    } else if spells(text, "sizeof"@) {
        Some(Keyword::Sizeof)
    } else if spells(text, "struct"@) {
        Some(Keyword::Struct)
    } else {
        None
    }
}

fn find_keyword_2(text: &[u8]) -> (r: Option<Keyword>)
    ensures
        r == keyword_2(text@),
{
    proof {
        reveal(keyword_2);
    }
    if same_bytes(text, "int".as_bytes()) {
        Some(Keyword::Int)
    } else if same_bytes(text, "long".as_bytes()) {
        Some(Keyword::Long)
    } else if same_bytes(text, "float".as_bytes()) {
        Some(Keyword::Float)
    } else if same_bytes(text, "double".as_bytes()) {
        Some(Keyword::Double)
    } else if same_bytes(text, "signed".as_bytes()) {
        Some(Keyword::Signed)
    } else if same_bytes(text, "unsigned".as_bytes()) {
        Some(Keyword::Unsigned)
    } else if same_bytes(text, "sizeof".as_bytes()) {
        Some(Keyword::Sizeof)
    } else if same_bytes(text, "struct".as_bytes()) {
        Some(Keyword::Struct)
    } else {
        None
    }
}

#[verifier::opaque]
pub open spec fn keyword_3(text: Seq<u8>) -> Option<Keyword> {
    if spells(text, "union"@) {
        Some(Keyword::Union)
    } else if spells(text, "enum"@) {
        Some(Keyword::Enum)
    } else if spells(text, "const"@) {
        Some(Keyword::Const)
    } else if spells(text, "volatile"@) {
        Some(Keyword::Volatile)
    } else if spells(text, "typedef"@) {
        Some(Keyword::Typedef)
    } else if spells(text, "static"@) {
        Some(Keyword::Static)
    } else if spells(text, "extern"@) {
        Some(Keyword::Extern)
    } else if spells(text, "auto"@) {
        Some(Keyword::Auto)
    } else {
        None
    }
}

fn find_keyword_3(text: &[u8]) -> (r: Option<Keyword>)
    ensures
        r == keyword_3(text@),
{
    proof {
        reveal(keyword_3);
    }
    if same_bytes(text, "union".as_bytes()) {
        Some(Keyword::Union)
    } else if same_bytes(text, "enum".as_bytes()) {
        Some(Keyword::Enum)
    } else if same_bytes(text, "const".as_bytes()) {
        Some(Keyword::Const)
    } else if same_bytes(text, "volatile".as_bytes()) {
        Some(Keyword::Volatile)
    } else if same_bytes(text, "typedef".as_bytes()) {
        Some(Keyword::Typedef)
    } else if same_bytes(text, "static".as_bytes()) {
        Some(Keyword::Static)
    } else if same_bytes(text, "extern".as_bytes()) {
        Some(Keyword::Extern)
    } else if same_bytes(text, "auto".as_bytes()) {
        Some(Keyword::Auto)
    } else {
        None
    }
}

#[verifier::opaque]
pub open spec fn keyword_4(text: Seq<u8>) -> Option<Keyword> {
    if spells(text, "register"@) {
        Some(Keyword::Register)
    } else if spells(text, "restrict"@) {
        Some(Keyword::Restrict)
    } else if spells(text, "__restrict"@) {
        Some(Keyword::Restrict)
    } else if spells(text, "__restrict__"@) {
        Some(Keyword::Restrict)
    } else if spells(text, "_Noreturn"@) {
        Some(Keyword::Noreturn)
    } else if spells(text, "_Alignof"@) {
        Some(Keyword::Alignof)
    } else if spells(text, "_Alignas"@) {
        Some(Keyword::Alignas)
    } else {
        None
    }
}

fn find_keyword_4(text: &[u8]) -> (r: Option<Keyword>)
    ensures
        r == keyword_4(text@),
{
    proof {
        reveal(keyword_4);
    }
    if same_bytes(text, "register".as_bytes()) {
        Some(Keyword::Register)
    } else if same_bytes(text, "restrict".as_bytes()) {
        Some(Keyword::Restrict)
    } else if same_bytes(text, "__restrict".as_bytes()) {
        Some(Keyword::Restrict)
    } else if same_bytes(text, "__restrict__".as_bytes()) {
        Some(Keyword::Restrict)
    } else if same_bytes(text, "_Noreturn".as_bytes()) {
        Some(Keyword::Noreturn)
    } else if same_bytes(text, "_Alignof".as_bytes()) {
        Some(Keyword::Alignof)
    } else if same_bytes(text, "_Alignas".as_bytes()) {
        Some(Keyword::Alignas)
    } else {
        None
    }
}

/// The keyword that is spelled so.
pub open spec fn keyword_spelled(text: Seq<u8>) -> Option<Keyword> {
    match keyword_0(text) {
        Some(keyword) => Some(keyword),
        None => match keyword_1(text) {
            Some(keyword) => Some(keyword),
            None => match keyword_2(text) {
                Some(keyword) => Some(keyword),
                None => match keyword_3(text) {
                    Some(keyword) => Some(keyword),
                    None => keyword_4(text),
                },
            },
        },
    }
}

/// Return the keyword that is spelled so, if any.
pub fn find_keyword(text: &[u8]) -> (r: Option<Keyword>)
    ensures
        r == keyword_spelled(text@),
{
    match find_keyword_0(text) {
        Some(keyword) => Some(keyword),
        None => match find_keyword_1(text) {
            Some(keyword) => Some(keyword),
            None => match find_keyword_2(text) {
                Some(keyword) => Some(keyword),
                None => match find_keyword_3(text) {
                    Some(keyword) => Some(keyword),
                    None => find_keyword_4(text),
                },
            },
        },
    }
}

/// A floating-point literal: its digits without suffix, and the value if the
/// digits are valid, given by its bits.
pub struct FloatLiteral {
    pub is_hex: bool,
    pub body: Vec<u8>,
    pub value: Option<u64>,
}

/// The mathematical form of [`FloatLiteral`].
pub struct FloatLiteralView {
    pub is_hex: bool,
    pub body: Seq<u8>,
    pub value: Option<u64>,
}

impl FloatLiteral {
    pub open spec fn view(&self) -> FloatLiteralView {
        FloatLiteralView { is_hex: self.is_hex, body: self.body@, value: self.value }
    }
}

/// The floating-point literals whose values are known.
pub struct FloatLiterals {
    pub entries: Vec<FloatLiteral>,
}

/// The value of a literal by the first entry for it from `k` on.
pub open spec fn literal_value(
    entries: Seq<FloatLiteralView>,
    is_hex: bool,
    body: Seq<u8>,
    k: int,
) -> Option<Option<u64>>
    decreases entries.len() - k,
{
    if k >= entries.len() {
        None
    } else if entries[k].is_hex == is_hex && entries[k].body == body {
        Some(entries[k].value)
    } else {
        literal_value(entries, is_hex, body, k + 1)
    }
}

impl FloatLiterals {
    pub open spec fn view(&self) -> Seq<FloatLiteralView> {
        Seq::new(self.entries@.len(), |k: int| self.entries@[k]@)
    }

    /// No known literal.
    pub fn new() -> (r: FloatLiterals)
        ensures
            r@ == Seq::<FloatLiteralView>::empty(),
    {
        let r = FloatLiterals { entries: Vec::new() };
        assert(r@ =~= Seq::<FloatLiteralView>::empty());
        r
    }

    /// Add the value of a literal.
    pub fn push(&mut self, literal: FloatLiteral)
        ensures
            final(self)@ == old(self)@.push(literal@),
    {
        self.entries.push(literal);
        assert(self@ =~= old(self)@.push(literal@));
    }

    /// Return the value of a literal, if it is known.
    pub fn find(&self, is_hex: bool, body: &[u8]) -> (r: Option<Option<u64>>)
        ensures
            r == literal_value(self@, is_hex, body@, 0),
    {
        let mut k: usize = 0;
        while k < self.entries.len()
            invariant
                k <= self.entries.len(),
                literal_value(self@, is_hex, body@, 0) == literal_value(
                    self@,
                    is_hex,
                    body@,
                    k as int,
                ),
            decreases self.entries.len() - k,
        {
            let entry = &self.entries[k];
            assert(self@[k as int] == entry@);
            if entry.is_hex == is_hex && same_bytes(entry.body.as_slice(), body) {
                return Some(entry.value);
            }
            k += 1;
        }
        None
    }
}

/// What lowering leaves behind besides the token.
pub struct LowerState {
    pub strings: Seq<Seq<u32>>,
    pub warnings: Seq<Warning>,
}

/// The content of the string literals that tokens refer to, and the warnings
/// that came up while lowering.
pub struct Lowered {
    pub strings: Vec<Vec<u32>>,
    pub warnings: Vec<Warning>,
}

impl Lowered {
    pub open spec fn view(&self) -> LowerState {
        LowerState {
            strings: crate::parse::state::string_views(self.strings@),
            warnings: self.warnings@,
        }
    }

    /// Nothing lowered yet.
    pub fn new() -> (r: Lowered)
        ensures
            r@ == (LowerState { strings: Seq::empty(), warnings: Seq::empty() }),
    {
        let r = Lowered { strings: Vec::new(), warnings: Vec::new() };
        assert(r@.strings =~= Seq::<Seq<u32>>::empty());
        assert(r@.warnings =~= Seq::<Warning>::empty());
        r
    }
}

/// The spelling of a preprocessor token.
pub open spec fn spelling_of(
    sources: Seq<SourceView>,
    spellings: Seq<Seq<u8>>,
    token: PreToken,
) -> Seq<u8> {
    match token.synthetic {
        Some(k) => if k < spellings.len() {
            spellings[k as int]
        } else {
            Seq::empty()
        },
        None => span_text(sources, token.span),
    }
}

/// A source span for a substring of a token; the whole token if it is
/// synthetic.
pub open spec fn span_at(token: PreToken, offset: int, len: int) -> SourceSpan {
    if token.synthetic is Some || token.span.offset + offset > usize::MAX {
        token.span
    } else {
        SourceSpan {
            id: token.span.id,
            offset: (token.span.offset + offset) as usize,
            len: len as usize,
        }
    }
}

fn part(token: PreToken, offset: usize, len: usize) -> (r: SourceSpan)
    ensures
        r == span_at(token, offset as int, len as int),
{
    if token.synthetic.is_some() {
        return token.span;
    }
    match token.span.offset.checked_add(offset) {
        Some(offset) => SourceSpan { id: token.span.id, offset, len },
        None => token.span,
    }
}

/// A byte of a spelling; 0 past its end.
pub open spec fn nth(bytes: Seq<u8>, i: int) -> u8 {
    if 0 <= i < bytes.len() {
        bytes[i]
    } else {
        0
    }
}

fn get(bytes: &[u8], i: usize) -> (r: u8)
    ensures
        r == nth(bytes@, i as int),
{
    if i < bytes.len() {
        bytes[i]
    } else {
        0
    }
}

/// Whether one of three bytes occurs from `from` on.
pub open spec fn any_of(bytes: Seq<u8>, from: int, a: u8, b: u8, c: u8) -> bool {
    exists|k: int|
        from <= k < bytes.len() && (#[trigger] bytes[k] == a || bytes[k] == b || bytes[k] == c)
}

fn find_any(bytes: &[u8], from: usize, a: u8, b: u8, c: u8) -> (r: bool)
    ensures
        r == any_of(bytes@, from as int, a, b, c),
{
    let mut k: usize = from;
    while k < bytes.len()
        invariant
            from <= k,
            forall|j: int|
                from <= j < k && j < bytes@.len() ==> #[trigger] bytes@[j] != a && bytes@[j] != b
                    && bytes@[j] != c,
        decreases bytes.len() - k,
    {
        if bytes[k] == a || bytes[k] == b || bytes[k] == c {
            assert(bytes@[k as int] == a || bytes@[k as int] == b || bytes@[k as int] == c);
            return true;
        }
        k += 1;
    }
    false
}

/// Whether a number has the prefix of hexadecimal numbers.
pub open spec fn starts_hex(bytes: Seq<u8>) -> bool {
    nth(bytes, 0) == ascii::DIGIT_0 && (nth(bytes, 1) == ascii::LOWER_X || nth(bytes, 1) == ascii::UPPER_X)
}

/// Whether a number has the prefix of binary numbers.
pub open spec fn starts_binary(bytes: Seq<u8>) -> bool {
    nth(bytes, 0) == ascii::DIGIT_0 && (nth(bytes, 1) == ascii::LOWER_B || nth(bytes, 1) == ascii::UPPER_B)
}

/// Whether a number is a hexadecimal floating-point literal.
pub open spec fn is_hex_flonum(bytes: Seq<u8>) -> bool {
    starts_hex(bytes) && any_of(bytes, 2, ascii::DOT, ascii::LOWER_P, ascii::UPPER_P)
}

/// Whether a number is a decimal floating-point literal.
pub open spec fn is_dec_flonum(bytes: Seq<u8>) -> bool {
    !starts_hex(bytes) && !starts_binary(bytes) && any_of(
        bytes,
        0,
        ascii::DOT,
        ascii::LOWER_E,
        ascii::UPPER_E,
    )
}

/// The length of the suffix of a floating-point literal, and its type.
pub open spec fn float_suffix(bytes: Seq<u8>) -> (int, Type) {
    let last = nth(bytes, bytes.len() - 1);
    if last == ascii::LOWER_F || last == ascii::UPPER_F {
        (1, Type::Arith(ArithType::Float))
    } else if last == ascii::LOWER_L || last == ascii::UPPER_L {
        (1, Type::Arith(ArithType::Double))
    } else {
        (0, Type::Arith(ArithType::Double))
    }
}

/// The digits of a floating-point literal, if a number is one.
#[verifier::opaque]
pub open spec fn float_body(bytes: Seq<u8>) -> Option<(bool, Seq<u8>)> {
    if is_hex_flonum(bytes) || is_dec_flonum(bytes) {
        Some((is_hex_flonum(bytes), bytes.take(bytes.len() - float_suffix(bytes).0)))
    } else {
        None
    }
}

/// The radix of an integer literal, and where its digits start.
pub open spec fn radix_of(bytes: Seq<u8>) -> (int, int) {
    if starts_hex(bytes) {
        (16, 2)
    } else if starts_binary(bytes) {
        (2, 2)
    } else if nth(bytes, 0) == ascii::DIGIT_0 {
        (8, 0)
    } else {
        (10, 0)
    }
}

/// A letter of the suffix for long integers.
pub open spec fn is_l(b: u8) -> bool {
    b == ascii::LOWER_L || b == ascii::UPPER_L
}

/// A letter of the suffix for unsigned integers.
pub open spec fn is_u(b: u8) -> bool {
    b == ascii::LOWER_U || b == ascii::UPPER_U
}

/// The suffix of an integer literal.
pub struct IntSuffix {
    pub len: int,
    pub l: bool,
    pub u: bool,
}

/// The suffix of an integer literal whose digits start at `start`; both letters
/// of a suffix for long long integers are of the same case.
pub open spec fn int_suffix(bytes: Seq<u8>, start: int) -> IntSuffix {
    let n = bytes.len() - start;
    let z = nth(bytes, bytes.len() - 1);
    let y = nth(bytes, bytes.len() - 2);
    let x = nth(bytes, bytes.len() - 3);
    if n >= 3 && ((is_l(x) && x == y && is_u(z)) || (is_u(x) && y == z && is_l(z))) {
        IntSuffix { len: 3, l: true, u: true }
    } else if n >= 2 && ((is_l(y) && is_u(z)) || (is_u(y) && is_l(z))) {
        IntSuffix { len: 2, l: true, u: true }
    } else if n >= 2 && y == z && is_l(z) {
        IntSuffix { len: 2, l: true, u: false }
    } else if n >= 1 && is_l(z) {
        IntSuffix { len: 1, l: true, u: false }
    } else if n >= 1 && is_u(z) {
        IntSuffix { len: 1, l: false, u: true }
    } else {
        IntSuffix { len: 0, l: false, u: false }
    }
}

/// The value of a digit below 36.
pub open spec fn digit_value(b: u8) -> Option<int> {
    if ascii::DIGIT_0 <= b <= ascii::DIGIT_9 {
        Some(b - ascii::DIGIT_0)
    } else if ascii::LOWER_A <= b <= ascii::LOWER_Z {
        Some(b - ascii::LOWER_A + 10)
    } else if ascii::UPPER_A <= b <= ascii::UPPER_Z {
        Some(b - ascii::UPPER_A + 10)
    } else {
        None
    }
}

fn digit(b: u8, radix: u64) -> (r: Option<u64>)
    ensures
        r == (match digit_value(b) {
            Some(d) => if d < radix {
                Some(d as u64)
            } else {
                None
            },
            None => None,
        }),
        r is Some ==> r.unwrap() < 36,
{
    let d: u64 = if b >= ascii::DIGIT_0 && b <= ascii::DIGIT_9 {
        (b - ascii::DIGIT_0) as u64
    } else if b >= ascii::LOWER_A && b <= ascii::LOWER_Z {
        (b - ascii::LOWER_A) as u64 + 10
    } else if b >= ascii::UPPER_A && b <= ascii::UPPER_Z {
        (b - ascii::UPPER_A) as u64 + 10
    } else {
        return None;
    };
    if d < radix {
        Some(d)
    } else {
        None
    }
}

/// The number that the first `n` digits spell, if they are digits and the
/// number fits.
pub open spec fn number_spelled(digits: Seq<u8>, radix: int, n: nat) -> Option<u64>
    decreases n,
{
    if n == 0 {
        Some(0)
    } else {
        match (number_spelled(digits, radix, (n - 1) as nat), digit_value(nth(digits, n - 1))) {
            (Some(value), Some(d)) => if d < radix && value * radix + d <= u64::MAX {
                Some((value * radix + d) as u64)
            } else {
                None
            },
            _ => None,
        }
    }
}

/// The value of an unsigned integer in text: an optional plus sign and at
/// least one digit.
pub open spec fn integer_spelled(text: Seq<u8>, radix: int) -> Option<u64> {
    let digits = if text.len() > 0 && text[0] == ascii::PLUS {
        text.skip(1)
    } else {
        text
    };
    if digits.len() == 0 {
        None
    } else {
        number_spelled(digits, radix, digits.len())
    }
}

proof fn first_digits_decide(a: Seq<u8>, b: Seq<u8>, radix: int, n: nat)
    requires
        n <= a.len(),
        n <= b.len(),
        forall|i: int| 0 <= i < n ==> a[i] == b[i],
    ensures
        number_spelled(a, radix, n) == number_spelled(b, radix, n),
    decreases n,
{
    if n > 0 {
        first_digits_decide(a, b, radix, (n - 1) as nat);
        assert(a[n - 1] == b[n - 1]);
    }
}

/// A number that is written out in decimal is read back.
pub proof fn written_numbers_are_read_back(n: nat)
    requires
        n <= u64::MAX,
    ensures
        number_spelled(crate::utils::digits(n), 10, crate::utils::digits(n).len()) == Some(n as u64),
    decreases n,
{
    let text = crate::utils::digits(n);
    let d = n % 10;
    if n < 10 {
        reveal_with_fuel(number_spelled, 2);
        assert(nth(text, 0) == (48 + n) as u8);
    } else {
        let before = crate::utils::digits(n / 10);
        written_numbers_are_read_back(n / 10);
        first_digits_decide(before, text, 10, before.len());
        assert(nth(text, text.len() - 1) == (48 + d) as u8);
        assert((n / 10) * 10 + d == n);
    }
}

/// The radix of an integer literal follows from how it starts.
pub proof fn radix_follows_from_the_start(bytes: Seq<u8>)
    requires
        bytes.len() >= 2,
    ensures
        bytes[0] != 48 ==> radix_of(bytes) == (10int, 0int),
        bytes[0] == 48 && 48 <= bytes[1] <= 57 ==> radix_of(bytes) == (8int, 0int),
{
}

fn parse_digits(digits: &[u8], radix: u64) -> (r: Option<u64>)
    requires
        2 <= radix <= 36,
    ensures
        r == number_spelled(digits@, radix as int, digits@.len()),
{
    let mut acc: Option<u64> = Some(0);
    let mut n: usize = 0;
    while n < digits.len()
        invariant
            2 <= radix <= 36,
            n <= digits.len(),
            acc == number_spelled(digits@, radix as int, n as nat),
        decreases digits.len() - n,
    {
        let d = digit(digits[n], radix);
        acc = match (acc, d) {
            (Some(value), Some(d)) => {
                assert(0 <= value * radix <= 36 * u64::MAX) by (nonlinear_arith)
                    requires
                        0 <= value <= u64::MAX,
                        0 <= radix <= 36,
                ;
                let wide: u128 = value as u128 * radix as u128;
                let sum: u128 = wide + d as u128;
                if sum <= u64::MAX as u128 {
                    Some(sum as u64)
                } else {
                    None
                }
            },
            _ => None,
        };
        n += 1;
    }
    acc
}

fn parse_integer(text: &[u8], radix: u64) -> (r: Option<u64>)
    requires
        2 <= radix <= 36,
    ensures
        r == integer_spelled(text@, radix as int),
{
    let digits = if text.len() > 0 && text[0] == ascii::PLUS {
        vstd::slice::slice_subrange(text, 1, text.len())
    } else {
        text
    };
    if digits.len() == 0 {
        None
    } else {
        parse_digits(digits, radix)
    }
}

/// The type of an integer literal.
pub open spec fn integer_type(radix: int, l: bool, u: bool, value: u64) -> Type {
    if l && u {
        Type::Arith(ArithType::ULong)
    } else if l {
        if radix != 10 && value > i64::MAX {
            Type::Arith(ArithType::ULong)
        } else {
            Type::Arith(ArithType::Long)
        }
    } else if u {
        if value > u32::MAX {
            Type::Arith(ArithType::ULong)
        } else {
            Type::Arith(ArithType::UInt)
        }
    } else if radix == 10 {
        if value > i32::MAX {
            Type::Arith(ArithType::Long)
        } else {
            Type::Arith(ArithType::Int)
        }
    } else if value > i64::MAX {
        Type::Arith(ArithType::ULong)
    } else if value > u32::MAX {
        Type::Arith(ArithType::Long)
    } else if value > i32::MAX {
        Type::Arith(ArithType::UInt)
    } else {
        Type::Arith(ArithType::Int)
    }
}

/// An integer literal has a type that holds its value, and an unsigned one if it
/// says so. Decimal literals without "u" that no signed type holds are left out.
pub proof fn integer_literals_fit_their_type(radix: int, l: bool, u: bool, value: u64)
    requires
        radix != 10 || u || value <= i64::MAX,
    ensures
        match integer_type(radix, l, u, value) {
            Type::Arith(ArithType::Int) => !l && !u && value <= i32::MAX,
            Type::Arith(ArithType::UInt) => !l && value <= u32::MAX && (u || radix != 10),
            Type::Arith(ArithType::Long) => !u && value <= i64::MAX,
            Type::Arith(ArithType::ULong) => u || value > i64::MAX,
            _ => false,
        },
{
}

/// An integer literal.
#[verifier::opaque]
pub open spec fn lower_integer(bytes: Seq<u8>, span: SourceSpan) -> Result<TokenKind, Error> {
    let (radix, start) = radix_of(bytes);
    let suffix = int_suffix(bytes, start);
    match integer_spelled(bytes.subrange(start, bytes.len() - suffix.len), radix) {
        Some(value) => Ok(
            TokenKind::Num(value, integer_type(radix, suffix.l, suffix.u, value)),
        ),
        None => Err(Error::Terminate(span, Message::InvalidInteger)),
    }
}

/// A floating-point literal, given its digits.
#[verifier::opaque]
pub open spec fn lower_float(
    literals: Seq<FloatLiteralView>,
    bytes: Seq<u8>,
    is_hex: bool,
    body: Seq<u8>,
    span: SourceSpan,
) -> Result<TokenKind, Error> {
    match literal_value(literals, is_hex, body, 0) {
        None => Err(Error::NeedsLiteral(span)),
        Some(None) => Err(Error::Terminate(span, Message::InvalidFloat)),
        Some(Some(bits)) => Ok(TokenKind::Flonum(bits, float_suffix(bytes).1)),
    }
}

/// A numeric literal. In preprocessor expressions it must be an integer.
#[verifier::opaque]
pub open spec fn lower_number(
    literals: Seq<FloatLiteralView>,
    bytes: Seq<u8>,
    span: SourceSpan,
    for_pp_expr: bool,
) -> Result<TokenKind, Error> {
    match float_body(bytes) {
        Some((is_hex, body)) => if for_pp_expr {
            Err(Error::Terminate(span, Message::FloatInPpExpr))
        } else {
            lower_float(literals, bytes, is_hex, body, span)
        },
        None => lower_integer(bytes, span),
    }
}

/// A decoded escape sequence.
#[derive(Clone, Copy, Debug, PartialEq, Eq, Structural)]
pub enum EscapeSeq {
    Byte(u8),
    Num(u32),
    Codepoint(u32),
}

/// What an escape sequence stands for, how long it is without the backslash,
/// and the warnings by then.
pub struct Escape {
    pub seq: EscapeSeq,
    pub len: int,
    pub warnings: Seq<Warning>,
}

pub open spec fn is_octal(b: u8) -> bool {
    ascii::DIGIT_0 <= b <= ascii::DIGIT_7
}

pub open spec fn hex_value(b: u8) -> Option<int> {
    match digit_value(b) {
        Some(d) => if d < 16 {
            Some(d)
        } else {
            None
        },
        None => None,
    }
}

/// Up to three octal digits: their value and their number.
pub open spec fn octal_escape(bytes: Seq<u8>, start: int, end: int) -> (int, int) {
    let a = nth(bytes, start) - ascii::DIGIT_0;
    let b = nth(bytes, start + 1);
    let c = nth(bytes, start + 2);
    if start + 1 < end && is_octal(b) {
        if start + 2 < end && is_octal(c) {
            (a * 64 + (b - ascii::DIGIT_0) * 8 + (c - ascii::DIGIT_0), 3)
        } else {
            (a * 8 + (b - ascii::DIGIT_0), 2)
        }
    } else {
        (a, 1)
    }
}

/// Hexadecimal digits from `pos` on: where they end, their value in 32 bits,
/// and whether it went out of the range of a byte.
pub open spec fn hex_escape(bytes: Seq<u8>, pos: int, end: int, value: u32, over: bool) -> (
    int,
    u32,
    bool,
)
    decreases end - pos,
{
    if pos < end && hex_value(nth(bytes, pos)) is Some {
        let d = hex_value(nth(bytes, pos)).unwrap();
        hex_escape(
            bytes,
            pos + 1,
            end,
            ((value * 16 + d) % 0x1_0000_0000) as u32,
            over || value > (255 - d) / 16,
        )
    } else {
        (pos, value, over)
    }
}

/// Up to `limit` hexadecimal digits from `pos` on: their number and value.
pub open spec fn name_digits(bytes: Seq<u8>, pos: int, limit: int, count: int, code: int) -> (
    int,
    int,
)
    decreases limit - count,
{
    if count < limit && pos < bytes.len() && hex_value(nth(bytes, pos)) is Some {
        name_digits(
            bytes,
            pos + 1,
            limit,
            count + 1,
            code * 16 + hex_value(nth(bytes, pos)).unwrap(),
        )
    } else {
        (count, code)
    }
}

/// Whether a number is the code of a character.
pub open spec fn is_code(code: int) -> bool {
    0 <= code < 0xd800 || 0xe000 <= code < 0x11_0000
}

/// A universal character name.
#[verifier::opaque]
pub open spec fn universal_escape(
    token: PreToken,
    bytes: Seq<u8>,
    start: int,
    warnings: Seq<Warning>,
) -> Result<Escape, Error> {
    let limit: int = if nth(bytes, start) == ascii::LOWER_U {
        4
    } else {
        8
    };
    let (count, code) = name_digits(bytes, start + 1, limit, 0, 0);
    if count != limit {
        Err(
            Error::Terminate(
                span_at(token, start, count + 1),
                Message::IncompleteUniversalName,
            ),
        )
    } else if !is_code(code) {
        Err(Error::Terminate(span_at(token, start, limit + 1), Message::InvalidUniversalName))
    } else {
        Ok(Escape { seq: EscapeSeq::Codepoint(code as u32), len: limit + 1, warnings })
    }
}

/// The warnings with one more, if it applies.
pub open spec fn warned_if(
    warnings: Seq<Warning>,
    applies: bool,
    span: SourceSpan,
    message: Message,
) -> Seq<Warning> {
    if applies {
        warnings.push(Warning { span, message })
    } else {
        warnings
    }
}

/// The letters behind a backslash stand for the control characters that they are
/// short for, and quotes, the backslash, and the question mark for themselves.
pub proof fn escapes_stand_for_control_characters(b: u8)
    ensures
        simple_escape(b) == (match b {
            97 => Some(7u8),
            98 => Some(8u8),
            116 => Some(9u8),
            110 => Some(10u8),
            118 => Some(11u8),
            102 => Some(12u8),
            114 => Some(13u8),
            101 => Some(27u8),
            34 => Some(34u8),
            39 => Some(39u8),
            92 => Some(92u8),
            63 => Some(63u8),
            _ => None,
        }),
{
}

/// What a single character after a backslash stands for, if it is known.
pub open spec fn simple_escape(b: u8) -> Option<u8> {
    if b == ascii::LOWER_A {
        Some(0x07)
    } else if b == ascii::LOWER_B {
        Some(0x08)
    } else if b == ascii::LOWER_T {
        Some(0x09)
    } else if b == ascii::LOWER_N {
        Some(0x0a)
    } else if b == ascii::LOWER_V {
        Some(0x0b)
    } else if b == ascii::LOWER_F {
        Some(0x0c)
    } else if b == ascii::LOWER_R {
        Some(0x0d)
    } else if b == ascii::LOWER_E {
        Some(0x1b)
    } else if b == ascii::DQUOTE || b == ascii::QUOTE || b == ascii::BACKSLASH || b == ascii::QUESTION {
        Some(b)
    } else {
        None
    }
}

/// The escape sequence whose backslash stands before `start`.
#[verifier::opaque]
pub open spec fn decode_escape(
    token: PreToken,
    bytes: Seq<u8>,
    start: int,
    end: int,
    check_byte_range: bool,
    warnings: Seq<Warning>,
) -> Result<Escape, Error> {
    let first = nth(bytes, start);
    if is_octal(first) {
        let (value, len) = octal_escape(bytes, start, end);
        Ok(
            Escape {
                seq: EscapeSeq::Num(value as u32),
                len,
                warnings: warned_if(
                    warnings,
                    check_byte_range && value > 255,
                    span_at(token, start, len),
                    Message::OctalOutOfRange,
                ),
            },
        )
    } else if first == ascii::LOWER_X {
        if start + 1 >= end || hex_value(nth(bytes, start + 1)) is None {
            Err(Error::Terminate(span_at(token, start + 1, 1), Message::InvalidHexEscape))
        } else {
            let (pos, value, over) = hex_escape(bytes, start + 1, end, 0, false);
            Ok(
                Escape {
                    seq: EscapeSeq::Num(value),
                    len: pos - start,
                    warnings: warned_if(
                        warnings,
                        check_byte_range && over,
                        span_at(token, start, pos - start),
                        Message::HexOutOfRange,
                    ),
                },
            )
        }
    } else if first == ascii::LOWER_U || first == ascii::UPPER_U {
        universal_escape(token, bytes, start, warnings)
    } else {
        match simple_escape(first) {
            Some(b) => Ok(Escape { seq: EscapeSeq::Byte(b), len: 1, warnings }),
            None => Ok(
                Escape {
                    seq: EscapeSeq::Byte(first),
                    len: 1,
                    warnings: warned_if(
                        warnings,
                        true,
                        span_at(token, start, 1),
                        Message::UnknownEscape,
                    ),
                },
            ),
        }
    }
}

/// The warnings that came up, and the result of a step.
pub struct Warned<T> {
    pub warnings: Seq<Warning>,
    pub r: Result<T, Error>,
}

/// How the characters of a literal are encoded.
#[derive(Clone, Copy, Debug, PartialEq, Eq, Structural)]
pub enum Encoding {
    Utf8,
    Utf16,
    Utf32,
    Wide,
}

/// The type of the elements of a string literal.
pub open spec fn element_type(encoding: Encoding) -> Type {
    match encoding {
        Encoding::Utf8 => Type::Arith(ArithType::Char),
        Encoding::Utf16 => Type::Arith(ArithType::UShort),
        Encoding::Utf32 => Type::Arith(ArithType::UInt),
        Encoding::Wide => Type::Arith(ArithType::Int),
    }
}

/// The bytes of a character in UTF-8.
pub open spec fn utf8_units(code: u32) -> Seq<u32> {
    if code < 0x80 {
        seq![code]
    } else if code < 0x800 {
        seq![(0xc0 + code / 0x40) as u32, (0x80 + code % 0x40) as u32]
    } else if code < 0x1_0000 {
        seq![
            (0xe0 + code / 0x1000) as u32,
            (0x80 + code / 0x40 % 0x40) as u32,
            (0x80 + code % 0x40) as u32,
        ]
    } else {
        seq![
            (0xf0 + code / 0x4_0000) as u32,
            (0x80 + code / 0x1000 % 0x40) as u32,
            (0x80 + code / 0x40 % 0x40) as u32,
            (0x80 + code % 0x40) as u32,
        ]
    }
}

/// The code units of a character in UTF-16.
pub open spec fn utf16_units(code: u32) -> Seq<u32> {
    if code < 0x1_0000 {
        seq![code]
    } else {
        seq![
            (0xd800 + (code - 0x1_0000) / 0x400) as u32,
            (0xdc00 + (code - 0x1_0000) % 0x400) as u32,
        ]
    }
}

/// A character written in UTF-8 is read back as the same character.
pub proof fn utf8_units_are_read_back(code: u32, text: Seq<u8>)
    requires
        code <= 0x10_ffff,
        text.len() == utf8_units(code).len(),
        forall|k: int| 0 <= k < text.len() ==> #[trigger] text[k] as u32 == utf8_units(code)[k],
    ensures
        char_at(text, 0) == Some((code, text.len() as int)),
{
    reveal(char_at);
    let units = utf8_units(code);
    assert(text[0] as u32 == units[0]);
    if code >= 0x80 {
        assert(text[1] as u32 == units[1]);
    }
    if code >= 0x800 {
        assert(text[2] as u32 == units[2]);
    }
    if code >= 0x1_0000 {
        assert(text[3] as u32 == units[3]);
    }
}

/// A character outside the basic plane is written in UTF-16 as a high and a low
/// surrogate that stand for it together.
pub proof fn utf16_units_are_surrogates(code: u32)
    requires
        0x1_0000 <= code <= 0x10_ffff,
    ensures
        utf16_units(code).len() == 2,
        0xd800 <= utf16_units(code)[0] < 0xdc00,
        0xdc00 <= utf16_units(code)[1] < 0xe000,
        code == 0x1_0000 + (utf16_units(code)[0] - 0xd800) * 0x400 + (utf16_units(code)[1]
            - 0xdc00),
{
}

/// The elements for a character in a string literal.
#[verifier::opaque]
pub open spec fn char_units(encoding: Encoding, code: u32) -> Seq<u32> {
    match encoding {
        Encoding::Utf8 => utf8_units(code),
        Encoding::Utf16 => utf16_units(code),
        Encoding::Utf32 | Encoding::Wide => seq![code],
    }
}

/// The elements for an escape sequence in a string literal.
#[verifier::opaque]
pub open spec fn escape_units(encoding: Encoding, seq: EscapeSeq) -> Seq<u32> {
    match seq {
        EscapeSeq::Byte(b) => seq![b as u32],
        EscapeSeq::Num(value) => match encoding {
            Encoding::Utf8 => seq![(value % 0x100) as u32],
            Encoding::Utf16 => seq![(value % 0x1_0000) as u32],
            Encoding::Utf32 | Encoding::Wide => seq![value],
        },
        EscapeSeq::Codepoint(code) => char_units(encoding, code),
    }
}

/// One character or escape sequence of a string literal read.
pub struct Unit {
    pub next: int,
    pub units: Seq<u32>,
    pub warnings: Seq<Warning>,
}

/// The character or escape sequence of a string literal at an offset.
#[verifier::opaque]
pub open spec fn string_unit(
    token: PreToken,
    bytes: Seq<u8>,
    encoding: Encoding,
    i: int,
    end: int,
    warnings: Seq<Warning>,
) -> Result<Unit, Error> {
    let b = nth(bytes, i);
    if b == ascii::NEWLINE || b == 0 {
        Err(Error::Terminate(span_at(token, i, 1), Message::InvalidCharInLiteral))
    } else if b == ascii::BACKSLASH {
        if i + 1 >= end {
            Err(Error::Terminate(span_at(token, i, 1), Message::InvalidEscape))
        } else {
            match decode_escape(token, bytes, i + 1, end, encoding == Encoding::Utf8, warnings) {
                Err(e) => Err(e),
                Ok(escape) => Ok(
                    Unit {
                        next: i + 1 + escape.len,
                        units: escape_units(encoding, escape.seq),
                        warnings: escape.warnings,
                    },
                ),
            }
        }
    } else if encoding == Encoding::Utf8 {
        Ok(Unit { next: i + 1, units: seq![b as u32], warnings })
    } else {
        match char_at(bytes.take(end), i) {
            Some((code, len)) => Ok(
                Unit { next: i + len, units: char_units(encoding, code), warnings },
            ),
            None => Err(Error::Overflow),
        }
    }
}

/// The elements of a string literal from an offset on, after those read.
pub open spec fn string_units(
    token: PreToken,
    bytes: Seq<u8>,
    encoding: Encoding,
    i: int,
    end: int,
    read: Seq<u32>,
    warnings: Seq<Warning>,
) -> Warned<Seq<u32>>
    decreases
            if i < end {
                end - i
            } else {
                0
            },
{
    if i >= end {
        Warned { warnings, r: Ok(read.push(0)) }
    } else {
        match string_unit(token, bytes, encoding, i, end, warnings) {
            Err(e) => Warned { warnings, r: Err(e) },
            Ok(unit) => if unit.next > i {
                string_units(
                    token,
                    bytes,
                    encoding,
                    unit.next,
                    end,
                    read + unit.units,
                    unit.warnings,
                )
            } else {
                Warned { warnings, r: Err(Error::Overflow) }
            },
        }
    }
}

/// How a string literal is encoded, and where its content starts.
pub open spec fn string_prefix(bytes: Seq<u8>) -> Option<(Encoding, int)> {
    let closed = nth(bytes, bytes.len() - 1) == ascii::DQUOTE;
    let a = nth(bytes, 0);
    let b = nth(bytes, 1);
    if a == ascii::DQUOTE && closed && bytes.len() >= 2 {
        Some((Encoding::Utf8, 1))
    } else if a == ascii::LOWER_U && b == ascii::DIGIT_8 && nth(bytes, 2) == ascii::DQUOTE && closed && bytes.len() >= 4 {
        Some((Encoding::Utf8, 3))
    } else if a == ascii::LOWER_U && b == ascii::DQUOTE && closed && bytes.len() >= 3 {
        Some((Encoding::Utf16, 2))
    } else if a == ascii::UPPER_U && b == ascii::DQUOTE && closed && bytes.len() >= 3 {
        Some((Encoding::Utf32, 2))
    } else if a == ascii::UPPER_L && b == ascii::DQUOTE && closed && bytes.len() >= 3 {
        Some((Encoding::Wide, 2))
    } else {
        None
    }
}

/// A lowering step: what it leaves behind, and its result.
pub struct LowerOut<T> {
    pub st: LowerState,
    pub r: Result<T, Error>,
}

/// A string literal.
#[verifier::opaque]
pub open spec fn lower_string(token: PreToken, bytes: Seq<u8>, st: LowerState) -> LowerOut<
    TokenKind,
> {
    match string_prefix(bytes) {
        None => LowerOut { st, r: Err(Error::Terminate(token.span, Message::InvalidString)) },
        Some((encoding, start)) => {
            let o = string_units(
                token,
                bytes,
                encoding,
                start,
                bytes.len() - 1,
                Seq::empty(),
                st.warnings,
            );
            match o.r {
                Err(e) => LowerOut {
                    st: LowerState { warnings: o.warnings, ..st },
                    r: Err(e),
                },
                Ok(units) => LowerOut {
                    st: LowerState {
                        strings: st.strings.push(units),
                        warnings: o.warnings,
                    },
                    r: Ok(TokenKind::Str(st.strings.len() as usize, element_type(encoding))),
                },
            }
        },
    }
}

/// How a char literal is encoded, and where its content starts.
pub open spec fn char_prefix(bytes: Seq<u8>) -> Option<(Encoding, int)> {
    let closed = nth(bytes, bytes.len() - 1) == ascii::QUOTE;
    let a = nth(bytes, 0);
    let b = nth(bytes, 1);
    if a == ascii::QUOTE && closed && bytes.len() >= 2 {
        Some((Encoding::Utf8, 1))
    } else if a == ascii::LOWER_U && b == ascii::QUOTE && closed && bytes.len() >= 3 {
        Some((Encoding::Utf16, 2))
    } else if a == ascii::UPPER_U && b == ascii::QUOTE && closed && bytes.len() >= 3 {
        Some((Encoding::Utf32, 2))
    } else if a == ascii::UPPER_L && b == ascii::QUOTE && closed && bytes.len() >= 3 {
        Some((Encoding::Wide, 2))
    } else {
        None
    }
}

/// The value of an escape sequence in a char literal.
pub open spec fn escape_value(seq: EscapeSeq) -> u32 {
    match seq {
        EscapeSeq::Byte(b) => b as u32,
        EscapeSeq::Num(value) => value,
        EscapeSeq::Codepoint(code) => code,
    }
}

/// The code in a char literal.
#[verifier::opaque]
pub open spec fn char_code(
    token: PreToken,
    bytes: Seq<u8>,
    encoding: Encoding,
    start: int,
    warnings: Seq<Warning>,
) -> Warned<u32> {
    let end = bytes.len() - 1;
    if nth(bytes, start) == ascii::BACKSLASH {
        match decode_escape(token, bytes, start + 1, end, encoding == Encoding::Utf8, warnings) {
            Err(e) => Warned { warnings, r: Err(e) },
            Ok(escape) => if start + 1 + escape.len < end {
                Warned {
                    warnings: escape.warnings,
                    r: Err(Error::Terminate(token.span, Message::MultiChar)),
                }
            } else {
                Warned { warnings: escape.warnings, r: Ok(escape_value(escape.seq)) }
            },
        }
    } else if encoding == Encoding::Utf8 && start + 1 != end {
        Warned { warnings, r: Err(Error::Terminate(token.span, Message::MultiChar)) }
    } else {
        match char_at(bytes.take(end), start) {
            None => Warned { warnings, r: Err(Error::Overflow) },
            Some((code, len)) => if start + len != end {
                Warned { warnings, r: Err(Error::Terminate(token.span, Message::MultiChar)) }
            } else {
                Warned { warnings, r: Ok(code) }
            },
        }
    }
}

/// A char literal as an integer; one without prefix is a signed char.
pub open spec fn char_value(encoding: Encoding, code: u32) -> TokenKind {
    match encoding {
        Encoding::Utf8 => {
            let byte = code % 0x100;
            if byte < 0x80 {
                TokenKind::Num(byte as u64, Type::Arith(ArithType::Int))
            } else {
                TokenKind::Num((byte + 0xffff_ffff_ffff_ff00) as u64, Type::Arith(ArithType::Int))
            }
        },
        Encoding::Utf16 => TokenKind::Num((code % 0x1_0000) as u64, Type::Arith(ArithType::UShort)),
        Encoding::Utf32 => TokenKind::Num(code as u64, Type::Arith(ArithType::UInt)),
        Encoding::Wide => TokenKind::Num(code as u64, Type::Arith(ArithType::Int)),
    }
}

/// A char literal.
#[verifier::opaque]
pub open spec fn lower_char(token: PreToken, bytes: Seq<u8>, warnings: Seq<Warning>) -> Warned<
    TokenKind,
> {
    match char_prefix(bytes) {
        None => Warned { warnings, r: Err(Error::Terminate(token.span, Message::InvalidChar)) },
        Some((encoding, start)) => if start >= bytes.len() - 1 {
            Warned { warnings, r: Err(Error::Terminate(token.span, Message::EmptyChar)) }
        } else {
            let o = char_code(token, bytes, encoding, start, warnings);
            match o.r {
                Err(e) => Warned { warnings: o.warnings, r: Err(e) },
                Ok(code) => Warned { warnings: o.warnings, r: Ok(char_value(encoding, code)) },
            }
        },
    }
}

/// What lowering depends on.
pub struct LowerEnv {
    pub sources: Seq<SourceView>,
    pub spellings: Seq<Seq<u8>>,
    pub names: Seq<Seq<u8>>,
    pub literals: Seq<FloatLiteralView>,
}

/// An identifier, which may be a keyword.
pub open spec fn lower_ident(names: Seq<Seq<u8>>, symbol: crate::types::Symbol) -> TokenKind {
    let keyword = if symbol.0 < names.len() {
        keyword_spelled(names[symbol.0 as int])
    } else {
        None
    };
    match keyword {
        Some(keyword) => TokenKind::Keyword(keyword),
        None => TokenKind::Ident(symbol),
    }
}

/// What kind of token a preprocessor token becomes.
///
/// In preprocessor expressions, all identifiers are 0, and string and
/// floating-point literals are rejected.
#[verifier::opaque]
pub open spec fn lower_kind(
    env: LowerEnv,
    token: PreToken,
    for_pp_expr: bool,
    st: LowerState,
) -> LowerOut<TokenKind> {
    let bytes = spelling_of(env.sources, env.spellings, token);
    match token.kind {
        PreTokenKind::Ident(symbol) => LowerOut {
            st,
            r: Ok(
                if for_pp_expr {
                    TokenKind::Num(0, Type::Arith(ArithType::Int))
                } else {
                    lower_ident(env.names, symbol)
                },
            ),
        },
        PreTokenKind::Punct(punct) => LowerOut { st, r: Ok(TokenKind::Punct(punct)) },
        PreTokenKind::NumLit => LowerOut {
            st,
            r: lower_number(env.literals, bytes, token.span, for_pp_expr),
        },
        PreTokenKind::StrLit => if for_pp_expr {
            LowerOut { st, r: Err(Error::Terminate(token.span, Message::StringInPpExpr)) }
        } else {
            lower_string(token, bytes, st)
        },
        PreTokenKind::CharLit => {
            let o = lower_char(token, bytes, st.warnings);
            LowerOut { st: LowerState { warnings: o.warnings, ..st }, r: o.r }
        },
        PreTokenKind::Eof => LowerOut { st, r: Ok(TokenKind::Eof) },
    }
}

/// What a preprocessor token becomes, see [`lower_kind`].
pub open spec fn lowered(
    env: LowerEnv,
    token: PreToken,
    for_pp_expr: bool,
    st: LowerState,
) -> LowerOut<
    Token,
> {
    let o = lower_kind(env, token, for_pp_expr, st);
    LowerOut {
        st: o.st,
        r: match o.r {
            Ok(kind) => Ok(Token { kind, span: token.span }),
            Err(e) => Err(e),
        },
    }
}

fn is_hex_prefix(bytes: &[u8]) -> (r: bool)
    ensures
        r == starts_hex(bytes@),
{
    get(bytes, 0) == ascii::DIGIT_0 && (get(bytes, 1) == ascii::LOWER_X || get(bytes, 1) == ascii::UPPER_X)
}

fn is_binary_prefix(bytes: &[u8]) -> (r: bool)
    ensures
        r == starts_binary(bytes@),
{
    get(bytes, 0) == ascii::DIGIT_0 && (get(bytes, 1) == ascii::LOWER_B || get(bytes, 1) == ascii::UPPER_B)
}

fn last(bytes: &[u8], back: usize) -> (r: u8)
    requires
        back >= 1,
    ensures
        r == nth(bytes@, bytes@.len() - back),
{
    if back <= bytes.len() {
        bytes[bytes.len() - back]
    } else {
        0
    }
}

fn find_float_suffix(bytes: &[u8]) -> (r: (usize, Type))
    ensures
        float_suffix(bytes@) == (r.0 as int, r.1),
        r.0 <= 1,
        r.0 <= bytes@.len(),
{
    let b: u8 = last(bytes, 1);
    if b == ascii::LOWER_F || b == ascii::UPPER_F {
        (1, Type::Arith(ArithType::Float))
    } else if b == ascii::LOWER_L || b == ascii::UPPER_L {
        (1, Type::Arith(ArithType::Double))
    } else {
        (0, Type::Arith(ArithType::Double))
    }
}

/// Return the digits of a floating-point literal, if a number is one.
fn find_float_body(bytes: &[u8]) -> (r: Option<(bool, Vec<u8>)>)
    ensures
        float_body(bytes@) == (match r {
            Some((is_hex, body)) => Some((is_hex, body@)),
            None => None,
        }),
{
    proof {
        reveal(float_body);
    }
    let starts_hex = is_hex_prefix(bytes);
    let is_hex = starts_hex && find_any(bytes, 2, ascii::DOT, ascii::LOWER_P, ascii::UPPER_P);
    let is_dec = !starts_hex && !is_binary_prefix(bytes) && find_any(
        bytes,
        0,
        ascii::DOT,
        ascii::LOWER_E,
        ascii::UPPER_E,
    );
    if !is_hex && !is_dec {
        return None;
    }
    let (suffix_len, _) = find_float_suffix(bytes);
    let body = vstd::slice::slice_subrange(bytes, 0, bytes.len() - suffix_len);
    assert(body@ =~= bytes@.take(bytes@.len() - suffix_len));
    Some((is_hex, copy_bytes(body)))
}

fn is_long_letter(b: u8) -> (r: bool)
    ensures
        r == is_l(b),
{
    b == ascii::LOWER_L || b == ascii::UPPER_L
}

fn is_unsigned_letter(b: u8) -> (r: bool)
    ensures
        r == is_u(b),
{
    b == ascii::LOWER_U || b == ascii::UPPER_U
}

fn find_int_suffix(bytes: &[u8], start: usize) -> (r: (usize, bool, bool))
    requires
        start <= bytes@.len(),
    ensures
        int_suffix(bytes@, start as int) == (IntSuffix { len: r.0 as int, l: r.1, u: r.2 }),
        r.0 <= bytes@.len() - start,
{
    let n: usize = bytes.len() - start;
    let z: u8 = last(bytes, 1);
    let y: u8 = last(bytes, 2);
    let x: u8 = last(bytes, 3);
    if n >= 3 && ((is_long_letter(x) && x == y && is_unsigned_letter(z)) || (is_unsigned_letter(x)
        && y == z && is_long_letter(z))) {
        (3, true, true)
    } else if n >= 2 && ((is_long_letter(y) && is_unsigned_letter(z)) || (is_unsigned_letter(y)
        && is_long_letter(z))) {
        (2, true, true)
    } else if n >= 2 && y == z && is_long_letter(z) {
        (2, true, false)
    } else if n >= 1 && is_long_letter(z) {
        (1, true, false)
    } else if n >= 1 && is_unsigned_letter(z) {
        (1, false, true)
    } else {
        (0, false, false)
    }
}

fn type_of_integer(radix: u64, l: bool, u: bool, value: u64) -> (r: Type)
    ensures
        r == integer_type(radix as int, l, u, value),
{
    if l && u {
        Type::Arith(ArithType::ULong)
    } else if l {
        if radix != 10 && value > i64::MAX as u64 {
            Type::Arith(ArithType::ULong)
        } else {
            Type::Arith(ArithType::Long)
        }
    } else if u {
        if value > u32::MAX as u64 {
            Type::Arith(ArithType::ULong)
        } else {
            Type::Arith(ArithType::UInt)
        }
    } else if radix == 10 {
        if value > i32::MAX as u64 {
            Type::Arith(ArithType::Long)
        } else {
            Type::Arith(ArithType::Int)
        }
    } else if value > i64::MAX as u64 {
        Type::Arith(ArithType::ULong)
    } else if value > u32::MAX as u64 {
        Type::Arith(ArithType::Long)
    } else if value > i32::MAX as u64 {
        Type::Arith(ArithType::UInt)
    } else {
        Type::Arith(ArithType::Int)
    }
}

fn lower_integer_literal(bytes: &[u8], span: SourceSpan) -> (r: Result<TokenKind, Error>)
    ensures
        r == lower_integer(bytes@, span),
{
    proof {
        reveal(lower_integer);
    }
    let radix: u64 = if is_hex_prefix(bytes) {
        16
    } else if is_binary_prefix(bytes) {
        2
    } else if get(bytes, 0) == ascii::DIGIT_0 {
        8
    } else {
        10
    };
    let start: usize = if radix == 16 || radix == 2 {
        2
    } else {
        0
    };
    let (suffix_len, l, u) = find_int_suffix(bytes, start);
    let body = vstd::slice::slice_subrange(bytes, start, bytes.len() - suffix_len);
    match parse_integer(body, radix) {
        Some(value) => Ok(TokenKind::Num(value, type_of_integer(radix, l, u, value))),
        None => Err(Error::Terminate(span, Message::InvalidInteger)),
    }
}

fn hex_digit(b: u8) -> (r: Option<u32>)
    ensures
        hex_value(b) == (match r {
            Some(d) => Some(d as int),
            None => None,
        }),
        r is Some ==> r.unwrap() < 16,
{
    match digit(b, 16) {
        Some(d) => Some(d as u32),
        None => None,
    }
}

fn is_octal_digit(b: u8) -> (r: bool)
    ensures
        r == is_octal(b),
{
    b >= ascii::DIGIT_0 && b <= ascii::DIGIT_7
}

fn decode_octal(bytes: &[u8], start: usize, end: usize) -> (r: (u32, usize))
    requires
        start < end <= bytes@.len() || start < bytes@.len(),
        is_octal(nth(bytes@, start as int)),
    ensures
        octal_escape(bytes@, start as int, end as int) == (r.0 as int, r.1 as int),
        1 <= r.1 <= 3,
        r.1 == 1 || start + r.1 <= end,
{
    let a: u32 = (get(bytes, start) - ascii::DIGIT_0) as u32;
    let left: usize = if start < end {
        end - start
    } else {
        0
    };
    if left <= 1 {
        return (a, 1);
    }
    let b: u8 = get(bytes, start + 1);
    if !is_octal_digit(b) {
        return (a, 1);
    }
    let b: u32 = (b - ascii::DIGIT_0) as u32;
    if left <= 2 {
        return (a * 8 + b, 2);
    }
    let c: u8 = get(bytes, start + 2);
    if !is_octal_digit(c) {
        return (a * 8 + b, 2);
    }
    let c: u32 = (c - ascii::DIGIT_0) as u32;
    (a * 64 + b * 8 + c, 3)
}

fn decode_hex(bytes: &[u8], start: usize, end: usize) -> (r: (usize, u32, bool))
    requires
        start <= end,
    ensures
        hex_escape(bytes@, start as int, end as int, 0, false) == (r.0 as int, r.1, r.2),
        start <= r.0 <= end,
{
    let mut pos: usize = start;
    let mut value: u32 = 0;
    let mut over: bool = false;
    while pos < end
        invariant_except_break
            hex_escape(bytes@, start as int, end as int, 0, false) == hex_escape(
                bytes@,
                pos as int,
                end as int,
                value,
                over,
            ),
        invariant
            start <= pos <= end,
        ensures
            hex_escape(bytes@, start as int, end as int, 0, false) == (pos as int, value, over),
        decreases end - pos,
    {
        match hex_digit(get(bytes, pos)) {
            Some(d) => {
                over = over || value > (255 - d) / 16;
                let wide: u64 = value as u64 * 16 + d as u64;
                value = (wide % 0x1_0000_0000) as u32;
                pos += 1;
            },
            None => {
                break;
            },
        }
    }
    (pos, value, over)
}

fn decode_name(bytes: &[u8], start: usize, limit: usize) -> (r: (usize, u32))
    requires
        limit <= 8,
        start <= bytes@.len(),
    ensures
        name_digits(bytes@, start as int, limit as int, 0, 0) == (r.0 as int, r.1 as int),
        r.0 <= limit,
        start + r.0 <= bytes@.len(),
{
    let mut count: usize = 0;
    let mut code: u64 = 0;
    let mut bound: u64 = 1;
    while count < limit && count < bytes.len() - start
        invariant_except_break
            name_digits(bytes@, start as int, limit as int, 0, 0) == name_digits(
                bytes@,
                start + count,
                limit as int,
                count as int,
                code as int,
            ),
        invariant
            count <= limit <= 8,
            start + count <= bytes@.len(),
            code < bound,
            bound <= 0x1_0000_0000,
            count == 0 ==> bound == 1,
            count == 1 ==> bound == 0x10,
            count == 2 ==> bound == 0x100,
            count == 3 ==> bound == 0x1000,
            count == 4 ==> bound == 0x1_0000,
            count == 5 ==> bound == 0x10_0000,
            count == 6 ==> bound == 0x100_0000,
            count == 7 ==> bound == 0x1000_0000,
            count == 8 ==> bound == 0x1_0000_0000,
        ensures
            name_digits(bytes@, start as int, limit as int, 0, 0) == (count as int, code as int),
        decreases limit - count,
    {
        match hex_digit(get(bytes, start + count)) {
            Some(d) => {
                code = code * 16 + d as u64;
                bound = bound * 16;
                count += 1;
            },
            None => {
                break;
            },
        }
    }
    (count, code as u32)
}

fn push_utf8(content: &mut Vec<u32>, code: u32)
    ensures
        final(content)@ == old(content)@ + utf8_units(code),
{
    if code < 0x80 {
        content.push(code);
    } else if code < 0x800 {
        content.push(0xc0 + code / 0x40);
        content.push(0x80 + code % 0x40);
    } else if code < 0x1_0000 {
        content.push(0xe0 + code / 0x1000);
        content.push(0x80 + code / 0x40 % 0x40);
        content.push(0x80 + code % 0x40);
    } else {
        content.push(0xf0 + code / 0x4_0000);
        content.push(0x80 + code / 0x1000 % 0x40);
        content.push(0x80 + code / 0x40 % 0x40);
        content.push(0x80 + code % 0x40);
    }
    assert(content@ =~= old(content)@ + utf8_units(code));
}

fn push_utf16(content: &mut Vec<u32>, code: u32)
    ensures
        final(content)@ == old(content)@ + utf16_units(code),
{
    if code < 0x1_0000 {
        content.push(code);
    } else {
        let above: u32 = code - 0x1_0000;
        content.push(0xd800 + above / 0x400);
        content.push(0xdc00 + above % 0x400);
    }
    assert(content@ =~= old(content)@ + utf16_units(code));
}

fn push_char(content: &mut Vec<u32>, encoding: Encoding, code: u32)
    ensures
        final(content)@ == old(content)@ + char_units(encoding, code),
{
    proof {
        reveal(char_units);
    }
    match encoding {
        Encoding::Utf8 => {
            push_utf8(content, code);
        },
        Encoding::Utf16 => {
            push_utf16(content, code);
        },
        Encoding::Utf32 | Encoding::Wide => {
            content.push(code);
            assert(content@ =~= old(content)@ + seq![code]);
        },
    }
}

fn push_escape(content: &mut Vec<u32>, encoding: Encoding, seq: EscapeSeq)
    ensures
        final(content)@ == old(content)@ + escape_units(encoding, seq),
{
    proof {
        reveal(escape_units);
    }
    match seq {
        EscapeSeq::Byte(b) => {
            content.push(b as u32);
        },
        EscapeSeq::Num(value) => {
            match encoding {
                Encoding::Utf8 => {
                    content.push(value % 0x100);
                },
                Encoding::Utf16 => {
                    content.push(value % 0x1_0000);
                },
                Encoding::Utf32 | Encoding::Wide => {
                    content.push(value);
                },
            }
        },
        EscapeSeq::Codepoint(code) => {
            push_char(content, encoding, code);
        },
    }
    assert(content@ =~= old(content)@ + escape_units(encoding, seq));
}

fn find_simple_escape(b: u8) -> (r: Option<u8>)
    ensures
        r == simple_escape(b),
{
    if b == ascii::LOWER_A {
        Some(0x07)
    } else if b == ascii::LOWER_B {
        Some(0x08)
    } else if b == ascii::LOWER_T {
        Some(0x09)
    } else if b == ascii::LOWER_N {
        Some(0x0a)
    } else if b == ascii::LOWER_V {
        Some(0x0b)
    } else if b == ascii::LOWER_F {
        Some(0x0c)
    } else if b == ascii::LOWER_R {
        Some(0x0d)
    } else if b == ascii::LOWER_E {
        // GNU C extension
        Some(0x1b)
    } else if b == ascii::DQUOTE || b == ascii::QUOTE || b == ascii::BACKSLASH || b == ascii::QUESTION {
        Some(b)
    } else {
        None
    }
}

/// Decode a universal character name.
fn decode_universal(token: PreToken, bytes: &[u8], start: usize, warnings: &Vec<Warning>) -> (r:
    Result<(EscapeSeq, usize), Error>)
    requires
        start < bytes@.len(),
    ensures
        universal_escape(token, bytes@, start as int, warnings@) == (match r {
            Ok((seq, len)) => Ok::<Escape, Error>(
                Escape { seq, len: len as int, warnings: warnings@ },
            ),
            Err(e) => Err(e),
        }),
        r is Ok ==> 1 <= r->Ok_0.1 && start + r->Ok_0.1 <= bytes@.len(),
{
    proof {
        reveal(universal_escape);
    }
    let limit: usize = if bytes[start] == ascii::LOWER_U {
        4
    } else {
        8
    };
    let _len: usize = bytes.len();
    let (count, code) = decode_name(bytes, start + 1, limit);
    if count != limit {
        return Err(
            Error::Terminate(part(token, start, count + 1), Message::IncompleteUniversalName),
        );
    }
    if (code >= 0xd800 && code < 0xe000) || code >= 0x11_0000 {
        return Err(Error::Terminate(part(token, start, limit + 1), Message::InvalidUniversalName));
    }
    Ok((EscapeSeq::Codepoint(code), limit + 1))
}

/// Decode an escape sequence in a string or character literal.
///
/// The `bytes` must correspond to the spelling of the given token. This
/// will decode `bytes[start..end]` and return the escape sequence together
/// with the number of bytes consumed from `bytes`.
///
/// If `check_byte_range` is true, this emits a warning if the octal or hex
/// escape sequence goes out of the one-byte range.
fn decode_escape_seq(
    token: PreToken,
    bytes: &[u8],
    start: usize,
    end: usize,
    check_byte_range: bool,
    warnings: &mut Vec<Warning>,
) -> (r: Result<(EscapeSeq, usize), Error>)
    requires
        start <= end < bytes@.len(),
    ensures
        decode_escape(
            token,
            bytes@,
            start as int,
            end as int,
            check_byte_range,
            old(warnings)@,
        ) == (match r {
            Ok((seq, len)) => Ok::<Escape, Error>(
                Escape { seq, len: len as int, warnings: final(warnings)@ },
            ),
            Err(e) => Err(e),
        }),
        r is Err ==> final(warnings)@ == old(warnings)@,
        r is Ok ==> 1 <= r->Ok_0.1 && start + r->Ok_0.1 <= bytes@.len(),
{
    proof {
        reveal(decode_escape);
    }
    let first: u8 = bytes[start];
    // Octal escape sequence (up to three octal digits)
    if is_octal_digit(first) {
        let (value, len) = decode_octal(bytes, start, end);
        if check_byte_range && value > 255 {
            warnings.push(
                Warning { span: part(token, start, len), message: Message::OctalOutOfRange },
            );
        }
        return Ok((EscapeSeq::Num(value), len));
    }
    // Hexadecimal escape sequence

    if first == ascii::LOWER_X {
        if end - start <= 1 || hex_digit(get(bytes, start + 1)).is_none() {
            return Err(Error::Terminate(part(token, start + 1, 1), Message::InvalidHexEscape));
        }
        let (pos, value, over) = decode_hex(bytes, start + 1, end);
        if check_byte_range && over {
            warnings.push(
                Warning { span: part(token, start, pos - start), message: Message::HexOutOfRange },
            );
        }
        return Ok((EscapeSeq::Num(value), pos - start));
    }
    // Universal character name

    if first == ascii::LOWER_U || first == ascii::UPPER_U {
        return decode_universal(token, bytes, start, warnings);
    }
    // Standard single-character escapes

    match find_simple_escape(first) {
        Some(decoded) => Ok((EscapeSeq::Byte(decoded), 1)),
        None => {
            warnings.push(
                Warning { span: part(token, start, 1), message: Message::UnknownEscape },
            );
            Ok((EscapeSeq::Byte(first), 1))
        },
    }
}

fn find_string_prefix(bytes: &[u8]) -> (r: Option<(Encoding, usize)>)
    ensures
        string_prefix(bytes@) == (match r {
            Some((encoding, start)) => Some((encoding, start as int)),
            None => None,
        }),
        r is Some ==> r.unwrap().1 < bytes@.len(),
{
    let len: usize = bytes.len();
    if last(bytes, 1) != ascii::DQUOTE {
        return None;
    }
    let a: u8 = get(bytes, 0);
    let b: u8 = get(bytes, 1);
    if a == ascii::DQUOTE && len >= 2 {
        Some((Encoding::Utf8, 1))
    } else if a == ascii::LOWER_U && b == ascii::DIGIT_8 && get(bytes, 2) == ascii::DQUOTE && len >= 4 {
        Some((Encoding::Utf8, 3))
    } else if a == ascii::LOWER_U && b == ascii::DQUOTE && len >= 3 {
        Some((Encoding::Utf16, 2))
    } else if a == ascii::UPPER_U && b == ascii::DQUOTE && len >= 3 {
        Some((Encoding::Utf32, 2))
    } else if a == ascii::UPPER_L && b == ascii::DQUOTE && len >= 3 {
        Some((Encoding::Wide, 2))
    } else {
        None
    }
}

fn find_char_prefix(bytes: &[u8]) -> (r: Option<(Encoding, usize)>)
    ensures
        char_prefix(bytes@) == (match r {
            Some((encoding, start)) => Some((encoding, start as int)),
            None => None,
        }),
        r is Some ==> r.unwrap().1 < bytes@.len(),
{
    let len: usize = bytes.len();
    if last(bytes, 1) != ascii::QUOTE {
        return None;
    }
    let a: u8 = get(bytes, 0);
    let b: u8 = get(bytes, 1);
    if a == ascii::QUOTE && len >= 2 {
        Some((Encoding::Utf8, 1))
    } else if a == ascii::LOWER_U && b == ascii::QUOTE && len >= 3 {
        Some((Encoding::Utf16, 2))
    } else if a == ascii::UPPER_U && b == ascii::QUOTE && len >= 3 {
        Some((Encoding::Utf32, 2))
    } else if a == ascii::UPPER_L && b == ascii::QUOTE && len >= 3 {
        Some((Encoding::Wide, 2))
    } else {
        None
    }
}

fn is_utf8(encoding: Encoding) -> (r: bool)
    ensures
        r == (encoding == Encoding::Utf8),
{
    matches!(encoding, Encoding::Utf8)
}

/// Read the character or escape sequence of a string literal at an offset.
fn read_string_unit(
    token: PreToken,
    bytes: &[u8],
    encoding: Encoding,
    i: usize,
    content: &mut Vec<u32>,
    warnings: &mut Vec<Warning>,
) -> (r: Result<usize, Error>)
    requires
        i < bytes@.len() - 1,
    ensures
        match string_unit(
            token,
            bytes@,
            encoding,
            i as int,
            bytes@.len() - 1,
            old(warnings)@,
        ) {
            Ok(unit) => {
                &&& r is Ok
                &&& r->Ok_0 == unit.next
                &&& final(content)@ == old(content)@ + unit.units
                &&& final(warnings)@ == unit.warnings
            },
            Err(e) => r == Err::<usize, Error>(e) && final(warnings)@ == old(warnings)@,
        },
        r is Ok ==> r->Ok_0 > i,
{
    proof {
        reveal(string_unit);
    }
    let end: usize = bytes.len() - 1;
    let b: u8 = bytes[i];
    if b == ascii::NEWLINE || b == 0 {
        return Err(Error::Terminate(part(token, i, 1), Message::InvalidCharInLiteral));
    }
    if b == ascii::BACKSLASH {
        if end - i <= 1 {
            return Err(Error::Terminate(part(token, i, 1), Message::InvalidEscape));
        }
        let (seq, len) = decode_escape_seq(token, bytes, i + 1, end, is_utf8(encoding), warnings)?;
        push_escape(content, encoding, seq);
        return Ok(i + 1 + len);
    }
    if is_utf8(encoding) {
        content.push(b as u32);
        assert(content@ =~= old(content)@ + seq![b as u32]);
        return Ok(i + 1);
    }
    let head = vstd::slice::slice_subrange(bytes, 0, end);
    assert(head@ =~= bytes@.take(end as int));
    match decode_char(head, i) {
        Some((code, len)) => {
            push_char(content, encoding, code);
            Ok(i + len)
        },
        None => Err(Error::Overflow),
    }
}

/// Helper for interpreting preprocessor tokens.
pub struct PreTokenResolver<'a> {
    pub source_map: &'a SourceMap,
    /// The spellings of synthetic tokens.
    pub spellings: &'a Vec<Vec<u8>>,
    pub names: &'a Names,
    pub literals: &'a FloatLiterals,
}

impl<'a> PreTokenResolver<'a> {
    #[verifier::opaque]
    pub open spec fn view(&self) -> LowerEnv {
        LowerEnv {
            sources: self.source_map@,
            spellings: name_views(self.spellings@),
            names: self.names@,
            literals: self.literals@,
        }
    }

    pub open spec fn wf(&self) -> bool {
        self.source_map.wf()
    }

    /// Create a new preprocess token resolver.
    pub fn new(
        source_map: &'a SourceMap,
        spellings: &'a Vec<Vec<u8>>,
        names: &'a Names,
        literals: &'a FloatLiterals,
    ) -> (r: PreTokenResolver<'a>)
        requires
            source_map.wf(),
        ensures
            r.wf(),
            r@ == (LowerEnv {
                sources: source_map@,
                spellings: name_views(spellings@),
                names: names@,
                literals: literals@,
            }),
    {
        proof {
            reveal(PreTokenResolver::view);
        }
        PreTokenResolver { source_map, spellings, names, literals }
    }

    /// Return the spelling of a preprocessor token.
    pub fn spelling(&self, token: PreToken) -> (r: Vec<u8>)
        requires
            self.wf(),
        ensures
            r@ == spelling_of(self@.sources, self@.spellings, token),
    {
        proof {
            reveal(PreTokenResolver::view);
        }
        match token.synthetic {
            Some(k) => if k < self.spellings.len() {
                copy_bytes(self.spellings[k].as_slice())
            } else {
                let none: Vec<u8> = Vec::new();
                assert(none@ =~= Seq::<u8>::empty());
                none
            },
            None => self.source_map.text(token.span),
        }
    }

    /// Return the digits of a floating-point literal, and whether they are
    /// hexadecimal, if a preprocessor token is one.
    pub fn float_literal(&self, token: PreToken) -> (r: Option<(bool, Vec<u8>)>)
        requires
            self.wf(),
        ensures
            (match r {
                Some((is_hex, body)) => Some((is_hex, body@)),
                None => None,
            }) == (if token.kind == PreTokenKind::NumLit {
                float_body(spelling_of(self@.sources, self@.spellings, token))
            } else {
                None
            }),
    {
        match token.kind {
            PreTokenKind::NumLit => find_float_body(self.spelling(token).as_slice()),
            _ => None,
        }
    }

    /// Lower a numeric literal.
    ///
    /// This will output either an integer or floating-point number token, if
    /// valid. The type will be determined by the suffix or otherwise inferred
    /// from the value and radix according to the C standard rules.
    ///
    /// If `for_pp_expr` is true, floating-point literals will be rejected as
    /// they are not allowed in C preprocessor expressions.
    fn lower_numeric_literal(&self, bytes: &[u8], span: SourceSpan, for_pp_expr: bool) -> (r: Result<
        TokenKind,
        Error,
    >)
        ensures
            r == lower_number(self@.literals, bytes@, span, for_pp_expr),
    {
        proof {
            reveal(PreTokenResolver::view);
            reveal(lower_number);
            reveal(lower_float);
        }
        let Some((is_hex, body)) = find_float_body(bytes) else {
            return lower_integer_literal(bytes, span);
        };
        if for_pp_expr {
            return Err(Error::Terminate(span, Message::FloatInPpExpr));
        }
        let (_, ty) = find_float_suffix(bytes);
        match self.literals.find(is_hex, body.as_slice()) {
            None => Err(Error::NeedsLiteral(span)),
            Some(None) => Err(Error::Terminate(span, Message::InvalidFloat)),
            Some(Some(bits)) => Ok(TokenKind::Flonum(bits, ty)),
        }
    }

    /// Lower a string literal.
    #[verifier::loop_isolation(false)]
    fn lower_string_literal(&self, token: PreToken, bytes: &[u8], out: &mut Lowered) -> (r: Result<
        TokenKind,
        Error,
    >)
        ensures
            lower_string(token, bytes@, old(out)@) == (LowerOut { st: final(out)@, r }),
    {
        proof {
            reveal(lower_string);
        }
        let Some((encoding, start)) = find_string_prefix(bytes) else {
            return Err(Error::Terminate(token.span, Message::InvalidString));
        };
        // Exclude closing quote
        let end: usize = bytes.len() - 1;
        let mut content: Vec<u32> = Vec::new();
        let mut i: usize = start;
        assert(content@ =~= Seq::<u32>::empty());
        let ghost whole = string_units(
            token,
            bytes@,
            encoding,
            start as int,
            end as int,
            Seq::empty(),
            old(out)@.warnings,
        );
        while i < end
            invariant
                end == bytes.len() - 1,
                out.strings == old(out).strings,
                whole == string_units(
                    token,
                    bytes@,
                    encoding,
                    i as int,
                    end as int,
                    content@,
                    out.warnings@,
                ),
            decreases
                    if i < end {
                        end - i
                    } else {
                        0
                    },
        {
            i = read_string_unit(token, bytes, encoding, i, &mut content, &mut out.warnings)?;
        }
        content.push(0);
        let id: usize = out.strings.len();
        let ghost units = content@;
        out.strings.push(content);
        assert(out@.strings =~= old(out)@.strings.push(units));
        let ty = match encoding {
            Encoding::Utf8 => Type::Arith(ArithType::Char),
            Encoding::Utf16 => Type::Arith(ArithType::UShort),
            Encoding::Utf32 => Type::Arith(ArithType::UInt),
            Encoding::Wide => Type::Arith(ArithType::Int),
        };
        Ok(TokenKind::Str(id, ty))
    }

    fn char_code(
        &self,
        token: PreToken,
        bytes: &[u8],
        encoding: Encoding,
        start: usize,
        warnings: &mut Vec<Warning>,
    ) -> (r: Result<u32, Error>)
        requires
            start < bytes@.len() - 1,
        ensures
            char_code(token, bytes@, encoding, start as int, old(warnings)@) == (Warned {
                warnings: final(warnings)@,
                r,
            }),
    {
        proof {
            reveal(char_code);
        }
        let end: usize = bytes.len() - 1;
        if bytes[start] == ascii::BACKSLASH {
            let (seq, len) = decode_escape_seq(
                token,
                bytes,
                start + 1,
                end,
                is_utf8(encoding),
                warnings,
            )?;
            if len < end - (start + 1) {
                return Err(Error::Terminate(token.span, Message::MultiChar));
            }
            return Ok(
                match seq {
                    EscapeSeq::Byte(b) => b as u32,
                    EscapeSeq::Num(value) => value,
                    EscapeSeq::Codepoint(code) => code,
                },
            );
        }
        if is_utf8(encoding) && start + 1 != end {
            return Err(Error::Terminate(token.span, Message::MultiChar));
        }
        let head = vstd::slice::slice_subrange(bytes, 0, end);
        assert(head@ =~= bytes@.take(end as int));
        match decode_char(head, start) {
            Some((code, len)) => if start + len != end {
                Err(Error::Terminate(token.span, Message::MultiChar))
            } else {
                Ok(code)
            },
            None => Err(Error::Overflow),
        }
    }

    /// Lower a character literal.
    fn lower_char_literal(&self, token: PreToken, bytes: &[u8], warnings: &mut Vec<Warning>) -> (r:
        Result<TokenKind, Error>)
        ensures
            lower_char(token, bytes@, old(warnings)@) == (Warned { warnings: final(warnings)@, r }),
    {
        proof {
            reveal(lower_char);
        }
        let Some((encoding, start)) = find_char_prefix(bytes) else {
            return Err(Error::Terminate(token.span, Message::InvalidChar));
        };
        if start >= bytes.len() - 1 {
            return Err(Error::Terminate(token.span, Message::EmptyChar));
        }
        let code: u32 = self.char_code(token, bytes, encoding, start, warnings)?;
        Ok(
            match encoding {
                // Normal one-byte character constants are interpreted using signed-
                // char semantics, e.g., '\x80' becomes -128 (wrapped around)
                Encoding::Utf8 => {
                    let byte: u64 = (code % 0x100) as u64;
                    if byte < 0x80 {
                        TokenKind::Num(byte, Type::Arith(ArithType::Int))
                    } else {
                        TokenKind::Num(byte + 0xffff_ffff_ffff_ff00, Type::Arith(ArithType::Int))
                    }
                },
                Encoding::Utf16 => TokenKind::Num(
                    (code % 0x1_0000) as u64,
                    Type::Arith(ArithType::UShort),
                ),
                Encoding::Utf32 => TokenKind::Num(code as u64, Type::Arith(ArithType::UInt)),
                Encoding::Wide => TokenKind::Num(code as u64, Type::Arith(ArithType::Int)),
            },
        )
    }

    fn lower_ident(&self, symbol: crate::types::Symbol) -> (r: TokenKind)
        ensures
            r == lower_ident(self@.names, symbol),
    {
        proof {
            reveal(PreTokenResolver::view);
        }
        if symbol.0 < self.names.texts.len() {
            if let Some(keyword) = find_keyword(self.names.texts[symbol.0].as_slice()) {
                return TokenKind::Keyword(keyword);
            }
        }
        TokenKind::Ident(symbol)
    }

    fn lower_kind(&self, token: PreToken, for_pp_expr: bool, out: &mut Lowered) -> (r: Result<
        TokenKind,
        Error,
    >)
        requires
            self.wf(),
        ensures
            lower_kind(self@, token, for_pp_expr, old(out)@) == (LowerOut { st: final(out)@, r }),
    {
        proof {
            reveal(lower_kind);
        }
        match token.kind {
            PreTokenKind::Ident(symbol) => if for_pp_expr {
                Ok(TokenKind::Num(0, Type::Arith(ArithType::Int)))
            } else {
                Ok(self.lower_ident(symbol))
            },
            PreTokenKind::Punct(punct) => Ok(TokenKind::Punct(punct)),
            PreTokenKind::NumLit => {
                let bytes = self.spelling(token);
                self.lower_numeric_literal(bytes.as_slice(), token.span, for_pp_expr)
            },
            PreTokenKind::StrLit => {
                if for_pp_expr {
                    return Err(Error::Terminate(token.span, Message::StringInPpExpr));
                }
                let bytes = self.spelling(token);
                self.lower_string_literal(token, bytes.as_slice(), out)
            },
            PreTokenKind::CharLit => {
                let bytes = self.spelling(token);
                self.lower_char_literal(token, bytes.as_slice(), &mut out.warnings)
            },
            PreTokenKind::Eof => Ok(TokenKind::Eof),
        }
    }

    /// Lower a preprocessor token into a regular token.
    ///
    /// If `for_pp_expr` is true, preprocessor expression rules will be applied.
    /// In particular,
    ///
    /// - All identifiers are treated as 0;
    /// - String literals are rejected;
    /// - Floating-point literals are rejected.
    pub fn lower(&self, token: PreToken, for_pp_expr: bool, out: &mut Lowered) -> (r: Result<
        Token,
        Error,
    >)
        requires
            self.wf(),
        ensures
            lowered(self@, token, for_pp_expr, old(out)@) == (LowerOut { st: final(out)@, r }),
    {
        let kind = self.lower_kind(token, for_pp_expr, out)?;
        Ok(Token { kind, span: token.span })
    }
}

} // verus!
