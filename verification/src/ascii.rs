//! The characters of ASCII that the compiler looks for.

use vstd::prelude::*;

verus! {

pub const TAB: u8 = 0x09;

pub const NEWLINE: u8 = 0x0a;

pub const RETURN: u8 = 0x0d;

pub const SPACE: u8 = 0x20;

pub const BANG: u8 = 0x21;

pub const DQUOTE: u8 = 0x22;

pub const HASH: u8 = 0x23;

pub const DOLLAR: u8 = 0x24;

pub const PERCENT: u8 = 0x25;

pub const AMP: u8 = 0x26;

pub const QUOTE: u8 = 0x27;

pub const LPAREN: u8 = 0x28;

pub const RPAREN: u8 = 0x29;

pub const STAR: u8 = 0x2a;

pub const PLUS: u8 = 0x2b;

pub const COMMA: u8 = 0x2c;

pub const MINUS: u8 = 0x2d;

pub const DOT: u8 = 0x2e;

pub const SLASH: u8 = 0x2f;

pub const DIGIT_0: u8 = 0x30;

pub const DIGIT_7: u8 = 0x37;

pub const DIGIT_8: u8 = 0x38;

pub const DIGIT_9: u8 = 0x39;

pub const COLON: u8 = 0x3a;

pub const SEMI: u8 = 0x3b;

pub const LT: u8 = 0x3c;

pub const EQ: u8 = 0x3d;

pub const GT: u8 = 0x3e;

pub const QUESTION: u8 = 0x3f;

pub const AT: u8 = 0x40;

pub const UPPER_A: u8 = 0x41;

pub const UPPER_B: u8 = 0x42;

pub const UPPER_E: u8 = 0x45;

pub const UPPER_F: u8 = 0x46;

pub const UPPER_L: u8 = 0x4c;

pub const UPPER_P: u8 = 0x50;

pub const UPPER_U: u8 = 0x55;

pub const UPPER_X: u8 = 0x58;

pub const UPPER_Z: u8 = 0x5a;

pub const LBRACKET: u8 = 0x5b;

pub const BACKSLASH: u8 = 0x5c;

pub const RBRACKET: u8 = 0x5d;

pub const CARET: u8 = 0x5e;

pub const UNDERSCORE: u8 = 0x5f;

pub const BACKQUOTE: u8 = 0x60;

pub const LOWER_A: u8 = 0x61;

pub const LOWER_B: u8 = 0x62;

pub const LOWER_E: u8 = 0x65;

pub const LOWER_F: u8 = 0x66;

pub const LOWER_L: u8 = 0x6c;

pub const LOWER_N: u8 = 0x6e;

pub const LOWER_P: u8 = 0x70;

pub const LOWER_R: u8 = 0x72;

pub const LOWER_T: u8 = 0x74;

pub const LOWER_U: u8 = 0x75;

pub const LOWER_V: u8 = 0x76;

pub const LOWER_X: u8 = 0x78;

pub const LOWER_Z: u8 = 0x7a;

pub const LBRACE: u8 = 0x7b;

pub const PIPE: u8 = 0x7c;

pub const RBRACE: u8 = 0x7d;

pub const TILDE: u8 = 0x7e;

} // verus!
