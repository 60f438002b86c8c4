//! The verified core of the Cha C compiler (chacc).

use vstd::prelude::*;

pub mod ascii;
pub mod ast;
pub mod cc1;
pub mod cli;
pub mod codegen;
pub mod constexpr;
pub mod driver;
pub mod error;
pub mod hostcc;
pub mod maps;
pub mod names;
pub mod parse;
pub mod preprocess;
pub mod scope;
pub mod source;
pub mod tokenize;
pub mod types;
pub mod utils;
