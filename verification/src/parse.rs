//! A recursive-descent parser for the C programming language.

use vstd::prelude::*;

pub mod constants;
pub mod construct;
pub mod decl;
pub mod eval;
pub mod expr;
pub mod grammar;
pub mod grammar_stmt;
pub mod infer;
pub mod init;
pub mod jumps;
pub mod labels;
pub mod laws;
pub mod place;
pub mod precedence;
pub mod state;
pub mod stmt;
