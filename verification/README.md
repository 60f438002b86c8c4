# chacc

chacc is a compiler for C on x86-64 Linux. The compiler itself, from bytes of
source text to assembly text, is a library verified with Verus; the program
around it reads files, runs the assembler and the linker, and does floating-point
arithmetic.

## Layout

- `src/source.rs`, `src/tokenize/`: source files, tokens, literals.
- `src/preprocess/`: macros, directives, and what comes out of them.
- `src/types.rs`, `src/constexpr.rs`, `src/ast.rs`, `src/scope.rs`: what a program
  is made of.
- `src/parse/`: the parser. `grammar.rs` and `grammar_stmt.rs` say what each rule
  of the grammar does to the state of the parser, `laws.rs` what holds of
  declarations whatever is declared, and the other files do it.
- `src/codegen/`: the code generator. `text.rs` says which text stands for what,
  and `balance.rs` shows that code leaves the stack as it found it.
- `src/cli.rs`, `src/driver.rs`, `src/hostcc.rs`, `src/cc1.rs`: what the program
  decides about its command line, its stages, and its tools.
- `src/maps.rs`: the hash maps and hash sets that the rest is built on.
- `app/`: the program.
- `tests/e2e.rs` compiles whole programs and runs the assembly in a small
  interpreter.

## How to read the contracts

Most functions are described by a function of the same name on mathematical
values: what it leaves behind and what it returns, also when it fails. Errors are
values; the library prints nothing.

A file to include is not read by the library. `Preprocessor::preprocess` returns
its name, and `Preprocessor::enter_file` takes its text.

Floating-point numbers are carried around as their bits. Where a result is needed,
the library looks it up in a table; if it is not there, it returns the operation
as an error, and the caller adds the result and starts again.
