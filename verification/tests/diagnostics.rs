//! What is said about programs that are wrong or odd, and what is written for
//! programs that are not.

use std::collections::HashMap;

use chacc::codegen::Codegen;
use chacc::constexpr::{FloatAnswer, FloatQuery, FloatTable};
use chacc::error::{DiagnosticLevel, Error, Message, Warning};
use chacc::names::Names;
use chacc::parse::state::{HiddenNames, Parser};
use chacc::preprocess::directive::{Preprocessor, Step};
use chacc::preprocess::expand::MacroExpander;
use chacc::preprocess::sink::{PreprocessedTokens, PreprocessedWriter};
use chacc::source::{SourceMap, SourceSpan};
use chacc::tokenize::lower::{FloatLiteral, FloatLiterals, Lowered, PreTokenResolver};

const DIR: &str = "/tmp";

/// The result of a floating-point operation on constants.
fn float_answer(query: FloatQuery) -> u64 {
    let f = f64::from_bits;
    match query {
        FloatQuery::Round32(a) => ((f(a) as f32) as f64).to_bits(),
        FloatQuery::Bits32(a) => (f(a) as f32).to_bits() as u64,
        FloatQuery::FromI64(a) => (a as f64).to_bits(),
        FloatQuery::FromU64(a) => (a as f64).to_bits(),
        FloatQuery::ToI64(a) => (f(a) as i64) as u64,
        FloatQuery::ToU64(a) => f(a) as u64,
        FloatQuery::IsNonzero(a) => (f(a) != 0.0) as u64,
        FloatQuery::Neg(a) => (-f(a)).to_bits(),
        FloatQuery::Add(a, b) => (f(a) + f(b)).to_bits(),
        FloatQuery::Sub(a, b) => (f(a) - f(b)).to_bits(),
        FloatQuery::Mul(a, b) => (f(a) * f(b)).to_bits(),
        FloatQuery::Div(a, b) => (f(a) / f(b)).to_bits(),
        FloatQuery::Eq(a, b) => (f(a) == f(b)) as u64,
        FloatQuery::Lt(a, b) => (f(a) < f(b)) as u64,
        FloatQuery::Le(a, b) => (f(a) <= f(b)) as u64,
    }
}

fn float_table(answers: &[FloatAnswer]) -> FloatTable {
    let mut table = FloatTable::new();
    for answer in answers {
        table.push(answer.query, answer.bits);
    }
    table
}

fn show(span: SourceSpan, message: Message, map: &SourceMap, spellings: &Vec<Vec<u8>>) -> String {
    let text = message.render(spellings, map);
    match map.diagnostic(span, DiagnosticLevel::Error, text) {
        Some(diagnostic) => String::from_utf8_lossy(&diagnostic.render()).into_owned(),
        None => format!("{message:?}"),
    }
}

/// The words of some warnings.
fn words_of(warnings: &[Warning], map: &SourceMap, spellings: &Vec<Vec<u8>>) -> Vec<String> {
    warnings.iter().map(|w| String::from_utf8(w.message.render(spellings, map)).unwrap()).collect()
}

/// Compile a program into assembly, with the warnings of the compiler proper.
fn compile(
    stem: &str,
    source: &str,
    includes: &HashMap<&'static str, &'static str>,
) -> Result<(String, Vec<String>), String> {
    let path = format!("{DIR}/{stem}.c");
    let mut expander = MacroExpander::new(SourceMap::new(), Names::new());
    let tokens = match expander.tokenize_file(path.clone(), path, source.to_string()).unwrap() {
        Ok(tokens) => tokens,
        Err(Error::Terminate(span, message)) => {
            return Err(show(span, message, &expander.source_map, &expander.spellings));
        },
        Err(e) => return Err(format!("{e:?}")),
    };
    let mut pp = Preprocessor::new(expander, b"0.1.0", b"Jan  1 2000", b"00:00:00", &Vec::new(), &tokens)
        .map_err(|e| format!("{e:?}"))?;

    loop {
        match pp.preprocess() {
            Ok(Step::Done) => break,
            Ok(Step::More) => unreachable!(),
            Ok(Step::File(file)) => {
                let name = String::from_utf8(pp.expander.spellings[file.name].clone()).unwrap();
                let Some(content) = includes.get(name.as_str()) else {
                    return Err(format!("no such file: {name}"));
                };
                let path = format!("{DIR}/{name}");
                pp.enter_file(path.clone(), path, content.to_string()).map_err(|e| format!("{e:?}"))?;
            },
            Err(Error::Terminate(span, message)) => {
                return Err(show(span, message, &pp.expander.source_map, &pp.expander.spellings));
            },
            Err(e) => return Err(format!("{e:?}")),
        }
    }

    let Preprocessor { expander, out, .. } = pp;
    let MacroExpander { source_map, mut names, spellings, .. } = expander;
    let hidden = HiddenNames {
        va_area: names.intern(b"__va_area__"),
        func: names.intern(b"__func__"),
        function: names.intern(b"__FUNCTION__"),
    };

    let mut literals = FloatLiterals::new();
    let mut found = Vec::new();
    {
        let resolver = PreTokenResolver::new(&source_map, &spellings, &names, &literals);
        for token in &out {
            if let Some((is_hex, body)) = resolver.float_literal(*token) {
                found.push((is_hex, body));
            }
        }
    }
    for (is_hex, body) in found {
        let text = String::from_utf8(body.clone()).unwrap();
        let value = if is_hex {
            hexf_parse::parse_hexf64(&text, false).ok()
        } else {
            text.parse::<f64>().ok()
        };
        literals.push(FloatLiteral { is_hex, body, value: value.map(f64::to_bits) });
    }

    let mut lowered = Lowered::new();
    let resolver = PreTokenResolver::new(&source_map, &spellings, &names, &literals);
    let tokens = match (PreprocessedTokens { tokens: out }).lower(&resolver, &mut lowered) {
        Ok(tokens) => tokens,
        Err(Error::Terminate(span, message)) => return Err(show(span, message, &source_map, &spellings)),
        Err(e) => return Err(format!("{e:?}")),
    };

    let mut answers: Vec<FloatAnswer> = Vec::new();
    loop {
        let mut parser = Parser::new(
            tokens.clone(),
            lowered.strings.clone(),
            float_table(&answers),
            false,
            hidden,
            names.texts.clone(),
        );
        let floats = float_table(&answers);
        let generated = parser
            .parse_program()
            .and_then(|program| Codegen::new(&source_map, &names.texts, &floats).generate(program));
        match generated {
            Ok(text) => {
                let mut warnings = words_of(&lowered.warnings, &source_map, &spellings);
                warnings.extend(words_of(&parser.warnings, &source_map, &spellings));
                return Ok((String::from_utf8(text).unwrap(), warnings));
            },
            Err(Error::NeedsFloat(query)) => {
                answers.push(FloatAnswer { query, bits: float_answer(query) });
            },
            Err(Error::Terminate(span, message)) => return Err(show(span, message, &source_map, &spellings)),
            Err(e) => return Err(format!("{e:?}")),
        }
    }
}


fn try_compile(source: &str) -> Result<String, String> {
    compile("t", source, &HashMap::new()).map(|(text, _)| text)
}

fn expect_warnings(cases: &[(&str, &[&str])]) {
    let mut wrong = Vec::new();
    for (source, words) in cases {
        let found = compile("t", source, &HashMap::new()).map(|(_, warnings)| warnings);
        let expected: Vec<String> = words.iter().map(|w| w.to_string()).collect();
        if found != Ok(expected) {
            wrong.push(format!("{source:?}: {found:?} instead of {words:?}"));
        }
    }
    assert_eq!(wrong, Vec::<String>::new());
}

/// The words of the error in a program.
fn error_of(source: &str) -> String {
    match try_compile(source) {
        Ok(_) => "none".to_string(),
        Err(text) => {
            let line = text.lines().next().unwrap_or("").to_string();
            match line.split_once("error: ") {
                Some((_, words)) => words.to_string(),
                None => line,
            }
        },
    }
}

fn expect_errors(cases: &[(&str, &str)]) {
    let mut wrong = Vec::new();
    for (source, words) in cases {
        let found = error_of(source);
        if found != *words {
            wrong.push(format!("{source:?}: {found:?} instead of {words:?}"));
        }
    }
    assert_eq!(wrong, Vec::<String>::new());
}

/// What is left of a program after preprocessing, and the warnings.
fn preprocess(source: &str) -> Result<(String, Vec<String>), String> {
    let mut expander = MacroExpander::new(SourceMap::new(), Names::new());
    let tokens = match expander.tokenize_file("/tmp/t.c".to_string(), "t.c".to_string(), source.to_string()).unwrap() {
        Ok(tokens) => tokens,
        Err(Error::Terminate(span, message)) => {
            return Err(show(span, message, &expander.source_map, &expander.spellings));
        },
        Err(e) => return Err(format!("{e:?}")),
    };
    let mut pp = Preprocessor::new(expander, b"1.2.3", b"Feb  3 2001", b"04:05:06", &Vec::new(), &tokens)
        .map_err(|e| format!("{e:?}"))?;
    loop {
        match pp.preprocess() {
            Ok(Step::Done) => break,
            Ok(Step::More) => unreachable!(),
            Ok(Step::File(file)) => {
                let name = String::from_utf8(pp.expander.spellings[file.name].clone()).unwrap();
                pp.enter_file(format!("/tmp/{name}"), name.clone(), format!("from {name} __FILE__ __LINE__\n"))
                    .map_err(|e| format!("{e:?}"))?;
            },
            Err(Error::Terminate(span, message)) => {
                return Err(show(span, message, &pp.expander.source_map, &pp.expander.spellings));
            },
            Err(e) => return Err(format!("{e:?}")),
        }
    }
    let mut writer = PreprocessedWriter::new();
    writer.emit_all(&pp.expander, &pp.out);
    let text = String::from_utf8(writer.into_bytes()).unwrap();
    let warnings = words_of(&pp.expander.warnings, &pp.expander.source_map, &pp.expander.spellings);
    Ok((text, warnings))
}

/// What is left of a program after preprocessing, as one line.
fn preprocessed(source: &str) -> String {
    match preprocess(source) {
        Ok((text, _)) => text.split_whitespace().collect::<Vec<_>>().join(" "),
        Err(text) => {
            let line = text.lines().next().unwrap_or("").to_string();
            match line.split_once("error: ") {
                Some((_, words)) => format!("error: {words}"),
                None => line,
            }
        },
    }
}

fn expect_preprocessed(cases: &[(&str, &str)]) {
    let mut wrong = Vec::new();
    for (source, text) in cases {
        let found = preprocessed(source);
        if found != *text {
            wrong.push(format!("{source:?}: {found:?} instead of {text:?}"));
        }
    }
    assert_eq!(wrong, Vec::<String>::new());
}

#[test]
fn tokens_are_rejected() {
    expect_errors(&[
        ("int x = 1 /* no end", "unclosed block comment"),
        ("char *s = \"abc", "unclosed string literal"),
        ("int c = 'a", "unclosed char literal"),
        ("int c = '';", "empty char constant"),
        ("int c = 'ab';", "multi-character char constant"),
        ("int \u{1};", "invalid token"),
        ("int x = 0xfoo;", "invalid integer literal"),
        ("int x = 09;", "invalid integer literal"),
        ("int x = 1lul;", "invalid integer literal"),
        ("double x = 1.2e;", "invalid floating-point literal"),
        ("char *s = \"\\xg\";", "invalid hex escape sequence"),
        ("char *s = \"\\u12\";", "incomplete universal character name"),
        ("char *s = \"\\ud800\";", "invalid universal character name"),
    ]);
}

#[test]
fn declarations_are_rejected() {
    expect_errors(&[
        ("int int x;", "multiple types in declaration specifiers"),
        ("double unsigned x;", "multiple types in declaration specifiers"),
        ("typedef int T; T unsigned x;", "multiple types in declaration specifiers"),
        ("struct A { int x; } unsigned y;", "multiple types in declaration specifiers"),
        ("static extern int x;", "multiple storage classes in declaration specifiers"),
        ("int main() { int x; int x; }", "redefinition of local variable"),
        ("int x = 1; int x = 2;", "redefinition of global variable"),
        ("int x; short x;", "conflicting types"),
        ("int f(void); long f(void);", "conflicting types"),
        ("int f() { return 1; } int f() { return 2; }", "redefinition of function"),
        ("typedef int x; typedef short x;", "conflicting types"),
        ("typedef int x; int x;", "redeclared as a different kind of symbol"),
        ("int x; typedef int x;", "redeclared as a different kind of symbol"),
        ("int f(void); int f;", "redeclared as a different kind of symbol"),
        ("static int x; int x;", "non-static declaration follows static declaration"),
        ("int x; static int x;", "static declaration follows non-static declaration"),
        ("struct A { int x; }; struct A { int y; };", "redefinition of struct tag"),
        ("union A { int x; }; union A { int y; };", "redefinition of union tag"),
        ("struct A { int x; }; enum A { B };", "defined as wrong kind of tag"),
        ("enum A { B }; enum A { C };", "redeclaration of enum tag"),
        ("struct A { int x; }; enum A y;", "not an enum tag"),
        ("enum A { B, B };", "redeclaration of enumerator"),
        ("enum A x;", "unknown enum type"),
        ("int main() { void x; }", "variable has incomplete type"),
        ("struct A x;", "variable has incomplete type"),
        ("struct A { struct B x; };", "field has incomplete type"),
        ("int a[-1];", "array size is negative or out of range"),
        ("int f(void x);", "parameter has incomplete type"),
        ("int f(void, int x);", "'void' must be the only parameter"),
        ("int f(int x, int x) { return x; }", "redefinition of parameter"),
        ("int f(int) { return 1; }", "missing parameter name"),
        ("int (f)(int a) { return b; }", "undefined identifier"),
        ("int (f)(int a) { return a; }", "none"),
        ("int (*f)(int a);", "none"),
        ("double long x; int f(int a, int) { return a; }", "missing parameter name"),
        ("auto int x;", "storage class specifier is not allowed in file-scope declaration"),
        ("int x = ;", "expected an expression"),
        ("int x", "expected ',' or ';'"),
        ("struct { int x }", "expected ';'"),
    ]);
}

#[test]
fn statements_are_rejected() {
    expect_errors(&[
        ("int main() { break; }", "break statement not within a loop or switch"),
        ("int main() { continue; }", "continue statement not within a loop"),
        ("int main() { case 1: return 0; }", "case label not within a switch"),
        ("int main() { default: return 0; }", "default label not within a switch"),
        ("int main() { switch (1) { case 1: case 1: return 0; } }", "duplicate case value"),
        ("int main() { switch (1) { default: default: return 0; } }", "multiple default labels in one switch"),
        ("int main() { switch (1.0) { } }", "switch condition is not an integer"),
        ("int main() { goto a; }", "use of undeclared label"),
        ("int main() { a: a: return 0; }", "duplicate label"),
        ("int main() { do ; return 0; }", "expected 'while'"),
    ]);
}

#[test]
fn expressions_are_rejected() {
    expect_errors(&[
        ("int main() { return x; }", "undefined identifier"),
        ("int main() { return f(); }", "implicit declaration of a function"),
        ("int main() { int x; return *x; }", "invalid pointer dereference"),
        ("int main() { void *p; *p; }", "dereferencing a void pointer"),
        ("int main() { 1 = 2; }", "not an lvalue"),
        ("int main() { int x; x.y; }", "request for member in something that is not a struct or union"),
        ("int main() { struct { int a; } x; x.b; }", "no such member"),
        ("int main() { struct A *p; p->x; }", "request for member in an incomplete type"),
        ("int main() { int x; x(); }", "not a function"),
        ("int f(int a); int main() { return f(); }", "too few arguments"),
        ("int f(int a); int main() { return f(1, 2); }", "too many arguments"),
        ("int main() { return sizeof(struct A); }", "cannot apply 'sizeof' to incomplete type"),
        ("int main() { return _Alignof(struct A); }", "cannot apply '_Alignof' to incomplete type"),
        ("int main() { int *p; int *q; p + q; }", "invalid operands"),
        ("int x = 1 / 0;", "division by zero"),
        ("int y; int x = y;", "not a compile-time constant"),
        ("int main() { char s[2] = \"abc\"; return 0; }", "none"),
        ("int main() { return ({ ; }); }", "statement expression returning void is not supported"),
    ]);
}

#[test]
fn directives_are_rejected() {
    expect_preprocessed(&[
        ("#foo\n", "error: invalid preprocessor directive"),
        ("#if\n#endif\n", "error: bare #if without an expression"),
        ("#if 1\n", "error: unterminated #if"),
        ("#ifdef A\n", "error: unterminated #ifdef"),
        ("#ifndef A\n", "error: unterminated #ifndef"),
        ("#if 0\n#elif\n#endif\n", "error: bare #elif without an expression"),
        ("#elif 1\n", "error: #elif without #if"),
        ("#else\n", "error: #else without #if"),
        ("#endif\n", "error: #endif without #if"),
        ("#if 1\n#else\n#elif 1\n#endif\n", "error: #elif after #else"),
        ("#if 1\n#else\n#else\n#endif\n", "error: #else after #else"),
        ("#define\n", "error: no macro name given in #define"),
        ("#undef\n", "error: no macro name given in #undef"),
        ("#ifdef\n#endif\n", "error: no macro name given in #ifdef"),
        ("#ifndef\n#endif\n", "error: no macro name given in #ifndef"),
        ("#define 1\n", "error: macro names must be identifiers"),
        ("#include\n", "error: bare #include without a filename"),
        ("#include foo\n", "error: expected a filename"),
        ("#include \"\"\n", "error: empty filename"),
        ("#if defined\n#endif\n", "error: expected an identifier after 'defined'"),
        ("#if defined(A\n#endif\n", "error: missing ')' after 'defined'"),
        ("#if 1 / 0\n#endif\n", "error: division by zero"),
        ("#if \"a\"\n#endif\n", "error: string literal is not valid in preprocessor expressions"),
        ("#if 1.0\n#endif\n", "error: floating-point literal is not valid in preprocessor expressions"),
        ("#error some  words here\n", "error: some words here"),
    ]);
}

#[test]
fn macro_calls_are_rejected() {
    expect_preprocessed(&[
        ("#define M(x) x\nM()\n", ""),
        ("#define M(x, y) x y\nM(1)\n", "error: too few arguments for macro call (expected 2)"),
        ("#define M(x) x\nM(1, 2)\n", "error: too many arguments for macro call (expected 1)"),
        ("#define M(x) x\nM(1\n", "error: unterminated macro call"),
        ("#define M(x) #y\nM(1)\n", "error: '#' is not followed by a macro parameter"),
        ("#define M ## a\nM\n", "error: '##' cannot appear at start of macro expansion"),
        ("#define M a ##\nM\n", "error: '##' cannot appear at end of macro expansion"),
        ("#define M(x, y) x ## y\nM(+, a)\n", "error: pasting formed multiple preprocessing tokens: '+a'"),
    ]);
}

#[test]
fn comments_are_not_pasted() {
    for (source, pasted) in [("#define M(x, y) x ## y\nM(/, /)\n", "//"), ("#define M(x, y) x ## y\nM(/, *)\n", "/*")] {
        let found = preprocessed(source);
        let words = format!("error: pasting formed an invalid preprocessing token: '{pasted}'; see ");
        assert!(found.starts_with(&words), "{found}");
    }
}

#[test]
fn macros_are_expanded() {
    expect_preprocessed(&[
        ("#define A 1 + 2\nA * A\n", "1 + 2 * 1 + 2"),
        ("#define A B\n#define B A\nA B\n", "A B"),
        ("#define F(x) [x]\nF(1) F (2) F F(F)(3)\n", "[1] [2] F [F](3)"),
        ("#define F(x, ...) x: __VA_ARGS__;\nF(1) F(1, 2, 3)\n", "1:; 1: 2, 3;"),
        ("#define S(x) #x\nS( a  \"b\\n\" 'c' )\n", "\"a \\\"b\\\\n\\\" 'c'\""),
        ("#define C(x, y) x ## y\nC(a, 1) C(, b) C(-, =) C(1, e3)\n", "a1 b -= 1e3"),
        ("#define X 5\n#define C(x, y) x ## y\n#define D(x, y) C(x, y)\nC(X, X) D(X, X)\n", "XX 55"),
        ("#define f(a) a*g\n#define g(a) f(a)\nf(2)(9)\n", "2*9*g"),
        ("#define A 1\n#undef A\nA\n", "A"),
        ("__LINE__ __FILE__\n__LINE__\n", "1 \"t.c\" 2"),
        ("__DATE__ __TIME__\n", "\"Feb 3 2001\" \"04:05:06\""),
        ("__STDC__ __x86_64__\n", "1 1"),
    ]);
}

#[test]
fn branches_are_chosen() {
    expect_preprocessed(&[
        ("#if 0\na\n#elif 1\nb\n#elif 1\nc\n#else\nd\n#endif\n", "b"),
        ("#if 1\na\n#elif 1\nb\n#else\nd\n#endif\n", "a"),
        ("#if 0\na\n#elif 0\nb\n#else\nd\n#endif\n", "d"),
        ("#if 0\n#if 1\na\n#else\nb\n#endif\n#else\nc\n#endif\n", "c"),
        ("#ifdef A\na\n#else\nb\n#endif\n#ifndef A\nc\n#else\nd\n#endif\n", "b c"),
        ("#define A\n#ifdef A\na\n#else\nb\n#endif\n#ifndef A\nc\n#else\nd\n#endif\n", "a d"),
        ("#define A 3\n#if defined(A) && A == 3 && !defined B && B == 0\na\n#endif\n", "a"),
        ("#if -1 > 0u\na\n#else\nb\n#endif\n", "a"),
        ("#if 'a' == 97 && 1 ? 1 : 0\na\n#endif\n", "a"),
        ("#include \"x.h\"\nafter\n#include <y.h>\n", "from x.h \"x.h\" 1 after from y.h \"y.h\" 1"),
        ("#define N \"x.h\"\n#include N\n", "from x.h \"x.h\" 1"),
    ]);
}

#[test]
fn redefinitions_are_warned_about() {
    let (text, warnings) = preprocess("#define A 1\n#define A 1\n#define A 2\nA\n#undef A b\n#warning so it is\n").unwrap();
    assert_eq!(text.trim(), "2");
    assert_eq!(warnings, vec!["redefinition of macro", "extra tokens after #undef", "so it is"]);
}

#[test]
fn lines_and_spaces_are_kept() {
    let (text, _) = preprocess("int  a; /* c */ int b;\n  int c;\nint \\\nd;\n").unwrap();
    assert_eq!(text.trim(), "int a; int b;\nint c;\nint d;");
}

#[test]
fn diagnostics_show_the_source() {
    let text = try_compile("int x;\nint main() { return nope + 1; }\n").unwrap_err();
    assert_eq!(
        text,
        "/tmp/t.c:2:21: error: undefined identifier\nint main() { return nope + 1; }\n                    ^~~~",
    );
}

#[test]
fn diagnostics_look_past_joined_lines() {
    let text = try_compile("int x; \\\nint y = nope;\n").unwrap_err();
    assert_eq!(text, "/tmp/t.c:2:9: error: undefined identifier\nint y = nope;\n        ^~~~");
}

#[test]
fn statics_are_not_exported() {
    let text = try_compile("static int a = 1; int b = 2; char *s = \"x\"; static int f() { return 0; } int g() { return f(); }").unwrap();
    assert!(text.contains("  .globl b\n"));
    assert!(text.contains("  .globl s\n"));
    assert!(text.contains("  .globl g\n"));
    assert!(!text.contains("  .globl a\n"));
    assert!(!text.contains("  .globl f\n"));
    assert!(!text.contains("  .globl .L"));
}

#[test]
fn declared_functions_are_not_emitted() {
    let text = try_compile("int f(void); int f(void); int main() { return f(); }").unwrap();
    assert!(!text.contains("\nf:"));
    assert!(text.contains("f@GOTPCREL(%rip)"));
}

#[test]
fn initial_values_are_emitted() {
    let text = try_compile("int x[3] = {1, 258}; int *p = &x[1]; int z;").unwrap();
    assert!(text.contains("x:\n"));
    assert!(text.contains("  .byte 1\n  .byte 0\n  .byte 0\n  .byte 0\n  .byte 2\n  .byte 1\n"));
    assert!(text.contains("  .quad x+4\n"));
    assert!(text.contains("z:\n  .zero 4\n"));
}

#[test]
fn frames_are_aligned() {
    let text = try_compile("int main() { char c; long l; return 0; }").unwrap();
    assert!(text.contains("  sub $16, %rsp\n"));
    let text = try_compile("int main() { char c[17]; return 0; }").unwrap();
    assert!(text.contains("  sub $32, %rsp\n"));
}

#[test]
fn odd_programs_are_warned_about() {
    expect_warnings(&[
        ("int main() { return 0; }", &[]),
        ("void f() { return 1; }", &["return with a value in a void function"]),
        ("int f() { return; }", &["return with no value in a non-void function"]),
        ("static x;", &["missing type specifier, defaults to 'int'"]),
        ("int;", &["useless type name in empty declaration"]),
        ("struct A { int; } a;", &["declaration does not declare anything"]),
        ("char *s = \"\\q\";", &["unknown escape sequence"]),
        ("char *s = \"\\777\";", &["octal escape sequence out of range"]),
        ("char s[2] = \"abc\";", &["initializer string is too long"]),
        ("int a[1] = {1, 2};", &["excess elements in array initializer"]),
        ("struct { int x; } s = {1, 2};", &["excess elements in struct initializer"]),
    ]);
}
