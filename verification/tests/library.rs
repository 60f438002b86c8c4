//! The parts of the compiler, each on its own.

use chacc::cc1::{find_search_paths, include_paths};
use chacc::cli::{find_long_option, find_raw_option, find_short_option, first_found, Cli, CliError, CliInputKind, CliOption, RawOption};
use chacc::codegen::{assign_lvar_offsets, fp_mnemonic_sz, fp_mnemonic_sz_from_size};
use chacc::codegen::text::{ArgRegIndex, ArgRegs, ScalarWidth};
use chacc::constexpr::{ConstValue, FloatQuery, FloatTable, RawConstValue};
use chacc::driver::{assemble_command, compile_command, link_command, name_saved, plan, Driver, JobPath, LinkFiles, Stage, Task};
use chacc::error::{DeclspecContext, DiagnosticLevel, Error, Message};
use chacc::ast::LocalVar;
use chacc::hostcc::{find_system_includes, Hostcc};
use chacc::names::Names;
use chacc::parse::state::{HiddenNames, Parser};
use chacc::source::{SourceMap, SourceSpan};
use chacc::tokenize::lower::find_keyword;
use chacc::tokenize::scan::{decode_char, Tokenizer};
use chacc::tokenize::{Keyword, PreTokenKind, Punct, Token, TokenKind};
use chacc::types::{ArithType, ConstType, Member, Symbol, Type, TypeStore};
use chacc::utils::{align_down_to, align_up_to, datetime};

const INT: Type = Type::Arith(ArithType::Int);
const CHAR: Type = Type::Arith(ArithType::Char);
const LONG: Type = Type::Arith(ArithType::Long);
const DOUBLE: Type = Type::Arith(ArithType::Double);

fn words(args: &[&str]) -> Vec<Vec<u8>> {
    args.iter().map(|a| a.as_bytes().to_vec()).collect()
}

#[test]
fn alignment() {
    assert_eq!(align_up_to(0, 8), 0);
    assert_eq!(align_up_to(1, 8), 8);
    assert_eq!(align_up_to(8, 8), 8);
    assert_eq!(align_up_to(7, 3), 9);
    assert_eq!(align_down_to(15, 8), 8);
    assert_eq!(align_down_to(8, 3), 6);
}

#[test]
fn dates_and_times() {
    let (date, time) = datetime(0, 2, 2026, 3, 4, 5);
    assert_eq!(date, b"Jan  2 2026");
    assert_eq!(time, b"03:04:05");
    let (date, time) = datetime(11, 31, 987, 23, 59, 60);
    assert_eq!(date, b"Dec 31 0987");
    assert_eq!(time, b"23:59:60");
}

#[test]
fn arithmetic_conversions() {
    assert_eq!(ArithType::Char.promote_int(), Some(ArithType::Int));
    assert_eq!(ArithType::Double.promote_int(), None);
    assert_eq!(ArithType::UInt.coerce(ArithType::Int), ArithType::UInt);
    assert_eq!(ArithType::UInt.coerce(ArithType::Long), ArithType::Long);
    assert_eq!(ArithType::Float.coerce(ArithType::ULong), ArithType::Float);
    assert_eq!(ArithType::Char.coerce(ArithType::UShort), ArithType::Int);
    assert_eq!(ConstType::Ptr.width(), 64);
}

fn member(ty: Type, name: usize) -> Member {
    Member { ty, name: Symbol(name), align: None, offset: 0, bit_field: None }
}

#[test]
fn struct_layout() {
    let mut types = TypeStore::default();
    let ty = types
        .struct_or_union(true, Some(vec![member(CHAR, 0), member(INT, 1), member(CHAR, 2), member(LONG, 3), member(CHAR, 4)]))
        .unwrap();
    assert_eq!(types.size(ty), 32);
    assert_eq!(types.align(ty), 8);
    let offsets: Vec<usize> =
        types.as_struct_or_union(ty).unwrap().members.as_ref().unwrap().iter().map(|m| m.offset).collect();
    assert_eq!(offsets, vec![0, 4, 8, 16, 24]);

    let ty = types.struct_or_union(false, Some(vec![member(CHAR, 0), member(INT, 1)])).unwrap();
    assert_eq!(types.size(ty), 4);
    assert_eq!(types.align(ty), 4);
}

#[test]
fn floating_point_chunks() {
    let mut types = TypeStore::default();
    let float = Type::Arith(ArithType::Float);
    for ty in [INT, LONG, Type::Void] {
        assert!(!types.is_fp_chunk(ty, 0, 8));
        assert!(!types.is_fp_chunk(ty, 8, 16));
    }
    assert!(types.is_fp_chunk(DOUBLE, 0, 8));
    assert!(types.is_fp_chunk(DOUBLE, 8, 16));
    let pointer = types.ptr(DOUBLE);
    assert!(!types.is_fp_chunk(pointer, 8, 16));
    let mixed = types.struct_or_union(true, Some(vec![member(DOUBLE, 0), member(LONG, 1)])).unwrap();
    assert!(types.is_fp_chunk(mixed, 0, 8));
    assert!(!types.is_fp_chunk(mixed, 8, 16));
    let half = types.struct_or_union(true, Some(vec![member(float, 0), member(INT, 1)])).unwrap();
    assert!(!types.is_fp_chunk(half, 0, 8));
    assert!(types.is_fp_chunk(half, 0, 4));
    let floats = types.array(float, Some(3)).unwrap();
    assert!(types.is_fp_chunk(floats, 0, 8));
    let outer = types.struct_or_union(true, Some(vec![member(floats, 0), member(CHAR, 1)])).unwrap();
    assert!(types.is_fp_chunk(outer, 0, 8));
    assert!(!types.is_fp_chunk(outer, 8, 16));
    // A field that starts before the chunk and reaches into it counts too
    let packed = Member { align: Some(1), ..member(LONG, 1) };
    let shifted = types.struct_or_union(true, Some(vec![member(float, 0), packed])).unwrap();
    assert!(!types.is_fp_chunk(shifted, 8, 16));
    let open = types.incomplete_struct_or_union(true);
    assert!(!types.is_fp_chunk(open, 0, 8));
}

#[test]
fn types_compare_by_structure() {
    let mut types = TypeStore::default();
    let a = types.ptr(INT);
    let b = types.ptr(INT);
    let c = types.ptr(CHAR);
    assert!(types.same_type(a, b));
    assert!(!types.same_type(a, c));
    let whole = types.array(INT, Some(3)).unwrap();
    let open = types.array(INT, None).unwrap();
    let other = types.array(INT, Some(4)).unwrap();
    assert_eq!(types.merge(whole, open), Some(whole));
    assert_eq!(types.merge(open, whole), Some(whole));
    assert_eq!(types.merge(whole, other), None);
    assert!(types.is_incomplete(open));
    assert_eq!(types.size(whole), 12);
    assert_eq!(types.array(LONG, Some(usize::MAX)), None);
}

#[test]
fn locals_do_not_overlap() {
    let types = TypeStore::default();
    let local = |ty| LocalVar { ty, align: None, offset: 0 };
    let mut locals = vec![local(CHAR), local(LONG), local(INT)];
    let size = assign_lvar_offsets(&types, &mut locals, &Vec::new()).unwrap();
    let offsets: Vec<i64> = locals.iter().map(|l| l.offset).collect();
    assert_eq!(offsets, vec![-17, -16, -4]);
    assert_eq!(size, 32);
}

#[test]
fn argument_registers_run_out() {
    let types = TypeStore::default();
    let mut rindex = ArgRegIndex { fp: 0, gp: 5 };
    assert_eq!(chacc::codegen::arg_regs_of(&types, INT, &mut rindex), ArgRegs::One(false));
    assert_eq!(rindex, ArgRegIndex { fp: 0, gp: 6 });
    assert_eq!(chacc::codegen::arg_regs_of(&types, INT, &mut rindex), ArgRegs::Stack);
    assert_eq!(chacc::codegen::arg_regs_of(&types, DOUBLE, &mut rindex), ArgRegs::One(true));
    assert_eq!(rindex, ArgRegIndex { fp: 1, gp: 6 });
}

#[test]
fn register_names() {
    let width = ScalarWidth::from_size(4).unwrap();
    assert_eq!(width.acc_reg(), "%eax");
    assert_eq!(width.gp_arg_reg(0), "%edi");
    assert_eq!(ScalarWidth::from_size(3), None);
    assert_eq!(fp_mnemonic_sz(DOUBLE), "d");
    assert_eq!(fp_mnemonic_sz_from_size(4), "s");
}

const I8: ConstType = ConstType::Arith(ArithType::Char);
const U8: ConstType = ConstType::Arith(ArithType::UChar);
const I32: ConstType = ConstType::Arith(ArithType::Int);
const U32: ConstType = ConstType::Arith(ArithType::UInt);
const I64: ConstType = ConstType::Arith(ArithType::Long);
const F64: ConstType = ConstType::Arith(ArithType::Double);

#[test]
fn constants_wrap() {
    let fp = FloatTable::new();
    let v = ConstValue::integer(300, U8);
    assert_eq!(v.int_bits(), 44);
    let v = ConstValue::integer(200, I8);
    assert_eq!(v.int_bits_as_signed(), -56);
    assert_eq!(v.cast(I64, &fp).unwrap().to_i64(), Some(-56));
    assert_eq!(v.cast(U32, &fp).unwrap().int_bits(), 0xffff_ffc8);
    assert_eq!(v.cast(I64, &fp).unwrap().cast(I64, &fp), v.cast(I64, &fp));
    let max = ConstValue::integer(0x7fff_ffff, I32);
    let one = ConstValue::integer(1, I32);
    assert_eq!(max.add(one, I32, &fp).unwrap().int_bits_as_signed(), -0x8000_0000);
    assert_eq!(one.neg(I32, &fp).unwrap().int_bits_as_signed(), -1);
    let minus_seven = ConstValue::integer(7, I32).neg(I32, &fp).unwrap();
    let two = ConstValue::integer(2, I32);
    assert_eq!(minus_seven.div(two, I32, &fp).unwrap().unwrap().int_bits_as_signed(), -3);
    assert_eq!(minus_seven.rem(two, I32).unwrap().int_bits_as_signed(), -1);
    assert_eq!(minus_seven.rem(ConstValue::integer(0, I32), I32), None);
    let (q, r) = (minus_seven.div(two, I32, &fp).unwrap().unwrap(), minus_seven.rem(two, I32).unwrap());
    assert_eq!(q.mul(two, I32, &fp).unwrap().add(r, I32, &fp), Ok(minus_seven));
    let (min, minus_one) = (ConstValue::integer(0x8000_0000, I32), ConstValue::integer(0xffff_ffff, I32));
    let (q, r) = (min.div(minus_one, I32, &fp).unwrap().unwrap(), min.rem(minus_one, I32).unwrap());
    assert_eq!(q.mul(minus_one, I32, &fp).unwrap().add(r, I32, &fp), Ok(min));
    assert_eq!(minus_seven.bit_shr(one, I32).int_bits_as_signed(), -4);
    assert_eq!(minus_seven.lt(two, I32, &fp).unwrap().int_bits(), 1);
}

#[test]
fn float_operations_are_asked_for() {
    let mut fp = FloatTable::new();
    let a = 1.5f64.to_bits();
    let v = ConstValue::float(a, F64, &fp).unwrap();
    assert_eq!(v.raw, RawConstValue::Float(a));
    assert_eq!(v.add(v, F64, &fp), Err(FloatQuery::Add(a, a)));
    fp.push(FloatQuery::Add(a, a), 3.0f64.to_bits());
    assert_eq!(v.add(v, F64, &fp).unwrap().raw, RawConstValue::Float(3.0f64.to_bits()));
    assert_eq!(v.cast(I32, &fp), Err(FloatQuery::ToI64(a)));
}

#[test]
fn names_are_interned_once() {
    let mut names = Names::new();
    let a = names.intern(b"a");
    let b = names.intern(b"b");
    assert_ne!(a, b);
    assert_eq!(names.intern(b"a"), a);
    assert!(names.is(b, "b"));
    assert!(!names.is(b, "a"));
}

#[test]
fn characters_are_decoded() {
    assert_eq!(decode_char(b"a", 0), Some((0x61, 1)));
    assert_eq!(decode_char("\u{e9}".as_bytes(), 0), Some((0xe9, 2)));
    assert_eq!(decode_char("\u{20ac}".as_bytes(), 0), Some((0x20ac, 3)));
    assert_eq!(decode_char("\u{1f600}".as_bytes(), 0), Some((0x1f600, 4)));
    assert_eq!(decode_char(b"\xff", 0), None);
    assert_eq!(decode_char(b"", 0), None);
}

fn tokens_of(text: &str, allow_comment: bool) -> Vec<(PreTokenKind, usize, usize)> {
    let mut map = SourceMap::new();
    let mut names = Names::new();
    let id = map.push("t.c".to_string(), "t.c".to_string(), text.to_string()).unwrap();
    let tokens = Tokenizer::new(map.get(id)).tokenize(&mut names, allow_comment, true).unwrap();
    tokens.iter().map(|t| (t.kind, t.span.offset, t.span.len)).collect()
}

#[test]
fn tokens_are_in_order() {
    let p = PreTokenKind::Punct;
    assert_eq!(
        tokens_of("a+++b <<= .5e+3 L'x' u8\"y\" ...// end", true),
        vec![
            (PreTokenKind::Ident(Symbol(0)), 0, 1),
            (p(Punct::PlusPlus), 1, 2),
            (p(Punct::Plus), 3, 1),
            (PreTokenKind::Ident(Symbol(1)), 4, 1),
            (p(Punct::ShlEq), 6, 3),
            (PreTokenKind::NumLit, 10, 5),
            (PreTokenKind::CharLit, 16, 4),
            (PreTokenKind::StrLit, 21, 5),
            (p(Punct::Ellipsis), 27, 3),
            (PreTokenKind::Eof, 36, 0),
        ],
    );
    assert_eq!(tokens_of("a /", false).len(), 3);
    // Joined lines are one line
    assert_eq!(tokens_of("a\\\nb", true), vec![(PreTokenKind::Ident(Symbol(0)), 0, 2), (PreTokenKind::Eof, 2, 0)]);
}

#[test]
fn comments_are_invalid_unless_allowed() {
    for (text, offset) in [("//", 0), ("a // b", 2), ("/* b */", 0), ("1+/*", 2)] {
        let mut map = SourceMap::new();
        let mut names = Names::new();
        let id = map.push_virtual(text.as_bytes(), None).unwrap();
        assert_eq!(
            Tokenizer::new(map.get(id)).tokenize(&mut names, false, false),
            Err(Error::Terminate(SourceSpan { id, offset, len: 1 }, Message::InvalidToken)),
        );
    }
}

#[test]
fn keywords_and_punctuators_are_spelled() {
    assert_eq!(find_keyword(b"while"), Some(Keyword::While));
    assert_eq!(find_keyword(b"__restrict__"), Some(Keyword::Restrict));
    assert_eq!(find_keyword(b"whil"), None);
    assert_eq!(Punct::ShrEq.text(), ">>=");
    assert_eq!(Punct::Arrow.text(), "->");
}

#[test]
fn tokens_tell_what_they_hold() {
    let span = SourceSpan { id: 0, offset: 0, len: 1 };
    let num = Token { kind: TokenKind::Num(5, INT), span };
    let flonum = Token { kind: TokenKind::Flonum(7, DOUBLE), span };
    let string = Token { kind: TokenKind::Str(2, CHAR), span };
    assert_eq!(num.as_num(), Some((5, INT)));
    assert_eq!(num.as_flonum(), None);
    assert_eq!(flonum.as_flonum(), Some((7, DOUBLE)));
    assert_eq!(flonum.as_str(), None);
    assert_eq!(string.as_str(), Some((2, CHAR)));
    assert_eq!(string.as_num(), None);
}

#[test]
fn sources_find_lines() {
    let mut map = SourceMap::new();
    let id = map.push("p".to_string(), "n".to_string(), "ab\ncde\n\u{e9}f".to_string()).unwrap();
    assert_eq!(map.file_line_col(SourceSpan { id, offset: 4, len: 1 }), Some((id + 1, 2, 2)));
    assert_eq!(map.text(SourceSpan { id, offset: 3, len: 3 }), b"cde");
    assert_eq!(map.file_line_col(SourceSpan { id, offset: 8, len: 1 }), None);
    let d = map.diagnostic(SourceSpan { id, offset: 3, len: 2 }, DiagnosticLevel::Warning, b"odd".to_vec()).unwrap();
    assert_eq!(d.render(), b"n:2:1: warning: odd\ncde\n^~");
    assert_eq!(map.push_virtual(b"\xff", None), None);
    assert_eq!(map.push_virtual(b"x", Some("v")), Some(1));
}

fn cli(options: &[(CliOption, &str)], inputs: &[&str]) -> Cli {
    let mut cli = Cli::new();
    for (option, value) in options {
        cli.add_option(*option, value.as_bytes().to_vec());
    }
    for input in inputs {
        let extension = input.rsplit_once('.').map(|(_, e)| e.as_bytes());
        cli.add_input(input.as_bytes().to_vec(), extension);
    }
    cli
}

#[test]
fn options_are_found() {
    assert_eq!(find_short_option('o'), Some(CliOption::Output));
    assert_eq!(find_short_option('x'), None);
    assert_eq!(find_long_option(b"help"), Some(CliOption::Help));
    assert_eq!(find_long_option(b"helps"), None);
    assert_eq!(find_long_option(b"pass-exit-codes"), Some(CliOption::PassExitCodes));
    assert!(!CliOption::PassExitCodes.takes_value());
    assert!(cli(&[(CliOption::PassExitCodes, "")], &["a.c"]).pass_exit_codes);
    assert!(!cli(&[], &["a.c"]).pass_exit_codes);
    assert_eq!(find_raw_option(b"-pass-exit-codes", false), Some(RawOption::PassExitCodes));
    assert!(CliOption::IncludeDir.takes_value());
    assert!(!CliOption::CompileOnly.takes_value());
    assert_eq!(find_raw_option(b"-###", false), Some(RawOption::PrintSubprocessCommands));
    assert_eq!(find_raw_option(b"--", false), None);
    assert_eq!(find_raw_option(b"--", true), Some(RawOption::Rest));
    assert_eq!(first_found(&vec![false, true, true]), Some(1));
    assert_eq!(first_found(&vec![false]), None);
    let mut c = Cli::new();
    c.add_raw(RawOption::Run, Vec::new());
    c.add_raw(RawOption::Rest, words(&["a", "b"]));
    assert_eq!(c.auto_run, Some(words(&["a", "b"])));
}

#[test]
fn command_lines_are_validated() {
    assert_eq!(cli(&[], &[]).validate(), Err(CliError::NoInput));
    assert_eq!(cli(&[], &["a.c", "b.c"]).validate(), Ok(()));
    assert_eq!(
        cli(&[(CliOption::Output, "x"), (CliOption::AssembleOnly, "")], &["a.c", "b.c"]).validate(),
        Err(CliError::OutputWithMultipleFiles),
    );
    assert_eq!(cli(&[(CliOption::Output, "-")], &["a.c"]).validate(), Err(CliError::OutputToStdout));
    assert_eq!(cli(&[(CliOption::Output, "-"), (CliOption::CompileOnly, "")], &["a.c"]).validate(), Ok(()));
    let mut c = cli(&[(CliOption::PreprocessOnly, "")], &["a.c"]);
    c.add_raw(RawOption::Run, Vec::new());
    assert_eq!(c.validate(), Err(CliError::RunWithoutLink));
    let mut c = cli(&[], &["a.c"]);
    c.add_raw(RawOption::Cc1, Vec::new());
    assert_eq!(c.validate(), Err(CliError::Cc1Output));
    let mut c = cli(&[(CliOption::Output, "x")], &["a.c", "b.c"]);
    c.add_raw(RawOption::Cc1, Vec::new());
    assert_eq!(c.validate(), Err(CliError::Cc1Inputs));
    assert_eq!(CliError::NoInput.text(), "no input file");
    let kinds: Vec<CliInputKind> = cli(&[], &["a.c", "b.s", "c.o", "-", "d"]).inputs.iter().map(|i| i.kind).collect();
    assert_eq!(
        kinds,
        vec![CliInputKind::C, CliInputKind::Assembler, CliInputKind::Object, CliInputKind::C, CliInputKind::Object],
    );
}

#[test]
fn plans_for_linking() {
    let c = cli(&[], &["a.c", "b.s", "c.o", "d/a.c"]);
    let plan = plan(&c, &words(&["a", "b", "c", "a"]));
    assert_eq!(plan.jobs.len(), 3);
    assert_eq!(plan.jobs[0].compile, Some(Task { input: JobPath::Input, output: JobPath::Temp(Stage::Compile) }));
    assert_eq!(
        plan.jobs[0].assemble,
        Some(Task { input: JobPath::Temp(Stage::Compile), output: JobPath::Temp(Stage::Assemble) }),
    );
    assert!(plan.jobs[0].hashed);
    assert_eq!(plan.jobs[1].compile, None);
    assert_eq!(plan.jobs[1].assemble.unwrap().input, JobPath::Input);
    assert!(!plan.jobs[1].hashed);
    assert_eq!(plan.jobs[2].input, 3);
    let links: Vec<(usize, JobPath)> = plan.link.unwrap().iter().map(|l| (l.input, l.path)).collect();
    let object = JobPath::Temp(Stage::Assemble);
    assert_eq!(links, vec![(0, object), (1, object), (2, JobPath::Input), (3, object)]);
}

#[test]
fn plans_that_stop_early() {
    let c = cli(&[(CliOption::PreprocessOnly, "")], &["a.c", "b.s"]);
    let p = plan(&c, &words(&["a", "b"]));
    assert_eq!(p.jobs.len(), 1);
    assert_eq!(p.jobs[0].compile.unwrap().output, JobPath::Stdout);
    assert!(p.link.is_none());

    let c = cli(&[(CliOption::CompileOnly, "")], &["a.c"]);
    assert_eq!(plan(&c, &words(&["a"])).jobs[0].compile.unwrap().output, JobPath::InputWithExt(Stage::Compile));

    let mut c = cli(&[(CliOption::AssembleOnly, ""), (CliOption::Output, "x.o")], &["a.c"]);
    c.add_raw(RawOption::SaveTemps, Vec::new());
    let p = plan(&c, &words(&["a"]));
    assert_eq!(p.jobs[0].compile.unwrap().output, JobPath::OutputWithExt(Stage::Compile));
    assert_eq!(p.jobs[0].assemble.unwrap().output, JobPath::Output);

    let mut c = cli(&[], &["a.c"]);
    c.add_raw(RawOption::SaveTemps, Vec::new());
    assert_eq!(plan(&c, &words(&["a"])).jobs[0].compile.unwrap().output, JobPath::Saved(Stage::Compile));
    assert_eq!(name_saved(b"a.out", b"in", None), b"a.out-in");
    assert_eq!(name_saved(b"x", b"in", Some(0xabc)), b"x-in-00000abc");
    assert_eq!(Stage::Compile.next(), Some(Stage::Assemble));
    assert_eq!(Stage::Link.next(), None);
    assert_eq!(Stage::Assemble.ext(), "o");
}

#[test]
fn commands_are_built() {
    assert_eq!(
        compile_command(true, &b"o".to_vec(), &words(&["x", "y"]), &b"a.c".to_vec()),
        words(&["-cc1", "-E", "-o", "o", "-I", "x", "-I", "y", "--", "a.c"]),
    );
    assert_eq!(assemble_command(&b"a.s".to_vec(), &b"a.o".to_vec()), words(&["-c", "a.s", "-o", "a.o"]));
    let file = |name: &str| name.as_bytes().to_vec();
    let files = LinkFiles {
        dynamic_linker: file("ld.so"),
        crt1: file("crt1.o"),
        crti: file("crti.o"),
        crtbegin: file("crtbegin.o"),
        libc: file("libc.so"),
        libgcc: file("libgcc.a"),
        libgcc_s: file("libgcc_s.so.1"),
        crtend: file("crtend.o"),
        crtn: file("crtn.o"),
    };
    assert_eq!(
        link_command(&b"out".to_vec(), &words(&["a.o", "b.o"]), &files),
        words(&[
            "-o", "out", "-m", "elf_x86_64", "-dynamic-linker", "ld.so", "crt1.o", "crti.o", "crtbegin.o", "a.o", "b.o",
            "libc.so", "libgcc.a", "--as-needed", "libgcc_s.so.1", "--no-as-needed", "crtend.o", "crtn.o",
        ]),
    );
}

#[test]
fn exit_codes_are_kept() {
    let mut driver = Driver::new(cli(&[], &["a.c"]));
    assert!(driver.record(true, Some(0), false));
    assert!(!driver.record(false, Some(3), false));
    assert_eq!(driver.code(), None);
    assert!(!driver.record(false, Some(5), true));
    assert_eq!(driver.code(), Some(5));

    let mut c = cli(&[], &["a.c"]);
    c.add_raw(RawOption::PassExitCodes, Vec::new());
    let mut driver = Driver::new(c);
    driver.record(false, Some(3), false);
    driver.record(false, Some(2), false);
    assert_eq!(driver.code(), Some(3));
    driver.record(false, Some(1), true);
    assert_eq!(driver.code(), Some(1));
    driver.record(false, Some(-1), false);
    assert_eq!(driver.code(), Some(255));
    driver.record(false, None, true);
    assert_eq!(driver.code(), None);
}

#[test]
fn host_compilers_are_resolved() {
    let path = |p: &str| Some(p.as_bytes().to_vec());
    assert_eq!(Hostcc::resolve(None, None, path("cc"), path("clang")).unwrap().path, b"cc");
    assert_eq!(Hostcc::resolve(Some(path("x")), path("gcc"), None, None).unwrap().path, b"x");
    assert!(Hostcc::resolve(Some(None), path("gcc"), None, None).is_none());
    assert!(Hostcc::resolve(None, None, None, None).is_none());
    assert_eq!(Hostcc::find(b" /lib/crt1.o\n", b"crt1.o"), Some(b"/lib/crt1.o".to_vec()));
    assert_eq!(Hostcc::find(b"crt1.o\n", b"crt1.o"), None);
    assert_eq!(Hostcc::find(b"\n", b"crt1.o"), None);
    let text = b"junk\n#include <...> search starts here:\n /a\n\n /b \r\nEnd of search list.\n/c\n";
    assert_eq!(find_system_includes(text), Some(words(&["/a", "/b"])));
    assert_eq!(find_system_includes(b"junk\n"), None);
}

#[test]
fn include_paths_are_in_order() {
    assert_eq!(
        include_paths(words(&["i"]), words(&["p"]), b"b".to_vec(), words(&["c"]), words(&["s"])),
        words(&["i", "p", "b", "c", "s"]),
    );
    assert_eq!(find_search_paths(true, b"d".to_vec(), words(&["i"])), words(&["d", "i"]));
    assert_eq!(find_search_paths(false, b"d".to_vec(), words(&["i"])), words(&["i"]));
}

fn parser(kinds: &[TokenKind]) -> Parser {
    let mut tokens: Vec<Token> = Vec::new();
    for (offset, kind) in kinds.iter().enumerate() {
        tokens.push(Token { kind: *kind, span: SourceSpan { id: 0, offset, len: 1 } });
    }
    let span = SourceSpan { id: 0, offset: kinds.len(), len: 0 };
    tokens.push(Token { kind: TokenKind::Eof, span });
    let hidden = HiddenNames { va_area: Symbol(0), func: Symbol(1), function: Symbol(2) };
    let names = words(&["__va_area__", "__func__", "__FUNCTION__", "f", "a", "b"]);
    Parser::new(tokens, Vec::new(), FloatTable::new(), false, hidden, names)
}

fn type_of_words(keywords: &[Keyword]) -> Option<Type> {
    let kinds: Vec<TokenKind> = keywords.iter().map(|k| TokenKind::Keyword(*k)).collect();
    parser(&kinds).parse_declspec(DeclspecContext::Typename).ok().map(|d| d.ty)
}

/// Every order of some keywords.
fn orders(keywords: &[Keyword]) -> Vec<Vec<Keyword>> {
    if keywords.is_empty() {
        return vec![Vec::new()];
    }
    let mut all = Vec::new();
    for i in 0..keywords.len() {
        let mut rest = keywords.to_vec();
        let word = rest.remove(i);
        for mut order in orders(&rest) {
            order.push(word);
            all.push(order);
        }
    }
    all
}

#[test]
fn type_specifiers_are_order_insensitive() {
    let arith = |ty| Some(Type::Arith(ty));
    let cases = [
        (vec![Keyword::Void], Some(Type::Void)),
        (vec![Keyword::Bool], arith(ArithType::Bool)),
        (vec![Keyword::Char, Keyword::Unsigned], arith(ArithType::UChar)),
        (vec![Keyword::Char, Keyword::Signed], arith(ArithType::Char)),
        (vec![Keyword::Short, Keyword::Int, Keyword::Unsigned], arith(ArithType::UShort)),
        (vec![Keyword::Unsigned], arith(ArithType::UInt)),
        (vec![Keyword::Int, Keyword::Signed], arith(ArithType::Int)),
        (vec![Keyword::Long, Keyword::Long, Keyword::Int, Keyword::Unsigned], arith(ArithType::ULong)),
        (vec![Keyword::Long, Keyword::Int], arith(ArithType::Long)),
        (vec![Keyword::Long, Keyword::Double], arith(ArithType::Double)),
        (vec![Keyword::Float], arith(ArithType::Float)),
        (vec![Keyword::Unsigned, Keyword::Double], None),
        (vec![Keyword::Unsigned, Keyword::Void], None),
        (vec![Keyword::Unsigned, Keyword::Bool], None),
        (vec![Keyword::Signed, Keyword::Float], None),
        (vec![Keyword::Signed, Keyword::Unsigned], None),
        (vec![Keyword::Long, Keyword::Long, Keyword::Double], None),
        (vec![Keyword::Long, Keyword::Int, Keyword::Double], None),
        (vec![Keyword::Short, Keyword::Int, Keyword::Int], None),
        (vec![Keyword::Long, Keyword::Int, Keyword::Int], None),
        (vec![Keyword::Long, Keyword::Long, Keyword::Long], None),
        (vec![Keyword::Short, Keyword::Long], None),
        (vec![Keyword::Char, Keyword::Int], None),
        (vec![Keyword::Void, Keyword::Int], None),
        (vec![Keyword::Float, Keyword::Double], None),
    ];
    for (keywords, ty) in cases {
        for order in orders(&keywords) {
            assert_eq!(type_of_words(&order), ty, "{order:?}");
        }
    }
}

#[test]
fn first_parameter_has_the_lowest_id() {
    let word = TokenKind::Keyword;
    let punct = TokenKind::Punct;
    let name = |n| TokenKind::Ident(Symbol(n));
    let program = parser(&[
        word(Keyword::Int),
        name(3),
        punct(Punct::LParen),
        word(Keyword::Int),
        name(4),
        punct(Punct::Comma),
        word(Keyword::Long),
        name(5),
        punct(Punct::RParen),
        punct(Punct::LBrace),
        word(Keyword::Return),
        name(4),
        punct(Punct::Semi),
        punct(Punct::RBrace),
    ])
    .parse_program()
    .unwrap();
    let f = &program.functions[0];
    assert_eq!(f.param_locals, vec![0, 1]);
    assert_eq!(f.locals[0].ty, INT);
    assert_eq!(f.locals[1].ty, LONG);
}

#[test]
fn only_functions_declare_parameters() {
    let punct = TokenKind::Punct;
    let name = |n| TokenKind::Ident(Symbol(n));
    let suffix = [punct(Punct::LParen), TokenKind::Keyword(Keyword::Int), name(4), punct(Punct::RParen), punct(Punct::Semi)];
    let declare = |head: &[TokenKind]| {
        let mut kinds = head.to_vec();
        kinds.extend_from_slice(&suffix);
        parser(&kinds).parse_declarator(INT, false).unwrap()
    };
    // f(int a)
    assert_eq!(declare(&[name(3)]).params.len(), 1);
    // (f)(int a)
    let d = declare(&[punct(Punct::LParen), name(3), punct(Punct::RParen)]);
    assert_eq!(d.params.len(), 1);
    assert_eq!(d.params[0].name, Some(Symbol(4)));
    // (*f)(int a)
    let d = declare(&[punct(Punct::LParen), punct(Punct::Star), name(3), punct(Punct::RParen)]);
    assert_eq!(d.name, Some(Symbol(3)));
    assert_eq!(d.params.len(), 0);
    // (*f(int a))(int a)
    let d = declare(&[
        punct(Punct::LParen),
        punct(Punct::Star),
        name(3),
        punct(Punct::LParen),
        TokenKind::Keyword(Keyword::Long),
        name(5),
        punct(Punct::RParen),
        punct(Punct::RParen),
    ]);
    assert_eq!(d.params.len(), 1);
    assert_eq!(d.params[0].ty, LONG);
}
