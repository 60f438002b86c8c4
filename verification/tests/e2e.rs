//! Whole programs are compiled, and what comes out is run by a small
//! interpreter of the assembly language.

use std::collections::HashMap;

use chacc::codegen::Codegen;
use chacc::constexpr::{FloatAnswer, FloatQuery, FloatTable};
use chacc::error::{DiagnosticLevel, Error, Message};
use chacc::names::Names;
use chacc::parse::state::{HiddenNames, Parser};
use chacc::preprocess::directive::{Preprocessor, Step};
use chacc::preprocess::expand::MacroExpander;
use chacc::preprocess::sink::PreprocessedTokens;
use chacc::source::{SourceMap, SourceSpan};
use chacc::tokenize::lower::{FloatLiteral, FloatLiterals, Lowered, PreTokenResolver};

const DIR: &str = "/tmp/chacc";

/// The result of a floating-point operation on constants.
fn float_answer(query: FloatQuery) -> u64 {
    let f = f64::from_bits;
    match query {
        FloatQuery::Round32(a) => ((f(a) as f32) as f64).to_bits(),
        FloatQuery::Bits32(a) => (f(a) as f32).to_bits() as u64,
        FloatQuery::FromI64(a) => (a as f64).to_bits(),
        FloatQuery::FromU64(a) => (a as f64).to_bits(),
        FloatQuery::ToI64(a) => (f(a) as i64) as u64,
        FloatQuery::ToU64(a) => f(a) as u64,
        FloatQuery::IsNonzero(a) => (f(a) != 0.0) as u64,
        FloatQuery::Neg(a) => (-f(a)).to_bits(),
        FloatQuery::Add(a, b) => (f(a) + f(b)).to_bits(),
        FloatQuery::Sub(a, b) => (f(a) - f(b)).to_bits(),
        FloatQuery::Mul(a, b) => (f(a) * f(b)).to_bits(),
        FloatQuery::Div(a, b) => (f(a) / f(b)).to_bits(),
        FloatQuery::Eq(a, b) => (f(a) == f(b)) as u64,
        FloatQuery::Lt(a, b) => (f(a) < f(b)) as u64,
        FloatQuery::Le(a, b) => (f(a) <= f(b)) as u64,
    }
}

fn float_table(answers: &[FloatAnswer]) -> FloatTable {
    let mut table = FloatTable::new();
    for answer in answers {
        table.push(answer.query, answer.bits);
    }
    table
}

fn show(span: SourceSpan, message: Message, map: &SourceMap, spellings: &Vec<Vec<u8>>) -> String {
    let text = message.render(spellings, map);
    match map.diagnostic(span, DiagnosticLevel::Error, text) {
        Some(diagnostic) => String::from_utf8_lossy(&diagnostic.render()).into_owned(),
        None => format!("{message:?}"),
    }
}

/// Compile a program into assembly.
fn compile(stem: &str, source: &str, includes: &HashMap<&'static str, &'static str>) -> Result<String, String> {
    let path = format!("{DIR}/{stem}.c");
    let mut expander = MacroExpander::new(SourceMap::new(), Names::new());
    let tokens = expander
        .tokenize_file(path.clone(), path, source.to_string())
        .expect("source is short")
        .map_err(|e| format!("{e:?}"))?;
    let mut pp = Preprocessor::new(expander, b"0.1.0", b"Jan  1 2000", b"00:00:00", &Vec::new(), &tokens)
        .map_err(|e| format!("{e:?}"))?;

    loop {
        match pp.preprocess() {
            Ok(Step::Done) => break,
            Ok(Step::More) => unreachable!(),
            Ok(Step::File(file)) => {
                let name = String::from_utf8(pp.expander.spellings[file.name].clone()).unwrap();
                let Some(content) = includes.get(name.as_str()) else {
                    return Err(format!("no such file: {name}"));
                };
                let path = format!("{DIR}/{name}");
                pp.enter_file(path.clone(), path, content.to_string()).map_err(|e| format!("{e:?}"))?;
            },
            Err(Error::Terminate(span, message)) => {
                return Err(show(span, message, &pp.expander.source_map, &pp.expander.spellings));
            },
            Err(e) => return Err(format!("{e:?}")),
        }
    }

    let Preprocessor { expander, out, .. } = pp;
    let MacroExpander { source_map, mut names, spellings, .. } = expander;
    let hidden = HiddenNames {
        va_area: names.intern(b"__va_area__"),
        func: names.intern(b"__func__"),
        function: names.intern(b"__FUNCTION__"),
    };

    let mut literals = FloatLiterals::new();
    let mut found = Vec::new();
    {
        let resolver = PreTokenResolver::new(&source_map, &spellings, &names, &literals);
        for token in &out {
            if let Some((is_hex, body)) = resolver.float_literal(*token) {
                found.push((is_hex, body));
            }
        }
    }
    for (is_hex, body) in found {
        let text = String::from_utf8(body.clone()).unwrap();
        let value = if is_hex {
            hexf_parse::parse_hexf64(&text, false).ok()
        } else {
            text.parse::<f64>().ok()
        };
        literals.push(FloatLiteral { is_hex, body, value: value.map(f64::to_bits) });
    }

    let mut lowered = Lowered::new();
    let resolver = PreTokenResolver::new(&source_map, &spellings, &names, &literals);
    let tokens = match (PreprocessedTokens { tokens: out }).lower(&resolver, &mut lowered) {
        Ok(tokens) => tokens,
        Err(Error::Terminate(span, message)) => return Err(show(span, message, &source_map, &spellings)),
        Err(e) => return Err(format!("{e:?}")),
    };

    let mut answers: Vec<FloatAnswer> = Vec::new();
    loop {
        let mut parser = Parser::new(
            tokens.clone(),
            lowered.strings.clone(),
            float_table(&answers),
            false,
            hidden,
            names.texts.clone(),
        );
        let floats = float_table(&answers);
        let generated = parser
            .parse_program()
            .and_then(|program| Codegen::new(&source_map, &names.texts, &floats).generate(program));
        match generated {
            Ok(text) => return Ok(String::from_utf8(text).unwrap()),
            Err(Error::NeedsFloat(query)) => {
                answers.push(FloatAnswer { query, bits: float_answer(query) });
            },
            Err(Error::Terminate(span, message)) => return Err(show(span, message, &source_map, &spellings)),
            Err(e) => return Err(format!("{e:?}")),
        }
    }
}

#[derive(Clone, Debug)]
enum Operand {
    Imm(i64),
    /// A register by its number and its size in bytes.
    Reg(usize, usize),
    Xmm(usize),
    Mem(i64, usize),
    /// A symbol relative to the instruction pointer.
    Sym(String),
    Label(String),
    Indirect(usize),
}

#[derive(Clone, Debug)]
struct Instr {
    op: String,
    args: Vec<Operand>,
}

const REGS: [[&str; 4]; 16] = [
    ["al", "ax", "eax", "rax"],
    ["cl", "cx", "ecx", "rcx"],
    ["dl", "dx", "edx", "rdx"],
    ["bl", "bx", "ebx", "rbx"],
    ["spl", "sp", "esp", "rsp"],
    ["bpl", "bp", "ebp", "rbp"],
    ["sil", "si", "esi", "rsi"],
    ["dil", "di", "edi", "rdi"],
    ["r8b", "r8w", "r8d", "r8"],
    ["r9b", "r9w", "r9d", "r9"],
    ["r10b", "r10w", "r10d", "r10"],
    ["r11b", "r11w", "r11d", "r11"],
    ["r12b", "r12w", "r12d", "r12"],
    ["r13b", "r13w", "r13d", "r13"],
    ["r14b", "r14w", "r14d", "r14"],
    ["r15b", "r15w", "r15d", "r15"],
];

const RAX: usize = 0;
const RCX: usize = 1;
const RDX: usize = 2;
const RSP: usize = 4;
const RBP: usize = 5;
const RSI: usize = 6;
const RDI: usize = 7;
const R8: usize = 8;
const R9: usize = 9;

const DATA: u64 = 0x10_0000;
const MEMORY: usize = 4 << 20;
const CODE: u64 = 0x4000_0000;
const OUTSIDE: u64 = 0x7000_0000;
const HALT: u64 = 0x7fff_0000;

const OUTSIDE_NAMES: [&str; 22] = [
    "assert", "strcmp", "memcmp", "exit", "add_all", "sprintf", "vsprintf", "add_double", "add_float",
    "false_fn", "true_fn", "char_fn", "short_fn", "uchar_fn", "ushort_fn", "schar_fn", "sshort_fn",
    "ext_fn1", "ext_fn2", "ext1", "ext2", "ext3",
];

fn register(name: &str) -> Option<Operand> {
    for (number, names) in REGS.iter().enumerate() {
        for (k, known) in names.iter().enumerate() {
            if *known == name {
                return Some(Operand::Reg(number, 1 << k));
            }
        }
    }
    name.strip_prefix("xmm").map(|n| Operand::Xmm(n.parse().unwrap()))
}

fn number(text: &str) -> i64 {
    if let Some(hex) = text.strip_prefix("0x") {
        u64::from_str_radix(hex, 16).unwrap() as i64
    } else if let Ok(n) = text.parse::<i64>() {
        n
    } else {
        text.parse::<u64>().unwrap() as i64
    }
}

fn operand(text: &str) -> Operand {
    if let Some(imm) = text.strip_prefix('$') {
        return Operand::Imm(number(imm));
    }
    if let Some(target) = text.strip_prefix('*') {
        match register(&target[1..]) {
            Some(Operand::Reg(number, _)) => return Operand::Indirect(number),
            _ => panic!("bad operand {text}"),
        }
    }
    if let Some(name) = text.strip_prefix('%') {
        return register(name).unwrap_or_else(|| panic!("bad operand {text}"));
    }
    if let Some(symbol) = text.strip_suffix("(%rip)") {
        return Operand::Sym(symbol.trim_end_matches("@GOTPCREL").to_string());
    }
    if let Some(open) = text.find('(') {
        let disp = if open == 0 { 0 } else { number(&text[..open]) };
        match register(&text[open + 2..text.len() - 1]) {
            Some(Operand::Reg(number, 8)) => return Operand::Mem(disp, number),
            _ => panic!("bad operand {text}"),
        }
    }
    Operand::Label(text.to_string())
}

fn sized(value: u64, size: usize) -> u64 {
    if size == 8 { value } else { value & ((1 << (size * 8)) - 1) }
}

fn signed(value: u64, size: usize) -> i64 {
    match size {
        1 => value as u8 as i8 as i64,
        2 => value as u16 as i16 as i64,
        4 => value as u32 as i32 as i64,
        _ => value as i64,
    }
}

#[derive(Default)]
struct Flags {
    zero: bool,
    sign: bool,
    carry: bool,
    overflow: bool,
    parity: bool,
}

struct Machine {
    regs: [u64; 16],
    xmm: [u64; 16],
    flags: Flags,
    memory: Vec<u8>,
    code: Vec<Instr>,
    labels: HashMap<String, usize>,
    numbered: Vec<(String, usize)>,
    symbols: HashMap<String, u64>,
    failures: Vec<String>,
}

impl Machine {
    /// Assemble a program.
    fn new(text: &str) -> Self {
        let mut machine = Machine {
            regs: [0; 16],
            xmm: [0; 16],
            flags: Flags::default(),
            memory: vec![0; MEMORY],
            code: Vec::new(),
            labels: HashMap::new(),
            numbered: Vec::new(),
            symbols: HashMap::new(),
            failures: Vec::new(),
        };

        let mut at = DATA + 0x100;
        machine.store(DATA, 5, 4);
        machine.store(DATA + 8, DATA, 8);
        machine.store(DATA + 16, 7, 4);
        machine.symbols.insert("ext1".to_string(), DATA);
        machine.symbols.insert("ext2".to_string(), DATA + 8);
        machine.symbols.insert("ext3".to_string(), DATA + 16);

        let mut in_text = false;
        let mut relocations = Vec::new();
        for line in text.lines() {
            if let Some(label) = line.strip_suffix(':') {
                assert!(!label.starts_with(' '), "bad label {line}");
                if !in_text {
                    machine.symbols.insert(label.to_string(), at);
                } else if label.bytes().all(|b| b.is_ascii_digit()) {
                    machine.numbered.push((label.to_string(), machine.code.len()));
                } else {
                    let index = machine.code.len();
                    assert!(machine.labels.insert(label.to_string(), index).is_none(), "label {label} twice");
                    machine.symbols.insert(label.to_string(), CODE + index as u64 * 16);
                }
                continue;
            }
            let line = line.trim();
            let (op, rest) = line.split_once(' ').unwrap_or((line, ""));
            match op {
                ".file" | ".loc" | ".globl" | ".local" => {},
                ".text" => in_text = true,
                ".data" | ".bss" => in_text = false,
                ".align" => {
                    let align: u64 = rest.parse().unwrap();
                    at = at.div_ceil(align) * align;
                },
                ".zero" => at += rest.parse::<u64>().unwrap(),
                ".byte" => {
                    machine.store(at, number(rest) as u64, 1);
                    at += 1;
                },
                ".quad" => {
                    let split = rest[1..].find(['+', '-']).map(|k| k + 1).unwrap_or(rest.len());
                    let addend = if split == rest.len() { 0 } else { rest[split..].parse::<i64>().unwrap() };
                    relocations.push((at, rest[..split].to_string(), addend));
                    at += 8;
                },
                _ => {
                    assert!(in_text, "instruction outside of text: {line}");
                    let args = if op == "rep" || rest.is_empty() {
                        Vec::new()
                    } else {
                        rest.split(", ").map(operand).collect()
                    };
                    machine.code.push(Instr { op: op.to_string(), args });
                },
            }
        }
        for (at, symbol, addend) in relocations {
            let value = machine.address(&symbol).wrapping_add(addend as u64);
            machine.store(at, value, 8);
        }
        assert!(at < DATA + MEMORY as u64 / 2);
        machine
    }

    fn address(&self, symbol: &str) -> u64 {
        if let Some(address) = self.symbols.get(symbol) {
            return *address;
        }
        for (k, name) in OUTSIDE_NAMES.iter().enumerate() {
            if *name == symbol {
                return OUTSIDE + k as u64 * 16;
            }
        }
        panic!("undefined symbol {symbol}");
    }

    fn load(&self, at: u64, size: usize) -> u64 {
        let start = (at - DATA) as usize;
        let mut value = 0;
        for k in 0..size {
            value |= (self.memory[start + k] as u64) << (8 * k);
        }
        value
    }

    fn store(&mut self, at: u64, value: u64, size: usize) {
        let start = (at - DATA) as usize;
        for k in 0..size {
            self.memory[start + k] = (value >> (8 * k)) as u8;
        }
    }

    fn string(&self, mut at: u64) -> String {
        let mut bytes = Vec::new();
        while self.load(at, 1) != 0 {
            bytes.push(self.load(at, 1) as u8);
            at += 1;
        }
        String::from_utf8_lossy(&bytes).into_owned()
    }

    fn set_reg(&mut self, number: usize, size: usize, value: u64) {
        self.regs[number] = match size {
            8 => value,
            4 => value & 0xffff_ffff,
            2 => (self.regs[number] & !0xffff) | (value & 0xffff),
            _ => (self.regs[number] & !0xff) | (value & 0xff),
        };
    }

    fn effective(&self, operand: &Operand) -> u64 {
        match operand {
            Operand::Mem(disp, base) => self.regs[*base].wrapping_add(*disp as u64),
            Operand::Sym(symbol) => self.address(symbol),
            _ => panic!("no address: {operand:?}"),
        }
    }

    fn read(&self, operand: &Operand, size: usize) -> u64 {
        match operand {
            Operand::Imm(value) => sized(*value as u64, size),
            Operand::Reg(number, _) => sized(self.regs[*number], size),
            Operand::Xmm(number) => sized(self.xmm[*number], size),
            Operand::Mem(..) => self.load(self.effective(operand), size),
            _ => panic!("cannot read {operand:?}"),
        }
    }

    fn write(&mut self, operand: &Operand, size: usize, value: u64) {
        match operand {
            Operand::Reg(number, _) => self.set_reg(*number, size, value),
            Operand::Xmm(number) => self.xmm[*number] = sized(value, size),
            Operand::Mem(..) => {
                let at = self.effective(operand);
                self.store(at, value, size);
            },
            _ => panic!("cannot write {operand:?}"),
        }
    }

    fn push(&mut self, value: u64) {
        self.regs[RSP] -= 8;
        self.store(self.regs[RSP], value, 8);
    }

    fn pop(&mut self) -> u64 {
        let value = self.load(self.regs[RSP], 8);
        self.regs[RSP] += 8;
        value
    }

    fn logic_flags(&mut self, value: u64, size: usize) {
        self.flags.zero = sized(value, size) == 0;
        self.flags.sign = signed(value, size) < 0;
        self.flags.carry = false;
        self.flags.overflow = false;
    }

    fn compare(&mut self, lhs: u64, rhs: u64, size: usize) {
        let (lhs, rhs) = (sized(lhs, size), sized(rhs, size));
        let difference = sized(lhs.wrapping_sub(rhs), size);
        self.flags.zero = lhs == rhs;
        self.flags.sign = signed(difference, size) < 0;
        self.flags.carry = lhs < rhs;
        let exact = signed(lhs, size) as i128 - signed(rhs, size) as i128;
        self.flags.overflow = exact != signed(difference, size) as i128;
    }

    fn condition(&self, code: &str) -> bool {
        let f = &self.flags;
        match code {
            "e" => f.zero,
            "ne" => !f.zero,
            "l" => f.sign != f.overflow,
            "le" => f.zero || f.sign != f.overflow,
            "b" => f.carry,
            "be" => f.carry || f.zero,
            "a" => !f.carry && !f.zero,
            "ae" => !f.carry,
            "p" => f.parity,
            "np" => !f.parity,
            "s" => f.sign,
            _ => panic!("bad condition {code}"),
        }
    }

    fn target(&self, label: &str, at: usize) -> usize {
        if let Some(number) = label.strip_suffix('f') {
            if number.bytes().all(|b| b.is_ascii_digit()) {
                for (name, index) in &self.numbered {
                    if name == number && *index > at {
                        return *index;
                    }
                }
            }
        }
        *self.labels.get(label).unwrap_or_else(|| panic!("undefined label {label}"))
    }

    fn formatted(&self, format: &str, mut next_gp: impl FnMut() -> u64, mut next_fp: impl FnMut() -> u64) -> String {
        let mut out = String::new();
        let mut rest = format;
        while let Some(at) = rest.find('%') {
            out.push_str(&rest[..at]);
            rest = &rest[at..];
            if let Some(tail) = rest.strip_prefix("%d") {
                out.push_str(&format!("{}", next_gp() as u32 as i32));
                rest = tail;
            } else if let Some(tail) = rest.strip_prefix("%s") {
                out.push_str(&self.string(next_gp()));
                rest = tail;
            } else if let Some(tail) = rest.strip_prefix("%.1f") {
                out.push_str(&format!("{:.1}", f64::from_bits(next_fp())));
                rest = tail;
            } else {
                panic!("bad format {format}");
            }
        }
        out.push_str(rest);
        out
    }

    fn write_string(&mut self, at: u64, text: &str) {
        for (k, byte) in text.bytes().enumerate() {
            self.store(at + k as u64, byte as u64, 1);
        }
        self.store(at + text.len() as u64, 0, 1);
    }

    /// Call a function that the program does not define, with the stack as it
    /// is before the call. Returns whether the program goes on.
    fn call_outside(&mut self, name: &str) -> bool {
        assert_eq!(self.regs[RSP] % 16, 0, "stack is not aligned at call of {name}");
        let gp = [RDI, RSI, RDX, RCX, R8, R9].map(|number| self.regs[number]);
        let stack = self.regs[RSP];
        let fp = self.xmm;
        // Nothing is known of the upper bits of small values
        let result = match name {
            "assert" => {
                let (expected, actual) = (gp[0] as u32 as i32, gp[1] as u32 as i32);
                if expected != actual {
                    let code = self.string(gp[2]);
                    self.failures.push(format!("{code} => {expected} expected, but got {actual}"));
                }
                (expected != actual) as u64
            },
            "strcmp" => {
                let (lhs, rhs) = (self.string(gp[0]), self.string(gp[1]));
                lhs.cmp(&rhs) as i64 as u64
            },
            "memcmp" => {
                let mut result = 0;
                for k in 0..gp[2] as u32 as u64 {
                    if self.load(gp[0] + k, 1) != self.load(gp[1] + k, 1) {
                        result = 1;
                    }
                }
                result
            },
            "exit" => return false,
            "add_all" => {
                let mut sum = 0i32;
                for k in 0..gp[0] as u32 as usize {
                    let value = if k < 5 { gp[k + 1] } else { self.load(stack + 8 * (k as u64 - 5), 8) };
                    sum += value as u32 as i32;
                }
                sum as u64
            },
            "sprintf" => {
                let format = self.string(gp[1]);
                let (mut g, mut x, mut s) = (2, 0, 0);
                let text = self.formatted(
                    &format,
                    || {
                        g += 1;
                        if g <= 6 {
                            gp[g - 1]
                        } else {
                            s += 1;
                            self.load(stack + 8 * (s - 1), 8)
                        }
                    },
                    || {
                        x += 1;
                        fp[x - 1]
                    },
                );
                self.write_string(gp[0], &text);
                text.len() as u64
            },
            "vsprintf" => {
                let format = self.string(gp[1]);
                let ap = gp[2];
                let mut gp_offset = self.load(ap, 4);
                let mut fp_offset = self.load(ap + 4, 4);
                let mut overflow = self.load(ap + 8, 8);
                let save = self.load(ap + 16, 8);
                let text = self.formatted(
                    &format,
                    || {
                        if gp_offset < 48 {
                            gp_offset += 8;
                            self.load(save + gp_offset - 8, 8)
                        } else {
                            overflow += 8;
                            self.load(overflow - 8, 8)
                        }
                    },
                    || {
                        fp_offset += 8;
                        self.load(save + fp_offset - 8, 8)
                    },
                );
                self.write_string(gp[0], &text);
                text.len() as u64
            },
            "add_double" => {
                self.xmm[0] = (f64::from_bits(fp[0]) + f64::from_bits(fp[1])).to_bits();
                0
            },
            "add_float" => {
                let sum = f32::from_bits(fp[0] as u32) + f32::from_bits(fp[1] as u32);
                self.xmm[0] = sum.to_bits() as u64;
                0
            },
            "false_fn" => 512,
            "true_fn" => 513,
            "char_fn" => (2 << 8) + 3,
            "short_fn" => (2 << 16) + 5,
            "uchar_fn" => (2 << 10) - 1 - 4,
            "ushort_fn" => (2 << 20) - 1 - 7,
            "schar_fn" => (2 << 10) - 1 - 4,
            "sshort_fn" => (2 << 20) - 1 - 7,
            "ext_fn1" | "ext_fn2" => gp[0],
            _ => panic!("cannot call {name}"),
        };
        self.regs[RAX] = result;
        true
    }

    fn scalar(&self, operand: &Operand, single: bool) -> f64 {
        if single {
            f32::from_bits(self.read(operand, 4) as u32) as f64
        } else {
            f64::from_bits(self.read(operand, 8))
        }
    }

    fn set_scalar(&mut self, operand: &Operand, single: bool, value: f64) {
        match operand {
            Operand::Xmm(number) => {
                self.xmm[*number] = if single {
                    (self.xmm[*number] & !0xffff_ffff) | (value as f32).to_bits() as u64
                } else {
                    value.to_bits()
                };
            },
            _ => panic!("cannot write {operand:?}"),
        }
    }

    /// Run the program, and return its exit code.
    fn run(&mut self) -> i32 {
        self.regs[RSP] = DATA + MEMORY as u64 - 4096;
        self.push(HALT);
        let mut at = *self.labels.get("main").expect("no main");
        let mut steps = 0u64;
        loop {
            steps += 1;
            assert!(steps < 50_000_000, "program does not end");
            let instr = self.code[at].clone();
            let args = &instr.args;
            let mut next = at + 1;
            // The size of an integer operation is that of its register
            let size = args
                .iter()
                .rev()
                .find_map(|arg| match arg {
                    Operand::Reg(_, size) => Some(*size),
                    _ => None,
                })
                .unwrap_or(8);
            match instr.op.as_str() {
                "mov" if matches!(args[0], Operand::Sym(_)) => {
                    let value = self.effective(&args[0]);
                    self.write(&args[1], 8, value);
                },
                "mov" | "movabs" => {
                    let value = self.read(&args[0], size);
                    self.write(&args[1], size, value);
                },
                "movl" => {
                    let value = self.read(&args[0], 4);
                    self.write(&args[1], 4, value);
                },
                "movq" => {
                    let value = self.read(&args[0], 8);
                    self.write(&args[1], 8, value);
                },
                "movd" => {
                    let value = self.read(&args[0], 4);
                    self.write(&args[1], 4, value);
                },
                "movsbl" => {
                    let value = signed(self.read(&args[0], 1), 1) as u64;
                    self.write(&args[1], 4, value);
                },
                "movswl" => {
                    let value = signed(self.read(&args[0], 2), 2) as u64;
                    self.write(&args[1], 4, value);
                },
                "movsxd" => {
                    let value = signed(self.read(&args[0], 4), 4) as u64;
                    self.write(&args[1], 8, value);
                },
                "movzbl" => {
                    let value = self.read(&args[0], 1);
                    self.write(&args[1], 4, value);
                },
                "movzwl" => {
                    let value = self.read(&args[0], 2);
                    self.write(&args[1], 4, value);
                },
                "movzb" | "movzx" => {
                    let value = self.read(&args[0], 1);
                    self.write(&args[1], 8, value);
                },
                "lea" => {
                    let value = self.effective(&args[0]);
                    self.write(&args[1], 8, value);
                },
                "add" | "addq" => {
                    let value = self.read(&args[1], size).wrapping_add(self.read(&args[0], size));
                    self.write(&args[1], size, value);
                    self.logic_flags(value, size);
                },
                "sub" => {
                    let value = self.read(&args[1], size).wrapping_sub(self.read(&args[0], size));
                    self.write(&args[1], size, value);
                    self.logic_flags(value, size);
                },
                "imul" => {
                    let value = self.read(&args[1], size).wrapping_mul(self.read(&args[0], size));
                    self.write(&args[1], size, value);
                },
                "and" => {
                    let value = self.read(&args[1], size) & self.read(&args[0], size);
                    self.write(&args[1], size, value);
                    self.logic_flags(value, size);
                },
                "or" => {
                    let value = self.read(&args[1], size) | self.read(&args[0], size);
                    self.write(&args[1], size, value);
                    self.logic_flags(value, size);
                },
                "xor" => {
                    let value = self.read(&args[1], size) ^ self.read(&args[0], size);
                    self.write(&args[1], size, value);
                    self.logic_flags(value, size);
                },
                "not" => {
                    let value = !self.read(&args[0], size);
                    self.write(&args[0], size, value);
                },
                "neg" => {
                    let value = self.read(&args[0], size).wrapping_neg();
                    self.write(&args[0], size, value);
                    self.logic_flags(value, size);
                },
                "cdq" => {
                    let value = signed(self.regs[RAX], 4) >> 63;
                    self.set_reg(RDX, 4, value as u64);
                },
                "cqo" => self.regs[RDX] = ((self.regs[RAX] as i64) >> 63) as u64,
                "idiv" => {
                    let divisor = signed(self.read(&args[0], size), size) as i128;
                    let high = self.regs[RDX];
                    let low = self.regs[RAX];
                    let dividend = if size == 8 {
                        ((high as i64 as i128) << 64) | low as i128
                    } else {
                        (((sized(high, 4) << 32) | sized(low, 4)) as i64) as i128
                    };
                    assert!(divisor != 0, "division by zero");
                    self.set_reg(RAX, size, (dividend / divisor) as u64);
                    self.set_reg(RDX, size, (dividend % divisor) as u64);
                },
                "div" => {
                    let divisor = self.read(&args[0], size) as u128;
                    let high = sized(self.regs[RDX], size) as u128;
                    let low = sized(self.regs[RAX], size) as u128;
                    let dividend = (high << (size * 8)) | low;
                    assert!(divisor != 0, "division by zero");
                    self.set_reg(RAX, size, (dividend / divisor) as u64);
                    self.set_reg(RDX, size, (dividend % divisor) as u64);
                },
                "shl" | "shr" | "sar" => {
                    let (count, place) = if args.len() == 1 { (1, &args[0]) } else { (self.read(&args[0], 1), &args[1]) };
                    let Operand::Reg(_, size) = place else { panic!("bad shift") };
                    let size = *size;
                    let count = count & if size == 8 { 63 } else { 31 };
                    let before = self.read(place, size);
                    let value = match instr.op.as_str() {
                        "shl" => before << count,
                        "shr" => before >> count,
                        _ => (signed(before, size) >> count) as u64,
                    };
                    self.write(place, size, value);
                    self.logic_flags(value, size);
                },
                "cmp" => {
                    let (lhs, rhs) = (self.read(&args[1], size), self.read(&args[0], size));
                    self.compare(lhs, rhs, size);
                },
                "test" => {
                    let value = self.read(&args[1], size) & self.read(&args[0], size);
                    self.logic_flags(value, size);
                },
                "push" => {
                    let value = self.read(&args[0], 8);
                    self.push(value);
                },
                "pop" => {
                    let value = self.pop();
                    self.write(&args[0], 8, value);
                },
                "rep" => {
                    let (start, count) = (self.regs[RDI], self.regs[RCX]);
                    for k in 0..count {
                        self.store(start + k, self.regs[RAX], 1);
                    }
                    self.regs[RDI] = start + count;
                    self.regs[RCX] = 0;
                },
                "jmp" => {
                    let Operand::Label(label) = &args[0] else { panic!("bad jump") };
                    next = self.target(label, at);
                },
                "call" => {
                    let Operand::Indirect(number) = args[0] else { panic!("bad call") };
                    let target = self.regs[number];
                    if target >= OUTSIDE {
                        let name = OUTSIDE_NAMES[((target - OUTSIDE) / 16) as usize];
                        if !self.call_outside(name) {
                            return self.regs[RDI] as i32;
                        }
                    } else {
                        self.push(CODE + next as u64 * 16);
                        next = ((target - CODE) / 16) as usize;
                    }
                },
                "ret" => {
                    let target = self.pop();
                    if target == HALT {
                        return self.regs[RAX] as i32;
                    }
                    next = ((target - CODE) / 16) as usize;
                },
                "movss" | "movsd" => {
                    let size = if instr.op == "movss" { 4 } else { 8 };
                    let value = self.read(&args[0], size);
                    self.write(&args[1], size, value);
                },
                "cvtss2sd" => {
                    let value = self.scalar(&args[0], true);
                    self.set_scalar(&args[1], false, value);
                },
                "cvtsd2ss" => {
                    let value = self.scalar(&args[0], false);
                    self.set_scalar(&args[1], true, value);
                },
                "cvtsi2ssl" | "cvtsi2sdl" => {
                    let value = signed(self.read(&args[0], 4), 4);
                    let single = instr.op == "cvtsi2ssl";
                    let value = if single { value as f32 as f64 } else { value as f64 };
                    self.set_scalar(&args[1], single, value);
                },
                "cvtsi2ssq" | "cvtsi2sdq" => {
                    let value = self.read(&args[0], 8) as i64;
                    let single = instr.op == "cvtsi2ssq";
                    let value = if single { value as f32 as f64 } else { value as f64 };
                    self.set_scalar(&args[1], single, value);
                },
                "cvttss2sil" | "cvttsd2sil" => {
                    let value = self.scalar(&args[0], instr.op == "cvttss2sil").trunc();
                    let inside = (i32::MIN as f64..=i32::MAX as f64).contains(&value);
                    let value = if inside { value as i32 } else { i32::MIN };
                    self.write(&args[1], 4, value as u32 as u64);
                },
                "cvttss2siq" | "cvttsd2siq" => {
                    let value = self.scalar(&args[0], instr.op == "cvttss2siq").trunc();
                    let inside = value >= i64::MIN as f64 && value < i64::MAX as f64;
                    let value = if inside { value as i64 } else { i64::MIN };
                    self.write(&args[1], 8, value as u64);
                },
                "addss" | "addsd" | "subss" | "subsd" | "mulss" | "mulsd" | "divss" | "divsd" => {
                    let single = instr.op.ends_with("ss");
                    let (lhs, rhs) = (self.scalar(&args[1], single), self.scalar(&args[0], single));
                    let value = match &instr.op[..3] {
                        "add" => lhs + rhs,
                        "sub" => lhs - rhs,
                        "mul" => lhs * rhs,
                        _ => lhs / rhs,
                    };
                    self.set_scalar(&args[1], single, value);
                },
                "ucomiss" | "ucomisd" => {
                    let single = instr.op == "ucomiss";
                    let (lhs, rhs) = (self.scalar(&args[1], single), self.scalar(&args[0], single));
                    let unordered = lhs.is_nan() || rhs.is_nan();
                    self.flags.parity = unordered;
                    self.flags.zero = unordered || lhs == rhs;
                    self.flags.carry = unordered || lhs < rhs;
                    self.flags.sign = false;
                    self.flags.overflow = false;
                },
                "xorps" | "xorpd" | "pxor" => {
                    let value = self.read(&args[1], 8) ^ self.read(&args[0], 8);
                    self.write(&args[1], 8, value);
                },
                op if op.starts_with("set") => {
                    let value = self.condition(&op[3..]) as u64;
                    self.write(&args[0], 1, value);
                },
                op if op.starts_with('j') => {
                    if self.condition(&op[1..]) {
                        let Operand::Label(label) = &args[0] else { panic!("bad jump") };
                        next = self.target(label, at);
                    }
                },
                op => panic!("unknown instruction {op}"),
            }
            at = next;
        }
    }
}

struct Fixture {
    source: String,
    includes: HashMap<&'static str, &'static str>,
}

impl Fixture {
    fn new() -> Self {
        let mut f = Self {
            source: String::new(),
            includes: HashMap::new(),
        };
        f.line("int assert(int expected, int actual, char *code);");
        f.line("int strcmp(char *lhs, char *rhs);");
        f.line("int memcmp(char *lhs, char *rhs, int n);");
        f.line("void exit(int code);");
        f
    }

    fn line(&mut self, content: &str) {
        self.source.push_str(content);
        if !content.ends_with('\n') {
            self.source.push('\n');
        }
    }

    fn main(&mut self) {
        self.line("int main() {");
        self.line("  int __n_failed = 0;");
    }

    fn expect<E>(&mut self, expected: E, actual: &str)
    where
        E: std::fmt::Display,
    {
        let line = format!("  __n_failed += assert(({expected}), ({actual}), ({actual:?}));");
        self.line(&line);
    }

    fn finish(&mut self) {
        self.line("  return __n_failed != 0;");
        self.line("}");
    }

    fn run(&self, stem: &str) {
        let assembly = match compile(stem, &self.source, &self.includes) {
            Ok(assembly) => assembly,
            Err(e) => panic!("{e}"),
        };
        let mut machine = Machine::new(&assembly);
        let code = machine.run();
        assert!(machine.failures.is_empty(), "{}", machine.failures.join("\n"));
        assert_eq!(code, 0);
    }
}

#[test]
fn test_alignof() {
    let mut f = Fixture::new();
    f.line("int _Alignas(512) g1;");
    f.line("int _Alignas(512) g2;");
    f.line("char g3;");
    f.line("int g4;");
    f.line("long g5;");
    f.line("char g6;");
    f.main();

    f.expect(1, "_Alignof(char)");
    f.expect(2, "_Alignof(short)");
    f.expect(4, "_Alignof(int)");
    f.expect(8, "_Alignof(long)");
    f.expect(8, "_Alignof(long long)");
    f.expect(1, "_Alignof(char[3])");
    f.expect(4, "_Alignof(int[3])");
    f.expect(1, "_Alignof(struct {char a; char b;}[2])");
    f.expect(8, "_Alignof(struct {char a; long b;}[2])");

    f.expect(1, "({ _Alignas(char) char x, y; &y-&x; })");
    f.expect(8, "({ _Alignas(long) char x, y; &y-&x; })");
    f.expect(32, "({ _Alignas(32) char x, y; &y-&x; })");
    f.expect(32, "({ _Alignas(32) int *x, *y; ((char *)&y)-((char *)&x); })");
    f.expect(16, "({ struct { _Alignas(16) char x, y; } a; &a.y-&a.x; })");
    f.expect(8, "({ struct T { _Alignas(8) char a; }; _Alignof(struct T); })");

    f.expect(0, "(long)(char *)&g1 % 512");
    f.expect(0, "(long)(char *)&g2 % 512");
    f.expect(0, "(long)(char *)&g4 % 4");
    f.expect(0, "(long)(char *)&g5 % 8");

    f.expect(1, "({ char x; _Alignof(x); })");
    f.expect(4, "({ int x; _Alignof(x); })");
    f.expect(1, "({ char x; _Alignof x; })");
    f.expect(4, "({ int x; _Alignof x; })");

    f.expect(1, "_Alignof(char) << 31 >> 31");
    f.expect(1, "_Alignof(char) << 63 >> 63");
    f.expect(1, "({ char x; _Alignof(x) << 63 >> 63; })");

    f.finish();
    f.run("alignof");
}

#[test]
fn test_arith() {
    let mut f = Fixture::new();
    f.main();

    f.expect(0, "0");
    f.expect(42, "42");
    f.expect(21, "5+20-4");
    f.expect(41, " 12 + 34 - 5 ");
    f.expect(47, "5+6*7");
    f.expect(15, "5*(9-6)");
    f.expect(4, "(3+5)/2");
    f.expect(10, "-10+20");
    f.expect(10, "- -10");
    f.expect(10, "- - +10");

    f.expect(0, "0==1");
    f.expect(1, "42==42");
    f.expect(1, "0!=1");
    f.expect(0, "42!=42");

    f.expect(1, "0<1");
    f.expect(0, "1<1");
    f.expect(0, "2<1");
    f.expect(1, "0<=1");
    f.expect(1, "1<=1");
    f.expect(0, "2<=1");

    f.expect(1, "1>0");
    f.expect(0, "1>1");
    f.expect(0, "1>2");
    f.expect(1, "1>=0");
    f.expect(1, "1>=1");
    f.expect(0, "1>=2");

    f.expect(0, "1073741824 * 100 / 100");

    f.expect(7, "({ int i=2; i+=5; i; })");
    f.expect(7, "({ int i=2; i+=5; })");
    f.expect(3, "({ int i=5; i-=2; i; })");
    f.expect(3, "({ int i=5; i-=2; })");
    f.expect(6, "({ int i=3; i*=2; i; })");
    f.expect(6, "({ int i=3; i*=2; })");
    f.expect(3, "({ int i=6; i/=2; i; })");
    f.expect(3, "({ int i=6; i/=2; })");

    f.expect(3, "({ int i=2; ++i; })");
    f.expect(2, "({ int a[3]; a[0]=0; a[1]=1; a[2]=2; int *p=a+1; ++*p; })");
    f.expect(0, "({ int a[3]; a[0]=0; a[1]=1; a[2]=2; int *p=a+1; --*p; })");

    f.expect(2, "({ int i=2; i++; })");
    f.expect(2, "({ int i=2; i--; })");
    f.expect(3, "({ int i=2; i++; i; })");
    f.expect(1, "({ int i=2; i--; i; })");
    f.expect(1, "({ int a[3]; a[0]=0; a[1]=1; a[2]=2; int *p=a+1; *p++; })");
    f.expect(1, "({ int a[3]; a[0]=0; a[1]=1; a[2]=2; int *p=a+1; *p--; })");

    f.expect(0, "({ int a[3]; a[0]=0; a[1]=1; a[2]=2; int *p=a+1; (*p++)--; a[0]; })");
    f.expect(0, "({ int a[3]; a[0]=0; a[1]=1; a[2]=2; int *p=a+1; (*(p--))--; a[1]; })");
    f.expect(2, "({ int a[3]; a[0]=0; a[1]=1; a[2]=2; int *p=a+1; (*p)--; a[2]; })");
    f.expect(2, "({ int a[3]; a[0]=0; a[1]=1; a[2]=2; int *p=a+1; (*p)--; p++; *p; })");

    f.expect(0, "({ int a[3]; a[0]=0; a[1]=1; a[2]=2; int *p=a+1; (*p++)--; a[0]; })");
    f.expect(0, "({ int a[3]; a[0]=0; a[1]=1; a[2]=2; int *p=a+1; (*p++)--; a[1]; })");
    f.expect(2, "({ int a[3]; a[0]=0; a[1]=1; a[2]=2; int *p=a+1; (*p++)--; a[2]; })");
    f.expect(2, "({ int a[3]; a[0]=0; a[1]=1; a[2]=2; int *p=a+1; (*p++)--; *p; })");

    f.expect(0, "!1");
    f.expect(0, "!2");
    f.expect(1, "!0");
    f.expect(1, "!(char)0");
    f.expect(0, "!(long)3");
    f.expect(4, "sizeof(!(char)0)");
    f.expect(4, "sizeof(!(long)0)");

    f.expect(-1, "~0");
    f.expect(0, "~-1");

    f.expect(5, "17%6");
    f.expect(5, "((long)17)%6");
    f.expect(2, "({ int i=10; i%=4; i; })");
    f.expect(2, "({ long i=10; i%=4; i; })");

    f.expect(0, "0&1");
    f.expect(1, "3&1");
    f.expect(3, "7&3");
    f.expect(10, "-1&10");

    f.expect(1, "0|1");
    f.expect(0b10011, "0b10000|0b00011");

    f.expect(0, "0^0");
    f.expect(0, "0b1111^0b1111");
    f.expect(0b110100, "0b111000^0b001100");

    f.expect(2, "({ int i=6; i&=3; i; })");
    f.expect(7, "({ int i=6; i|=3; i; })");
    f.expect(10, "({ int i=15; i^=5; i; })");

    f.expect(1, "1<<0");
    f.expect(8, "1<<3");
    f.expect(10, "5<<1");
    f.expect(2, "5>>1");
    f.expect(-1, "-1>>1");
    f.expect(1, "({ int i=1; i<<=0; i; })");
    f.expect(8, "({ int i=1; i<<=3; i; })");
    f.expect(10, "({ int i=5; i<<=1; i; })");
    f.expect(2, "({ int i=5; i>>=1; i; })");
    f.expect(-1, "({ int i=-1; i>>=1; i; })");

    f.expect(2, "0?1:2");
    f.expect(1, "1?1:2");
    f.expect(-1, "0?-2:-1");
    f.expect(-2, "1?-2:-1");
    f.expect(4, "sizeof(0?1:2)");
    f.expect(8, "sizeof(0?(long)1:(long)2)");
    f.expect(-1, "0?(long)-2:-1");
    f.expect(-1, "0?-2:(long)-1");
    f.expect(-2, "1?(long)-2:-1");
    f.expect(-2, "1?-2:(long)-1");

    f.line("1 ? -2 : (void)-1;");

    f.expect(20, "({ int x; int *p=&x; p+20-p; })");
    f.expect(1, "({ int x; int *p=&x; p+20-p>0; })");
    f.expect(-20, "({ int x; int *p=&x; p-20-p; })");
    f.expect(1, "({ int x; int *p=&x; p-20-p<0; })");

    f.expect(15, "(char *)0xffffffffffffffff - (char *)0xfffffffffffffff0");
    f.expect(-15, "(char *)0xfffffffffffffff0 - (char *)0xffffffffffffffff");
    f.expect(1, "(void *)0xffffffffffffffff > (void *)0");

    f.finish();
    f.run("arith");
}

#[test]
fn test_cast() {
    let mut f = Fixture::new();
    f.main();

    f.expect(131585, "(int)8590066177");
    f.expect(513, "(short)8590066177");
    f.expect(1, "(char)8590066177");
    f.expect(1, "(long)1");
    f.expect(0, "(long)&*(int *)0");
    f.expect(513, "({ int x=512; *(char *)&x=1; x; })");
    f.expect(5, "({ int x=5; long y=(long)&x; *(int*)y; })");

    f.line("(void)1;");

    f.expect(-1, "(char)255");
    f.expect(-1, "(signed char)255");
    f.expect(255, "(unsigned char)255");
    f.expect(-1, "(short)65535");
    f.expect(65535, "(unsigned short)65535");
    f.expect(-1, "(int)0xffffffff");
    f.expect(1, "(unsigned)0xffffffff > 0");

    f.expect(1, "-1<1");
    f.expect(0, "-1<(unsigned)1");
    f.expect(254, "(char)127+(char)127");
    f.expect(65534, "(short)32767+(short)32767");
    f.expect(-1, "-1>>1");
    f.expect(1, "(unsigned long)-1 > 0");
    f.expect(2147483647, "((unsigned)-1)>>1");
    f.expect(-50, "(-100)/2");
    f.expect(1, "((unsigned)-100)/2 == 2147483598");
    f.expect(1, "((unsigned long)-100)/2 == 9223372036854775758");
    f.expect(0, "((long)-1)/(unsigned)100");
    f.expect(-2, "(-100)%7");
    f.expect(2, "((unsigned)-100)%7");
    f.expect(6, "((unsigned long)-100)%9");

    f.expect(65535, "(int)(unsigned short)65535");
    f.expect(65535, "({ unsigned short x = 65535; x; })");
    f.expect(65535, "({ unsigned short x = 65535; (int)x; })");

    f.expect(-1, "({ typedef short T; T x = 65535; (int)x; })");
    f.expect(65535, "({ typedef unsigned short T; T x = 65535; (int)x; })");

    f.expect(0, "(_Bool)0.0");
    f.expect(1, "(_Bool)0.1");
    f.expect(3, "(char)3.0");
    f.expect(1000, "(short)1000.3");
    f.expect(3, "(int)3.99");
    f.expect(2000000000000000i64, "(long)2e15");
    f.expect(3, "(float)3.5");
    f.expect(5, "(double)(float)5.5");
    f.expect(3, "(float)3");
    f.expect(3, "(double)3");
    f.expect(3, "(float)3L");
    f.expect(3, "(double)3L");

    f.finish();
    f.run("cast");
}

#[test]
fn test_compat() {
    let mut f = Fixture::new();
    f.line("_Noreturn int ignored_global;");
    f.line("_Noreturn noreturn_fn(int restrict x) { exit(0); }");
    f.line("void funcy_type(int arg[restrict static 3]) {}");
    f.main();

    f.line("{ _Noreturn x; }");
    f.line("{ volatile x; }");
    f.line("{ int volatile x; }");
    f.line("{ volatile int x; }");
    f.line("{ volatile int volatile volatile x; }");
    f.line("{ int volatile * volatile volatile x; }");
    f.line("{ auto ** restrict __restrict __restrict__ const volatile *x; }");

    f.finish();
    f.run("compat");
}

#[test]
fn test_compound_literal() {
    let mut f = Fixture::new();
    f.line("typedef struct Tree {int val; struct Tree *lhs; struct Tree *rhs;} Tree;");
    f.line("Tree *tree = &(Tree){1, &(Tree){2, &(Tree){3,0,0}, &(Tree){4,0,0}}, 0};");
    f.main();

    f.expect(1, "(int){1}");
    f.expect(2, "((int[]){0,1,2})[2]");
    f.expect("'a'", "((struct {char a; int b;}){'a', 3}).a");
    f.expect(3, "({ int x=3; (int){x}; })");
    f.line("(int){3} = 5;");

    f.expect(1, "tree->val");
    f.expect(2, "tree->lhs->val");
    f.expect(3, "tree->lhs->lhs->val");
    f.expect(4, "tree->lhs->rhs->val");

    f.finish();
    f.run("compound_literal");
}

#[test]
fn test_const() {
    let mut f = Fixture::new();
    f.main();

    f.line("{ const x; }");
    f.line("{ int const x; }");
    f.line("{ const int x; }");
    f.line("{ const int const const x; }");
    f.expect(5, "({ const x = 5; x; })");
    f.expect(8, "({ const x = 8; int *const y=&x; *y; })");
    f.expect(6, "({ const x = 6; *(const * const)&x; })");

    f.finish();
    f.run("const");
}

#[test]
fn test_constexpr() {
    let mut f = Fixture::new();
    f.line("float g40 = 1.5;");
    f.line("double g41 = 0.0 ? 55 : (0, 1 + 1 * 5.0 / 2 * (double)2 * (int)2.0);");
    f.main();

    f.expect(10, "({ enum { ten=1+2+3+4 }; ten; })");
    f.expect(1, "({ int i=0; switch(3) { case 5-2+0*3: i++; } i; })");
    f.expect(8, "({ int x[1+1]; sizeof(x); })");
    f.expect(6, "({ char x[8-2]; sizeof(x); })");
    f.expect(6, "({ char x[2*3]; sizeof(x); })");
    f.expect(3, "({ char x[12/4]; sizeof(x); })");
    f.expect(2, "({ char x[12%10]; sizeof(x); })");
    f.expect(0b100, "({ char x[0b110&0b101]; sizeof(x); })");
    f.expect(0b111, "({ char x[0b110|0b101]; sizeof(x); })");
    f.expect(0b110, "({ char x[0b111^0b001]; sizeof(x); })");
    f.expect(4, "({ char x[1<<2]; sizeof(x); })");
    f.expect(2, "({ char x[4>>1]; sizeof(x); })");
    f.expect(2, "({ char x[(1==1)+1]; sizeof(x); })");
    f.expect(1, "({ char x[(1!=1)+1]; sizeof(x); })");
    f.expect(1, "({ char x[(1<1)+1]; sizeof(x); })");
    f.expect(2, "({ char x[(1<=1)+1]; sizeof(x); })");
    f.expect(2, "({ char x[1?2:3]; sizeof(x); })");
    f.expect(3, "({ char x[0?2:3]; sizeof(x); })");
    f.expect(3, "({ char x[(1,3)]; sizeof(x); })");
    f.expect(2, "({ char x[!0+1]; sizeof(x); })");
    f.expect(1, "({ char x[!1+1]; sizeof(x); })");
    f.expect(2, "({ char x[~-3]; sizeof(x); })");
    f.expect(2, "({ char x[(5||6)+1]; sizeof(x); })");
    f.expect(1, "({ char x[(0||0)+1]; sizeof(x); })");
    f.expect(2, "({ char x[(1&&1)+1]; sizeof(x); })");
    f.expect(1, "({ char x[(1&&0)+1]; sizeof(x); })");
    f.expect(3, "({ char x[(int)3]; sizeof(x); })");
    f.expect(15, "({ char x[(char)0xffffff0f]; sizeof(x); })");
    f.expect(0x10f, "({ char x[(short)0xffff010f]; sizeof(x); })");
    f.expect(4, "({ char x[(int)0xfffffffffff+5]; sizeof(x); })");
    f.expect(8, "({ char x[(int*)0+2]; sizeof(x); })");
    f.expect(12, "({ char x[(int*)16-1]; sizeof(x); })");
    f.expect(3, "({ char x[(int*)16-(int*)4]; sizeof(x); })");

    f.expect(4, "({ char x[(-1>>31)+5]; sizeof(x); })");
    f.expect(255, "({ char x[(unsigned char)0xffffffff]; sizeof(x); })");
    f.expect(0x800f, "({ char x[(unsigned short)0xffff800f]; sizeof(x); })");
    f.expect(1, "({ char x[(unsigned int)0xfffffffffff>>31]; sizeof(x); })");
    f.expect(1, "({ char x[(long)-1/((long)1<<62)+1]; sizeof(x); })");
    f.expect(4, "({ char x[(unsigned long)-1/((long)1<<62)+1]; sizeof(x); })");
    f.expect(1, "({ char x[(unsigned)1<-1]; sizeof(x); })");
    f.expect(1, "({ char x[(unsigned)1<=-1]; sizeof(x); })");

    f.expect(1, "g40==1.5");
    f.expect(1, "g41==11");

    f.finish();
    f.run("constexpr");
}

#[test]
fn test_control() {
    let mut f = Fixture::new();
    f.line("/*");
    f.line(" * This is a block comment.");
    f.line(" */");
    f.main();

    f.expect(3, "({ int x; if (0) x=2; else x=3; x; })");
    f.expect(3, "({ int x; if (1-1) x=2; else x=3; x; })");
    f.expect(2, "({ int x; if (1) x=2; else x=3; x; })");
    f.expect(2, "({ int x; if (2-1) x=2; else x=3; x; })");
    f.expect(55, "({ int i=0; int j=0; for (i=0; i<=10; i=i+1) j=i+j; j; })");
    f.expect(10, "({ int i=0; while(i<10) i=i+1; i; })");
    f.expect(3, "({ 1; {2;} 3; })");
    f.expect(5, "({ ;;; 5; })");
    f.expect(10, "({ int i=0; while(i<10) i=i+1; i; })");
    f.expect(55, "({ int i=0; int j=0; while(i<=10) {j=i+j; i=i+1;} j; })");

    f.expect(3, "(1,2,3)");
    f.expect(5, "({ int i=2, j=3; (i=5,j)=6; i; })");
    f.expect(6, "({ int i=2, j=3; (i=5,j)=6; j; })");

    f.expect(55, "({ int j=0; for (int i=0; i<=10; i=i+1) j=j+i; j; })");
    f.expect(3, "({ int i=3; int j=0; for (int i=0; i<=10; i=i+1) j=j+i; i; })");

    f.expect(1, "0||1");
    f.expect(1, "0||(2-2)||5");
    f.expect(0, "0||0");
    f.expect(0, "0||(2-2)");

    f.expect(0, "0&&1");
    f.expect(0, "(2-2)&&5");
    f.expect(1, "1&&5");

    f.expect(3, "({ int i=0; goto a; a: i++; b: i++; c: i++; i; })");
    f.expect(2, "({ int i=0; goto e; d: i++; e: i++; f: i++; i; })");
    f.expect(1, "({ int i=0; goto i; g: i++; h: i++; i: i++; i; })");

    f.expect(1, "({ typedef int foo; goto foo; foo:; 1; })");

    f.expect(3, "({ int i=0; for(;i<10;i++) { if (i == 3) break; } i; })");
    f.expect(4, "({ int i=0; while (1) { if (i++ == 3) break; } i; })");
    f.expect(3, "({ int i=0; for(;i<10;i++) { for (;;) break; if (i == 3) break; } i; })");
    f.expect(4, "({ int i=0; while (1) { while(1) break; if (i++ == 3) break; } i; })");

    f.expect(10, "({ int i=0; int j=0; for (;i<10;i++) { if (i>5) continue; j++; } i; })");
    f.expect(6, "({ int i=0; int j=0; for (;i<10;i++) { if (i>5) continue; j++; } j; })");
    f.expect(10, "({ int i=0; int j=0; for(;!i;) { for (;j!=10;j++) continue; break; } j; })");
    f.expect(11, "({ int i=0; int j=0; while (i++<10) { if (i>5) continue; j++; } i; })");
    f.expect(5, "({ int i=0; int j=0; while (i++<10) { if (i>5) continue; j++; } j; })");
    f.expect(11, "({ int i=0; int j=0; while(!i) { while (j++!=10) continue; break; } j; })");

    f.expect(5, "({ int i=0; switch(0) { case 0:i=5;break; case 1:i=6;break; case 2:i=7;break; } i; })");
    f.expect(6, "({ int i=0; switch(1) { case 0:i=5;break; case 1:i=6;break; case 2:i=7;break; } i; })");
    f.expect(7, "({ int i=0; switch(2) { case 0:i=5;break; case 1:i=6;break; case 2:i=7;break; } i; })");
    f.expect(0, "({ int i=0; switch(3) { case 0:i=5;break; case 1:i=6;break; case 2:i=7;break; } i; })");
    f.expect(5, "({ int i=0; switch(0) { case 0:i=5;break; default:i=7; } i; })");
    f.expect(7, "({ int i=0; switch(1) { case 0:i=5;break; default:i=7; } i; })");
    f.expect(2, "({ int i=0; switch(1) { case 0: 0; case 1: 0; case 2: 0; i=2; } i; })");
    f.expect(0, "({ int i=0; switch(3) { case 0: 0; case 1: 0; case 2: 0; i=2; } i; })");

    f.expect(3, "({ int i=0; switch(-1) { case 0xffffffff: i=3; break; } i; })");

    f.expect(7, "({ int i=0; int j=0; do { j++; } while (i++ < 6); j; })");
    f.expect(4, "({ int i=0; int j=0; int k=0; do { if (++j > 3) break; continue; k++; } while (1); j; })");

    f.expect(0, "0.0 && 0.0");
    f.expect(0, "0.0 && 0.1");
    f.expect(0, "0.3 && 0.0");
    f.expect(1, "0.3 && 0.5");
    f.expect(0, "0.0 || 0.0");
    f.expect(1, "0.0 || 0.1");
    f.expect(1, "0.3 || 0.0");
    f.expect(1, "0.3 || 0.5");
    f.expect(5, "({ int x; if (0.0) x=3; else x=5; x; })");
    f.expect(3, "({ int x; if (0.1) x=3; else x=5; x; })");
    f.expect(5, "({ int x=5; if (0.0) x=3; x; })");
    f.expect(3, "({ int x=5; if (0.1) x=3; x; })");
    f.expect(10, "({ double i=10.0; int j=0; for (; i; i--, j++); j; })");
    f.expect(10, "({ double i=10.0; int j=0; do j++; while(--i); j; })");

    f.finish();
    f.run("control");
}

#[test]
fn test_decl() {
    let mut f = Fixture::new();
    f.main();

    f.expect(1, "({ char x; sizeof(x); })");
    f.expect(2, "({ short int x; sizeof(x); })");
    f.expect(2, "({ int short x; sizeof(x); })");
    f.expect(4, "({ int x; sizeof(x); })");
    f.expect(8, "({ long int x; sizeof(x); })");
    f.expect(8, "({ int long x; sizeof(x); })");

    f.expect(8, "({ long long x; sizeof(x); })");

    f.expect(0, "({ _Bool x=0; x; })");
    f.expect(1, "({ _Bool x=1; x; })");
    f.expect(1, "({ _Bool x=2; x; })");
    f.expect(1, "(_Bool)1");
    f.expect(1, "(_Bool)2");
    f.expect(0, "(_Bool)(char)256");

    f.finish();
    f.run("decl");
}

#[test]
fn test_enum() {
    let mut f = Fixture::new();
    f.main();

    f.expect(0, "({ enum { zero, one, two }; zero; })");
    f.expect(1, "({ enum { zero, one, two }; one; })");
    f.expect(2, "({ enum { zero, one, two }; two; })");
    f.expect(5, "({ enum { five=5, six, seven }; five; })");
    f.expect(6, "({ enum { five=5, six, seven }; six; })");
    f.expect(0, "({ enum { zero, five=5, three=3, four }; zero; })");
    f.expect(5, "({ enum { zero, five=5, three=3, four }; five; })");
    f.expect(3, "({ enum { zero, five=5, three=3, four }; three; })");
    f.expect(4, "({ enum { zero, five=5, three=3, four }; four; })");
    f.expect(4, "({ enum { zero, one, two } x; sizeof(x); })");
    f.expect(4, "({ enum t { zero, one, two }; enum t y; sizeof(y); })");

    f.finish();
    f.run("enum");
}

#[test]
fn test_extern() {
    let mut f = Fixture::new();
    f.line("extern int ext1;");
    f.line("extern int *ext2;");
    f.main();

    f.expect(5, "ext1");
    f.expect(5, "*ext2");

    f.line("extern int ext3;");
    f.expect(7, "ext3");

    f.line("int ext_fn1(int x);");
    f.expect(5, "ext_fn1(5)");

    f.line("extern int ext_fn2(int x);");
    f.expect(8, "ext_fn2(8)");

    f.finish();
    f.run("extern");
}

#[test]
fn test_float() {
    let mut f = Fixture::new();
    f.main();

    f.expect(35, "(float)(char)35");
    f.expect(35, "(float)(short)35");
    f.expect(35, "(float)(int)35");
    f.expect(35, "(float)(long)35");
    f.expect(35, "(float)(unsigned char)35");
    f.expect(35, "(float)(unsigned short)35");
    f.expect(35, "(float)(unsigned int)35");
    f.expect(35, "(float)(unsigned long)35");

    f.expect(35, "(double)(char)35");
    f.expect(35, "(double)(short)35");
    f.expect(35, "(double)(int)35");
    f.expect(35, "(double)(long)35");
    f.expect(35, "(double)(unsigned char)35");
    f.expect(35, "(double)(unsigned short)35");
    f.expect(35, "(double)(unsigned int)35");
    f.expect(35, "(double)(unsigned long)35");

    f.expect(35, "(char)(float)35");
    f.expect(35, "(short)(float)35");
    f.expect(35, "(int)(float)35");
    f.expect(35, "(long)(float)35");
    f.expect(35, "(unsigned char)(float)35");
    f.expect(35, "(unsigned short)(float)35");
    f.expect(35, "(unsigned int)(float)35");
    f.expect(35, "(unsigned long)(float)35");

    f.expect(35, "(char)(double)35");
    f.expect(35, "(short)(double)35");
    f.expect(35, "(int)(double)35");
    f.expect(35, "(long)(double)35");
    f.expect(35, "(unsigned char)(double)35");
    f.expect(35, "(unsigned short)(double)35");
    f.expect(35, "(unsigned int)(double)35");
    f.expect(35, "(unsigned long)(double)35");

    f.expect(-2147483648, "(double)(unsigned long)(long)-1");

    f.expect(1, "2e3==2e3");
    f.expect(0, "2e3==2e5");
    f.expect(1, "2.0==2");
    f.expect(0, "5.1<5");
    f.expect(0, "5.0<5");
    f.expect(1, "4.9<5");
    f.expect(0, "5.1<=5");
    f.expect(1, "5.0<=5");
    f.expect(1, "4.9<=5");

    f.expect(1, "2e3f==2e3");
    f.expect(0, "2e3f==2e5");
    f.expect(1, "2.0f==2");
    f.expect(0, "5.1f<5");
    f.expect(0, "5.0f<5");
    f.expect(1, "4.9f<5");
    f.expect(0, "5.1f<=5");
    f.expect(1, "5.0f<=5");
    f.expect(1, "4.9f<=5");

    f.expect(6, "2.3+3.8");
    f.expect(-1, "2.3-3.8");
    f.expect(-3, "-3.8");
    f.expect(13, "3.3*4");
    f.expect(2, "5.0/2");

    f.expect(6, "2.3f+3.8f");
    f.expect(6, "2.3f+3.8");
    f.expect(-1, "2.3f-3.8");
    f.expect(-3, "-3.8f");
    f.expect(13, "3.3f*4");
    f.expect(2, "5.0f/2");

    f.expect(0, "0.0/0.0 == 0.0/0.0");
    f.expect(1, "0.0/0.0 != 0.0/0.0");

    f.expect(0, "0.0/0.0 < 0");
    f.expect(0, "0.0/0.0 <= 0");
    f.expect(0, "0.0/0.0 > 0");
    f.expect(0, "0.0/0.0 >= 0");

    f.expect(0, "!3.");
    f.expect(1, "!0.");
    f.expect(0, "!3.f");
    f.expect(1, "!0.f");

    f.expect(5, "0.0 ? 3 : 5");
    f.expect(3, "1.2 ? 3 : 5");

    f.finish();
    f.run("float");
}

#[test]
fn test_function() {
    let mut f = Fixture::new();

    f.line("int ret3(void) { return 3; return 5; }");
    f.line("int add2(int x, int y) { return x + y; }");
    f.line("int sub2(int x, int y) { return x - y; }");
    f.line("int add6(int a, int b, int c, int d, int e, int f) { return a + b + c + d + e + f; }");
    f.line("int addx(int *x, int y) { return *x + y; }");
    f.line("int sub_char(char a, char b, char c) { return a - b - c; }");
    f.line("int fib(int x) { if (x<=1) return 1; return fib(x-1) + fib(x-2); }");
    f.line("int sub_long(long a, long b, long c) { return a - b - c; }");
    f.line("int sub_short(short a, short b, short c) { return a - b - c; }");
    f.line("int g1;");
    f.line("int *g1_ptr(void) { return &g1; }");
    f.line("char int_to_char(int x) { return x; }");
    f.line("long first_long(long a, char b) { return a; }");
    f.line("int div_long(long a, long b) { return a / b; }");
    f.line("_Bool bool_fn_add(_Bool x) { return x + 1; }");
    f.line("_Bool bool_fn_sub(_Bool x) { return x - 1; }");
    f.line("static int static_fn(void) { return 3; }");
    f.line("int param_decay(int x[]) { return x[0]; }");
    f.line("int counter() { static int i; static int j = 1+1; return i++ + j++; }");
    f.line("void ret_none() { return; }");
    f.line("_Bool false_fn();");
    f.line("_Bool true_fn();");
    f.line("char char_fn();");
    f.line("short short_fn();");
    f.line("unsigned char uchar_fn();");
    f.line("unsigned short ushort_fn();");
    f.line("signed char schar_fn();");
    f.line("signed short sshort_fn();");

    f.line("typedef struct {int gp_offset; int fp_offset; void *overflow_arg_area; void *reg_save_area;} __va_elem;");
    f.line("typedef __va_elem va_list[1];");
    f.line("int add_all(int n, ...);");
    f.line("int sprintf(char *buf, char *fmt, ...);");
    f.line("int vsprintf(char *buf, char *fmt, va_list ap);");
    f.line("void fmt(char *buf, char *fmt, ...) { va_list ap; *ap = *(__va_elem *)__va_area__; vsprintf(buf, fmt, ap); }");

    f.line("double add_double(double x, double y);");
    f.line("float add_float(float x, float y);");
    f.line("float add_float3(float x, float y, float z) { return x + y + z; }");
    f.line("double add_double3(double x, double y, double z) { return x + y + z; }");
    f.line("int (*fnptr(int (*fn)(int n, ...)))(int, ...) { return fn; }");
    f.line("int param_decay2(int x()) { return x(); }");
    f.line("char *func_fn(void) { return __func__; }");
    f.line("char *function_fn(void) { return __FUNCTION__; }");
    f.main();

    f.expect(3, "ret3()");
    f.expect(8, "add2(3, 5)");
    f.expect(2, "sub2(5, 3)");
    f.expect(21, "add6(1,2,3,4,5,6)");
    f.expect(66, "add6(1,2,add6(3,4,5,6,7,8),9,10,11)");
    f.expect(136, "add6(1,2,add6(3,add6(4,5,6,7,8,9),10,11,12,13),14,15,16)");

    f.expect(7, "add2(3,4)");
    f.expect(1, "sub2(4,3)");
    f.expect(55, "fib(9)");

    f.expect(1, "({ sub_char(7, 3, 3); })");

    f.expect(1, "sub_long(7, 3, 3)");
    f.expect(1, "sub_short(7, 3, 3)");

    f.line("g1 = 3;");
    f.expect(3, "*g1_ptr()");
    f.expect(5, "int_to_char(261)");
    f.expect(261, "first_long(261, 0)");
    f.expect(-5, "div_long(-10, 2)");

    f.expect(1, "bool_fn_add(3)");
    f.expect(0, "bool_fn_sub(3)");
    f.expect(1, "bool_fn_add(-3)");
    f.expect(0, "bool_fn_sub(-3)");
    f.expect(1, "bool_fn_add(0)");
    f.expect(1, "bool_fn_sub(0)");

    f.expect(3, "static_fn()");

    f.expect(3, "({ int x[2]; x[0]=3; param_decay(x); })");

    f.expect(2, "counter()");
    f.expect(4, "counter()");
    f.expect(6, "counter()");

    f.line("ret_none();");

    f.expect(1, "true_fn()");
    f.expect(0, "false_fn()");
    f.expect(3, "char_fn()");
    f.expect(5, "short_fn()");
    f.expect(251, "uchar_fn()");
    f.expect(65528, "ushort_fn()");
    f.expect(-5, "schar_fn()");
    f.expect(-8, "sshort_fn()");

    f.expect(6, "add_all(3,1,2,3)");
    f.expect(5, "add_all(4,1,2,3,-1)");

    f.expect(0, r#"({ char buf[100]; sprintf(buf, "%d %d %s", 1, 2, "foo"); strcmp("1 2 foo", buf); })"#);
    f.expect(0, r#"({ char buf[100]; fmt(buf, "%d %d %s", 1, 2, "foo"); strcmp("1 2 foo", buf); })"#);

    f.expect(6, "add_float(2.3, 3.8)");
    f.expect(6, "add_double(2.3, 3.8)");

    f.expect(7, "add_float3(2.5, 2.5, 2.5)");
    f.expect(7, "add_double3(2.5, 2.5, 2.5)");

    f.expect(0, r#"({ char buf[100]; float x = 3.5; sprintf(buf, "%.1f", x); strcmp(buf, "3.5"); })"#);
    f.expect(0, r#"({ char buf[100]; float x = 3.5; fmt(buf, "%.1f", x); strcmp(buf, "3.5"); })"#);

    f.expect(5, "(add2)(2,3)");
    f.expect(5, "(&add2)(2,3)");
    f.expect(7, "({ int (*fn)(int,int) = add2; fn(2,5); })");
    f.expect(6, "fnptr(add_all)(3, 1, 2, 3)");

    f.expect(3, "param_decay2(ret3)");

    f.expect(5, "sizeof(__func__)");
    f.expect(0, "strcmp(\"main\", __func__)");
    f.expect(0, "strcmp(\"func_fn\", func_fn())");
    f.expect(0, "strcmp(\"main\", __FUNCTION__)");
    f.expect(0, "strcmp(\"function_fn\", function_fn())");

    f.finish();
    f.run("function");
}

#[test]
fn test_initializer() {
    let mut f = Fixture::new();
    f.line("char g3 = 3;");
    f.line("short g4 = 4;");
    f.line("int g5 = 5;");
    f.line("long g6 = 6;");
    f.line("int g9[3] = {0, 1, 2};");
    f.line("struct {char a; int b;} g11[2] = {{1, 2}, {3, 4}};");
    f.line("struct {int a[2];} g12[2] = {{{1, 2}}};");
    f.line("union { int a; char b[8]; } g13[2] = {0x01020304, 0x05060708};");
    f.line(r#"char g17[] = "foobar";"#);
    f.line(r#"char g18[10] = "foobar";"#);
    f.line(r#"char g19[3] = "foobar";"#);
    f.line("char *g20 = g17+0;");
    f.line("char *g21 = g17+3;");
    f.line("char *g22 = g17-3;");
    f.line("char *g23[] = {g17+0, g17+3, g17-3};");
    f.line("int g24=3;");
    f.line("int *g25=&g24;");
    f.line("int g26[3] = {1, 2, 3};");
    f.line("int *g27 = g26 + 1;");
    f.line("int *g28 = &g11[1].a;");
    f.line("long g29 = (long)(long)g26;");
    f.line("struct { struct { int a[3]; } a; } g30 = {{{1,2,3}}};");
    f.line("int *g31=g30.a.a;");
    f.line("struct {int a[2];} g40[2] = {{1, 2}, 3, 4};");
    f.line("struct {int a[2];} g41[2] = {1, 2, 3, 4};");
    f.line("char g43[][4] = {'f', 'o', 'o', 0, 'b', 'a', 'r', 0};");
    f.line(r#"char *g44 = {"foo"};"#);
    f.main();

    f.expect(1, "({ int x[3]={1,2,3}; x[0]; })");
    f.expect(2, "({ int x[3]={1,2,3}; x[1]; })");
    f.expect(3, "({ int x[3]={1,2,3}; x[2]; })");
    f.expect(3, "({ int x[3]={1,2,3,4}; x[2]; })");

    f.expect(2, "({ int x[2][3]={{1,2,3},{4,5,6}}; x[0][1]; })");
    f.expect(4, "({ int x[2][3]={{1,2,3},{4,5,6}}; x[1][0]; })");
    f.expect(6, "({ int x[2][3]={{1,2,3},{4,5,6}}; x[1][2]; })");

    f.expect(0, "({ int x[3]={}; x[0]; })");
    f.expect(0, "({ int x[3]={}; x[1]; })");
    f.expect(0, "({ int x[3]={}; x[2]; })");

    f.expect(2, "({ int x[2][3]={{1,2}}; x[0][1]; })");
    f.expect(0, "({ int x[2][3]={{1,2}}; x[1][0]; })");
    f.expect(0, "({ int x[2][3]={{1,2}}; x[1][2]; })");

    f.expect(b'a', r#"({ char x[4]="abc"; x[0]; })"#);
    f.expect(b'c', r#"({ char x[4]="abc"; x[2]; })"#);
    f.expect(0, r#"({ char x[4]="abc"; x[3]; })"#);
    f.expect(b'a', r#"({ char x[2][4]={"abc","def"}; x[0][0]; })"#);
    f.expect(0, r#"({ char x[2][4]={"abc","def"}; x[0][3]; })"#);
    f.expect(b'd', r#"({ char x[2][4]={"abc","def"}; x[1][0]; })"#);
    f.expect(b'f', r#"({ char x[2][4]={"abc","def"}; x[1][2]; })"#);

    f.expect(4, "({ int x[]={1,2,3,4}; x[3]; })");
    f.expect(16, "({ int x[]={1,2,3,4}; sizeof(x); })");
    f.expect(4, r#"({ char x[]="foo"; sizeof(x); })"#);

    f.expect(4, r#"({ typedef char T[]; T x="foo"; T y="x"; sizeof(x); })"#);
    f.expect(2, r#"({ typedef char T[]; T x="foo"; T y="x"; sizeof(y); })"#);
    f.expect(2, r#"({ typedef char T[]; T x="x"; T y="foo"; sizeof(x); })"#);
    f.expect(4, r#"({ typedef char T[]; T x="x"; T y="foo"; sizeof(y); })"#);

    f.expect(1, "({ struct {int a; int b; int c;} x={1,2,3}; x.a; })");
    f.expect(2, "({ struct {int a; int b; int c;} x={1,2,3}; x.b; })");
    f.expect(3, "({ struct {int a; int b; int c;} x={1,2,3}; x.c; })");
    f.expect(1, "({ struct {int a; int b; int c;} x={1}; x.a; })");
    f.expect(0, "({ struct {int a; int b; int c;} x={1}; x.b; })");
    f.expect(0, "({ struct {int a; int b; int c;} x={1}; x.c; })");

    f.expect(1, "({ struct {int a; int b;} x[2]={{1,2},{3,4}}; x[0].a; })");
    f.expect(2, "({ struct {int a; int b;} x[2]={{1,2},{3,4}}; x[0].b; })");
    f.expect(3, "({ struct {int a; int b;} x[2]={{1,2},{3,4}}; x[1].a; })");
    f.expect(4, "({ struct {int a; int b;} x[2]={{1,2},{3,4}}; x[1].b; })");

    f.expect(0, "({ struct {int a; int b;} x[2]={{1,2}}; x[1].b; })");

    f.expect(0, "({ struct {int a; int b;} x={}; x.a; })");
    f.expect(0, "({ struct {int a; int b;} x={}; x.b; })");

    f.expect(5, "({ typedef struct {int a,b,c,d,e,f;} T; T x={1,2,3,4,5,6}; T y; y=x; y.e; })");
    f.expect(2, "({ typedef struct {int a,b;} T; T x={1,2}; T y, z; z=y=x; z.b; })");

    f.expect(1, "({ typedef struct {int a,b;} T; T x={1,2}; T y=x; y.a; })");

    f.expect(4, "({ union { int a; char b[4]; } x={0x01020304}; x.b[0]; })");
    f.expect(3, "({ union { int a; char b[4]; } x={0x01020304}; x.b[1]; })");

    f.expect(0x01020304, "({ union { struct { char a,b,c,d; } e; int f; } x={{4,3,2,1}}; x.f; })");

    f.expect(3, "g3");
    f.expect(4, "g4");
    f.expect(5, "g5");
    f.expect(6, "g6");

    f.expect(0, "g9[0]");
    f.expect(1, "g9[1]");
    f.expect(2, "g9[2]");

    f.expect(1, "g11[0].a");
    f.expect(2, "g11[0].b");
    f.expect(3, "g11[1].a");
    f.expect(4, "g11[1].b");

    f.expect(1, "g12[0].a[0]");
    f.expect(2, "g12[0].a[1]");
    f.expect(0, "g12[1].a[0]");
    f.expect(0, "g12[1].a[1]");

    f.expect(4, "g13[0].b[0]");
    f.expect(3, "g13[0].b[1]");
    f.expect(8, "g13[1].b[0]");
    f.expect(7, "g13[1].b[1]");

    f.expect(7, "sizeof(g17)");
    f.expect(10," sizeof(g18)");
    f.expect(3, "sizeof(g19)");

    f.expect(0, r#"memcmp(g17, "foobar", 7)"#);
    f.expect(0, r#"memcmp(g18, "foobar\0\0\0", 10)"#);
    f.expect(0, r#"memcmp(g19, "foo", 3)"#);

    f.expect(0, r#"strcmp(g20, "foobar")"#);
    f.expect(0, r#"strcmp(g21, "bar")"#);
    f.expect(0, r#"strcmp(g22+3, "foobar")"#);

    f.expect(0, r#"strcmp(g23[0], "foobar")"#);
    f.expect(0, r#"strcmp(g23[1], "bar")"#);
    f.expect(0, r#"strcmp(g23[2]+3, "foobar")"#);

    f.expect(3, "g24");
    f.expect(3, "*g25");
    f.expect(2, "*g27");
    f.expect(3, "*g28");
    f.expect(1, "*(int *)g29");

    f.expect(1, "g31[0]");
    f.expect(2, "g31[1]");
    f.expect(3, "g31[2]");

    f.expect(1, "g40[0].a[0]");
    f.expect(2, "g40[0].a[1]");
    f.expect(3, "g40[1].a[0]");
    f.expect(4, "g40[1].a[1]");

    f.expect(1, "g41[0].a[0]");
    f.expect(2, "g41[0].a[1]");
    f.expect(3, "g41[1].a[0]");
    f.expect(4, "g41[1].a[1]");

    f.expect(0, "({ int x[2][3]={0,1,2,3,4,5}; x[0][0]; })");
    f.expect(3, "({ int x[2][3]={0,1,2,3,4,5}; x[1][0]; })");

    f.expect(0, "({ struct {int a; int b;} x[2]={0,1,2,3}; x[0].a; })");
    f.expect(2, "({ struct {int a; int b;} x[2]={0,1,2,3}; x[1].a; })");

    f.expect(0, r#"strcmp(g43[0], "foo")"#);
    f.expect(0, r#"strcmp(g43[1], "bar")"#);
    f.expect(0, r#"strcmp(g44, "foo")"#);

    f.expect(3, "({ int a[]={1,2,3,}; a[2]; })");
    f.expect(1, "({ struct {int a,b,c;} x={1,2,3,}; x.a; })");
    f.expect(1, "({ union {int a; char b;} x={1,}; x.a; })");
    f.expect(2, "({ enum {x,y,z,}; z; })");

    f.finish();
    f.run("initializer");
}

#[test]
fn test_literal() {
    let mut f = Fixture::new();
    f.main();

    f.expect(97, "'a'");
    f.expect(10, "'\\n'");
    f.expect(-128, "'\\x80'");

    f.expect(511, "0777");
    f.expect(0, "0x0");
    f.expect(10, "0xa");
    f.expect(10, "0XA");
    f.expect(48879, "0xbeef");
    f.expect(48879, "0xBEEF");
    f.expect(48879, "0XBEEF");
    f.expect(0, "0b0");
    f.expect(1, "0b1");
    f.expect(47, "0b101111");
    f.expect(47, "0B101111");

    f.expect(4, "sizeof(0)");
    f.expect(8, "sizeof(0L)");
    f.expect(8, "sizeof(0LU)");
    f.expect(8, "sizeof(0UL)");
    f.expect(8, "sizeof(0LL)");
    f.expect(8, "sizeof(0LLU)");
    f.expect(8, "sizeof(0Ull)");
    f.expect(8, "sizeof(0l)");
    f.expect(8, "sizeof(0ll)");
    f.expect(8, "sizeof(0x0L)");
    f.expect(8, "sizeof(0b0L)");
    f.expect(4, "sizeof(2147483647)");
    f.expect(8, "sizeof(2147483648)");
    f.expect(-1, "0xffffffffffffffff");
    f.expect(8, "sizeof(0xffffffffffffffff)");
    f.expect(4, "sizeof(4294967295U)");
    f.expect(8, "sizeof(4294967296U)");

    f.expect(3, "-1U>>30");
    f.expect(3, "-1Ul>>62");
    f.expect(3, "-1ull>>62");

    f.expect(1, "0xffffffffffffffffl>>63");
    f.expect(1, "0xffffffffffffffffll>>63");

    f.expect(-1, "18446744073709551615");
    f.expect(8, "sizeof(18446744073709551615)");
    f.expect(-1, "18446744073709551615>>63");

    f.expect(-1, "0xffffffffffffffff");
    f.expect(8, "sizeof(0xffffffffffffffff)");
    f.expect(1, "0xffffffffffffffff>>63");

    f.expect(-1, "01777777777777777777777");
    f.expect(8, "sizeof(01777777777777777777777)");
    f.expect(1, "01777777777777777777777>>63");

    f.expect(-1, "0b1111111111111111111111111111111111111111111111111111111111111111");
    f.expect(8, "sizeof(0b1111111111111111111111111111111111111111111111111111111111111111)");
    f.expect(1, "0b1111111111111111111111111111111111111111111111111111111111111111>>63");

    f.expect(8, "sizeof(2147483648)");
    f.expect(4, "sizeof(2147483647)");

    f.expect(8, "sizeof(0x1ffffffff)");
    f.expect(4, "sizeof(0xffffffff)");
    f.expect(1, "0xffffffff>>31");

    f.expect(8, "sizeof(040000000000)");
    f.expect(4, "sizeof(037777777777)");
    f.expect(1, "037777777777>>31");

    f.expect(8, "sizeof(0b111111111111111111111111111111111)");
    f.expect(4, "sizeof(0b11111111111111111111111111111111)");
    f.expect(1, "0b11111111111111111111111111111111>>31");

    f.expect(-1, "1 << 31 >> 31");
    f.expect(-1, "01 << 31 >> 31");
    f.expect(-1, "0x1 << 31 >> 31");
    f.expect(-1, "0b1 << 31 >> 31");

    f.line("0.0;");
    f.line("1.0;");
    f.line("3e+8;");
    f.line("0x10.1p0;");
    f.line(".1E4f;");

    f.expect(4, "sizeof(8.f)");
    f.expect(4, "sizeof(0.3F)");
    f.expect(8, "sizeof(0.)");
    f.expect(8, "sizeof(.0)");
    f.expect(8, "sizeof(5.l)");
    f.expect(8, "sizeof(2.0L)");

    f.expect(1, "size\\\nof(char)");

    f.finish();
    f.run("literal");
}

#[test]
fn test_macro() {
    let mut f = Fixture::new();
    f.includes.insert("include1.h", "#include \"include2.h\"\nchar *include1_filename = __FILE__;\nint include1_line = __LINE__;\nint include1 = 5;");
    f.includes.insert("include2.h", "int include2 = 7;");
    f.includes.insert("include3.h", "#define foo 3");
    f.includes.insert("include4.h", "#define foo 4");

    f.line("char *main_filename1 = __FILE__;");
    f.line("int main_line1 = __LINE__;");
    f.line("#define LINE() __LINE__");
    f.line("int main_line2 = LINE();");

    f.line("#include \"include1.h\"");
    f.line("#");
    f.line("/* */ #");
    f.line("int ret3(void) { return 3; }");
    f.line("int dbl(int x) { return x*x; }");
    f.line("int add2(int x, int y) { return x+y; }");
    f.line("int add6(int a, int b, int c, int d, int e, int f) { return a+b+c+d+e+f; }");
    f.main();

    f.expect(5, "include1");
    f.expect(7, "include2");

    f.line("#include \"include3.h\"");
    f.expect(3, "foo");
    f.line("#include \"include4.h\"");
    f.expect(4, "foo");

    f.line("#define INCLUDE3 \"include3.h\"");
    f.line("#include INCLUDE3");
    f.expect(3, "foo");

    f.line("#define INCLUDE4 < include4.h");
    f.line("#include INCLUDE4 >");
    f.expect(4, "foo");

    f.line("#undef foo");

    f.line("#if 0");
    f.line("#include \"/no/such/file\"");
    f.line("#invalid directive");
    f.expect(0, "1");
    f.line("#if nested");
    f.line("#endif // nested");
    f.line("#endif");

    f.line("int m = 0;");
    f.line("#if 1");
    f.line("m = 5;");
    f.line("#endif");
    f.expect(5, "m");

    f.line("#if 1 // +1");
    f.line("#if 0 // +2");
    f.line("#if 1 // +3");
    f.line("foo bar");
    f.line("#endif // -3");
    f.line("#endif // -2");
    f.line("m = 3;");
    f.line("#endif // -1");
    f.expect(3, "m");

    f.line("#if 1-1 // +1");
    f.line("#if 1 // +2");
    f.line("#endif // -2");
    f.line("#if 1 // +3");
    f.line("#else");
    f.line("#endif // -3");
    f.line("#if 0 // +4");
    f.line("#else");
    f.line("#endif // -4");
    f.line("m = 2;");
    f.line("#else");
    f.line("#if 1 // +5");
    f.line("m = 3;");
    f.line("#endif // -5");
    f.line("#endif // -1");
    f.expect(3, "m");

    f.line("#if 1");
    f.line("m = 2;");
    f.line("#else");
    f.line("m = 3;");
    f.line("#endif");
    f.expect(2, "m");

    f.line("#if 1");
    f.line("m = 2;");
    f.line("#else");
    f.line("m = 3;");
    f.line("#endif");
    f.expect(2, "m");

    f.line("#if 0");
    f.line("m = 1;");
    f.line("#elif 0");
    f.line("m = 2;");
    f.line("#elif 3+5");
    f.line("m = 3;");
    f.line("#elif 1*5");
    f.line("m = 4;");
    f.line("#endif");
    f.expect(3, "m");

    f.line("#if 1+5");
    f.line("m = 1;");
    f.line("#elif 1");
    f.line("m = 2;");
    f.line("#elif 3");
    f.line("m = 2;");
    f.line("#endif");
    f.expect(1, "m");

    f.line("#if 0 // +1");
    f.line("m = 1;");
    f.line("#elif 1");
    f.line("#if 1 // +2");
    f.line("m = 2;");
    f.line("#else");
    f.line("m = 3;");
    f.line("#endif // -2");
    f.line("#else");
    f.line("m = 5;");
    f.line("#endif // -1");
    f.expect(2, "m");

    f.line("int M1 = 5;");
    f.line("#define M1 3");
    f.expect(3, "M1");
    f.line("#define M1 4");
    f.expect(4, "M1");

    f.line("#define M2 3+4+");
    f.expect(12, "M2 5");

    f.line("#define M3 3+4");
    f.expect(23, "M3*5");

    f.line("#define ASSERT_ assert(");
    f.line("#define if 5");
    f.line("#define five \"5\"");
    f.line("#define END )");
    f.line("ASSERT_ 5, if, five END;");

    f.line("#undef ASSERT_");
    f.line("#undef if");
    f.line("#undef five");
    f.line("#undef END");
    f.line("if (0);");

    f.line("#define M4 5");
    f.line("#if M4");
    f.line("m = 5;");
    f.line("#else");
    f.line("m = 6;");
    f.line("#endif");
    f.expect(5, "m");

    f.line("#if M4-5");
    f.line("m = 6;");
    f.line("#elif M4");
    f.line("m = 5;");
    f.line("#endif");
    f.expect(5, "m");

    f.line("int M5 = 6;");
    f.line("#define M5 M5 + 3");
    f.expect(9, "M5");

    f.line("#define M6 M5 + 3");
    f.expect(12, "M6");

    f.line("int M7 = 3;");
    f.line("#define M7 M8 * 5");
    f.line("#define M8 M7 + 2");
    f.expect(13, "M7");

    f.line("#ifdef M9");
    f.line("m = 5;");
    f.line("#else");
    f.line("m = 3;");
    f.line("#endif");
    f.expect(3, "m");

    f.line("#define M9");
    f.line("#ifdef M9");
    f.line("m = 5;");
    f.line("#else");
    f.line("m = 3;");
    f.line("#endif");
    f.expect(5, "m");

    f.line("#ifndef M10");
    f.line("m = 3;");
    f.line("#else");
    f.line("m = 5;");
    f.line("#endif");
    f.expect(3, "m");

    f.line("#define M10");
    f.line("#ifndef M10");
    f.line("m = 3;");
    f.line("#else");
    f.line("m = 5;");
    f.line("#endif");
    f.expect(5, "m");

    f.line("#if 0");
    f.line("#ifdef NO_SUCH_MACRO");
    f.line("#endif");
    f.line("#ifndef NO_SUCH_MACRO");
    f.line("#endif");
    f.line("#else");
    f.line("#endif");

    f.line("#define M11() 1");
    f.line("int M11 = 5;");
    f.expect(1, "M11()");
    f.expect(5, "M11");

    f.line("#define M11 ()");
    f.expect(3, "ret3 M11");

    f.line("#define M12(x,y) x+y");
    f.expect(7, "M12(3, 4)");

    f.line("#define M12(x,y) x*y");
    f.expect(24, "M12(3+4, 4+5)");

    f.line("#define M12(x,y) (x)*(y)");
    f.expect(63, "M12(3+4, 4+5)");

    f.line("#define M12(x,y) x y");
    f.expect(9, "M12(, 4+5)");

    f.line("#define M12(x,y) x*y");
    f.expect(20, "M12((2+3), 4)");

    f.line("#define M12(x,y) x*y");
    f.expect(12, "M12((2,3), 4)");

    f.line("#define dbl(x) M13(x) * x");
    f.line("#define M13(x) dbl(x) + 3");
    f.expect(10, "dbl(2)");

    f.line("#define M14(x) #x");
    f.expect("'a'", "M14( a!b  `\"\"c)[0]");
    f.expect("'!'", "M14( a!b  `\"\"c)[1]");
    f.expect("'b'", "M14( a!b  `\"\"c)[2]");
    f.expect("' '", "M14( a!b  `\"\"c)[3]");
    f.expect("'`'", "M14( a!b  `\"\"c)[4]");
    f.expect("'\"'", "M14( a!b  `\"\"c)[5]");
    f.expect("'\"'", "M14( a!b  `\"\"c)[6]");
    f.expect("'c'", "M14( a!b  `\"\"c)[7]");
    f.expect(0, "M14( a!b  `\"\"c)[8]");

    f.line("#define paste(x,y) x##y");
    f.expect(15, "paste(1,5)");
    f.expect(255, "paste(0,xff)");
    f.expect(3, "({ int foobar=3; paste(foo,bar); })");
    f.expect(5, "paste(5,)");
    f.expect(5, "paste(,5)");

    f.line("#define i 5");
    f.expect(101, "({ int i3=100; paste(1+i,3); })");
    f.line("#undef i");

    f.line("#define paste2(x) x##5");
    f.expect(26, "paste2(1+2)");

    f.line("#define paste3(x) 2##x");
    f.expect(23, "paste3(1+2)");

    f.line("#define paste4(x, y, z) x##y##z");
    f.expect(123, "paste4(1,2,3)");

    f.line("#define paste5 +##+");
    f.expect(4, "({ int x=3; paste5 x; })");

    f.line("#define paste6 foo##bar");
    f.expect(3, "({ int foobar=3; paste6; })");

    f.line("#define paste7 0##xff");
    f.expect(255, "paste7");

    f.line("#define paste8 1##2##3");
    f.expect(123, "paste8");

    f.line("#define M15");
    f.line("#if defined(M15)");
    f.line("m = 3;");
    f.line("#else");
    f.line("m = 4;");
    f.line("#endif");
    f.expect(3, "m");

    f.line("#if defined M15");
    f.line("m = 3;");
    f.line("#else");
    f.line("m = 4;");
    f.line("#endif");
    f.expect(3, "m");

    f.line("#if defined(M15) - 1");
    f.line("m = 3;");
    f.line("#else");
    f.line("m = 4;");
    f.line("#endif");
    f.expect(4, "m");

    f.line("#undef M15");
    f.line("#if defined M15");
    f.line("m = 3;");
    f.line("#else");
    f.line("m = 4;");
    f.line("#endif");
    f.expect(4, "m");

    f.line("#if NO_SUCH_SYMBOL == 0");
    f.line("m = 5;");
    f.line("#else");
    f.line("m = 6;");
    f.line("#endif");
    f.expect(5, "m");

    f.line("#define STR(x) #x");
    f.line("#define M16(x) STR(x)");
    f.line("#define M17(x) M16(foo.x)");
    f.expect(0, "strcmp(M17(bar), \"foo.bar\")");
    f.line("#define M18(x) M16(foo. x)");
    f.expect(0, "strcmp(M18(bar), \"foo. bar\")");

    f.line("#define M19 foo");
    f.line("#define M20(x) STR(x)");
    f.line("#define M21(x) M20(x.M19)");
    f.expect(0, "strcmp(M21(bar), \"bar.foo\")");
    f.line("#define M22(x) M20(x. M19)");
    f.expect(0, "strcmp(M22(bar), \"bar. foo\")");

    f.expect(1, "__chacc__");

    f.expect(0, &format!("strcmp(main_filename1, \"{}\")", format!("{DIR}/macro.c")));
    f.expect(6, "main_line1");
    f.expect(8, "main_line2");
    f.expect(0, &format!("strcmp(include1_filename, \"{}\")", format!("{DIR}/include1.h")));
    f.expect(3, "include1_line");

    f.line("#define M23(...) 3");
    f.expect(3, "M23()");
    f.line("#define M23(x, ...) x");
    f.expect(5, "M23(5)");

    f.line("#define M24(...) __VA_ARGS__");
    f.expect(2, "M24() 2");
    f.expect(5, "M24(5)");

    f.line("#define M25(...) add2(__VA_ARGS__)");
    f.expect(8, "M25(2,6)");

    f.line("#define M26(...) add6(1,2,__VA_ARGS__,6)");
    f.expect(21, "M26(3,4,5)");
    f.line("#define M26(x, ...) add6(1,2,x,__VA_ARGS__,6)");
    f.expect(21, "M26(3,4,5)");

    f.finish();
    f.run("macro");
}

#[test]
fn test_pointer() {
    let mut f = Fixture::new();
    f.main();

    f.expect(3, "({ int x=3; *&x; })");
    f.expect(3, "({ int x=3; int *y=&x; int **z=&y; **z; })");
    f.expect(5, "({ int x=3; int y=5; *(&x+1); })");
    f.expect(3, "({ int x=3; int y=5; *(&y-1); })");
    f.expect(5, "({ int x=3; int y=5; *(&x-(-1)); })");
    f.expect(5, "({ int x=3; int *y=&x; *y=5; x; })");
    f.expect(7, "({ int x=3; int y=5; *(&x+1)=7; y; })");
    f.expect(7, "({ int x=3; int y=5; *(&y-2+1)=7; x; })");
    f.expect(5, "({ int x=3; (&x+2)-&x+3; })");
    f.expect(8, "({ int x, y; x=3; y=5; x+y; })");
    f.expect(8, "({ int x=3, y=5; x+y; })");

    f.expect(3, "({ int x[2]; int *y=&x; *y=3; *x; })");

    f.expect(3, "({ int x[3]; *x=3; *(x+1)=4; *(x+2)=5; *x; })");
    f.expect(4, "({ int x[3]; *x=3; *(x+1)=4; *(x+2)=5; *(x+1); })");
    f.expect(5, "({ int x[3]; *x=3; *(x+1)=4; *(x+2)=5; *(x+2); })");

    f.expect(0, "({ int x[2][3]; int *y=x; *y=0; **x; })");
    f.expect(1, "({ int x[2][3]; int *y=x; *(y+1)=1; *(*x+1); })");
    f.expect(2, "({ int x[2][3]; int *y=x; *(y+2)=2; *(*x+2); })");
    f.expect(3, "({ int x[2][3]; int *y=x; *(y+3)=3; **(x+1); })");
    f.expect(4, "({ int x[2][3]; int *y=x; *(y+4)=4; *(*(x+1)+1); })");
    f.expect(5, "({ int x[2][3]; int *y=x; *(y+5)=5; *(*(x+1)+2); })");

    f.expect(3, "({ int x[3]; *x=3; x[1]=4; x[2]=5; *x; })");
    f.expect(4, "({ int x[3]; *x=3; x[1]=4; x[2]=5; *(x+1); })");
    f.expect(5, "({ int x[3]; *x=3; x[1]=4; x[2]=5; *(x+2); })");
    f.expect(5, "({ int x[3]; *x=3; x[1]=4; x[2]=5; *(x+2); })");
    f.expect(5, "({ int x[3]; *x=3; x[1]=4; 2[x]=5; *(x+2); })");

    f.expect(0, "({ int x[2][3]; int *y=x; y[0]=0; x[0][0]; })");
    f.expect(1, "({ int x[2][3]; int *y=x; y[1]=1; x[0][1]; })");
    f.expect(2, "({ int x[2][3]; int *y=x; y[2]=2; x[0][2]; })");
    f.expect(3, "({ int x[2][3]; int *y=x; y[3]=3; x[1][0]; })");
    f.expect(4, "({ int x[2][3]; int *y=x; y[4]=4; x[1][1]; })");
    f.expect(5, "({ int x[2][3]; int *y=x; y[5]=5; x[1][2]; })");

    f.finish();
    f.run("pointer");
}

#[test]
fn test_sizeof() {
    let mut f = Fixture::new();
    f.main();

    f.expect(1, "sizeof(char)");
    f.expect(2, "sizeof(short)");
    f.expect(2, "sizeof(short int)");
    f.expect(2, "sizeof(int short)");
    f.expect(4, "sizeof(int)");
    f.expect(8, "sizeof(long)");
    f.expect(8, "sizeof(long int)");
    f.expect(8, "sizeof(long int)");
    f.expect(8, "sizeof(char *)");
    f.expect(8, "sizeof(int *)");
    f.expect(8, "sizeof(long *)");
    f.expect(8, "sizeof(int **)");
    f.expect(8, "sizeof(int(*)[4])");
    f.expect(32, "sizeof(int*[4])");
    f.expect(16, "sizeof(int[4])");
    f.expect(48, "sizeof(int[3][4])");
    f.expect(8, "sizeof(struct {int a; int b;})");

    f.expect(8, "sizeof(-10 + (long)5)");
    f.expect(8, "sizeof(-10 - (long)5)");
    f.expect(8, "sizeof(-10 * (long)5)");
    f.expect(8, "sizeof(-10 / (long)5)");
    f.expect(8, "sizeof((long)-10 + 5)");
    f.expect(8, "sizeof((long)-10 - 5)");
    f.expect(8, "sizeof((long)-10 * 5)");
    f.expect(8, "sizeof((long)-10 / 5)");

    f.expect(1, "({ char i; sizeof(++i); })");
    f.expect(1, "({ char i; sizeof(i++); })");

    f.expect(8, "sizeof(int(*)[10])");
    f.expect(8, "sizeof(int(*)[][10])");

    f.expect(4, "sizeof(struct { int x, y[]; })");

    f.expect(1, "sizeof(char)");
    f.expect(1, "sizeof(signed char)");
    f.expect(1, "sizeof(unsigned char)");

    f.expect(2, "sizeof(short)");
    f.expect(2, "sizeof(int short)");
    f.expect(2, "sizeof(short int)");
    f.expect(2, "sizeof(signed short)");
    f.expect(2, "sizeof(int short signed)");
    f.expect(2, "sizeof(unsigned short)");
    f.expect(2, "sizeof(int short unsigned)");

    f.expect(4, "sizeof(int)");
    f.expect(4, "sizeof(signed int)");
    f.expect(4, "sizeof(signed)");
    f.expect(4, "sizeof(unsigned int)");
    f.expect(4, "sizeof(unsigned)");

    f.expect(8, "sizeof(long)");
    f.expect(8, "sizeof(signed long)");
    f.expect(8, "sizeof(signed long int)");
    f.expect(8, "sizeof(unsigned long)");
    f.expect(8, "sizeof(unsigned long int)");

    f.expect(8, "sizeof(long long)");
    f.expect(8, "sizeof(signed long long)");
    f.expect(8, "sizeof(signed long long int)");
    f.expect(8, "sizeof(unsigned long long)");
    f.expect(8, "sizeof(unsigned long long int)");

    f.expect(1, "sizeof((char)1)");
    f.expect(2, "sizeof((short)1)");
    f.expect(4, "sizeof((int)1)");
    f.expect(8, "sizeof((long)1)");

    f.expect(4, "sizeof((char)1 + (char)1)");
    f.expect(4, "sizeof((short)1 + (short)1)");
    f.expect(4, "sizeof(1?2:3)");
    f.expect(4, "sizeof(1?(short)2:(char)3)");
    f.expect(8, "sizeof(1?(long)2:(char)3)");

    f.expect(1, "sizeof(char) << 31 >> 31");
    f.expect(1, "sizeof(char) << 63 >> 63");

    f.expect(4, "sizeof(float)");
    f.expect(8, "sizeof(double)");
    f.expect(8, "sizeof(long double)");

    f.expect(4, "sizeof(1.f+2)");
    f.expect(8, "sizeof(1.0+2)");
    f.expect(4, "sizeof(1.f-2)");
    f.expect(8, "sizeof(1.0-2)");
    f.expect(4, "sizeof(1.f*2)");
    f.expect(8, "sizeof(1.0*2)");
    f.expect(4, "sizeof(1.f/2)");
    f.expect(8, "sizeof(1.0/2)");

    f.finish();
    f.run("sizeof");
}

#[test]
fn test_string() {
    let mut f = Fixture::new();
    f.main();

    f.expect(0, r#"""[0]"#);
    f.expect(1, r#"sizeof("")"#);
    f.expect(97, r#""abc"[0]"#);
    f.expect(98, r#""abc"[1]"#);
    f.expect(99, r#""abc"[2]"#);
    f.expect(0, r#""abc"[3]"#);
    f.expect(4, r#"sizeof("abc")"#);

    f.expect(7, r#""\a"[0]"#);
    f.expect(8, r#""\b"[0]"#);
    f.expect(9, r#""\t"[0]"#);
    f.expect(10, r#""\n"[0]"#);
    f.expect(11, r#""\v"[0]"#);
    f.expect(12, r#""\f"[0]"#);
    f.expect(13, r#""\r"[0]"#);
    f.expect(27, r#""\e"[0]"#);

    f.expect(106, r#""\j"[0]"#);
    f.expect(107, r#""\k"[0]"#);
    f.expect(108, r#""\l"[0]"#);

    f.expect(7, r#""\ax\ny"[0]"#);
    f.expect(120, r#""\ax\ny"[1]"#);
    f.expect(10, r#""\ax\ny"[2]"#);
    f.expect(121, r#""\ax\ny"[3]"#);

    f.expect(0, r#""\0"[0]"#);
    f.expect(16, r#""\20"[0]"#);
    f.expect(65, r#""\101"[0]"#);
    f.expect(104, r#""\1500"[0]"#);
    f.expect(0, r#""\x00"[0]"#);
    f.expect(119, r#""\x77"[0]"#);

    f.expect(7, r#"sizeof("abc" "def")"#);
    f.expect(9, r#"sizeof("abc" "d" "efgh")"#);
    f.expect(0, r#"strcmp("abc" "d" "\nefgh", "abcd\nefgh")"#);
    f.expect(0, r#"!strcmp("abc" "d", "abcd\nefgh")"#);
    f.expect(0, r#"strcmp("\x9" "0", "\t0")"#);

    f.finish();
    f.run("string");
}

#[test]
fn test_struct() {
    let mut f = Fixture::new();
    f.main();

    f.expect(1, "({ struct {int a; int b;} x; x.a=1; x.b=2; x.a; })");
    f.expect(2, "({ struct {int a; int b;} x; x.a=1; x.b=2; x.b; })");
    f.expect(1, "({ struct {char a; int b; char c;} x; x.a=1; x.b=2; x.c=3; x.a; })");
    f.expect(2, "({ struct {char a; int b; char c;} x; x.b=1; x.b=2; x.c=3; x.b; })");
    f.expect(3, "({ struct {char a; int b; char c;} x; x.a=1; x.b=2; x.c=3; x.c; })");

    f.expect(0, "({ struct {char a; char b;} x[3]; char *p=x; p[0]=0; x[0].a; })");
    f.expect(1, "({ struct {char a; char b;} x[3]; char *p=x; p[1]=1; x[0].b; })");
    f.expect(2, "({ struct {char a; char b;} x[3]; char *p=x; p[2]=2; x[1].a; })");
    f.expect(3, "({ struct {char a; char b;} x[3]; char *p=x; p[3]=3; x[1].b; })");

    f.expect(6, "({ struct {char a[3]; char b[5];} x; char *p=&x; x.a[0]=6; p[0]; })");
    f.expect(7, "({ struct {char a[3]; char b[5];} x; char *p=&x; x.b[0]=7; p[3]; })");

    f.expect(6, "({ struct { struct { char b; } a; } x; x.a.b=6; x.a.b; })");

    f.expect(4, "({ struct {int a;} x; sizeof(x); })");
    f.expect(8, "({ struct {int a; int b;} x; sizeof(x); })");
    f.expect(8, "({ struct {int a, b;} x; sizeof(x); })");
    f.expect(12, "({ struct {int a[3];} x; sizeof(x); })");
    f.expect(16, "({ struct {int a;} x[4]; sizeof(x); })");
    f.expect(24, "({ struct {int a[3];} x[2]; sizeof(x); })");
    f.expect(2, "({ struct {char a; char b;} x; sizeof(x); })");
    f.expect(0, "({ struct {} x; sizeof(x); })");
    f.expect(8, "({ struct {char a; int b;} x; sizeof(x); })");
    f.expect(8, "({ struct {int a; char b;} x; sizeof(x); })");

    f.expect(8, "({ struct t {int a; int b;} x; struct t y; sizeof(y); })");
    f.expect(8, "({ struct t {int a; int b;}; struct t y; sizeof(y); })");
    f.expect(2, "({ struct t {char a[2];}; { struct t {char a[4];}; } struct t y; sizeof(y); })");
    f.expect(3, "({ struct t {int x;}; int t=1; struct t y; y.x=2; t+y.x; })");

    f.expect(3, "({ struct t {char a;} x; struct t *y = &x; x.a=3; y->a; })");
    f.expect(3, "({ struct t {char a;} x; struct t *y = &x; y->a=3; x.a; })");

    f.expect(3, "({ struct {int a,b;} x,y; x.a=3; y=x; y.a; })");
    f.expect(7, "({ struct t {int a,b;}; struct t x; x.a=7; struct t y; struct t *z=&y; *z=x; y.a; })");
    f.expect(7, "({ struct t {int a,b;}; struct t x; x.a=7; struct t y, *p=&x, *q=&y; *q=*p; y.a; })");
    f.expect(5, "({ struct t {char a, b;} x, y; x.a=5; y=x; y.a; })");

    f.expect(8, "({ struct t {int a; int b;}; struct t y; sizeof(y); })");
    f.expect(8, "({ struct t {int a; int b;} x; struct t y; sizeof(y); })");

    f.expect(16, "({ struct {char a; long b;} x; sizeof(x); })");
    f.expect(4, "({ struct {char a; short b;} x; sizeof(x); })");

    f.expect(8, "({ struct foo *bar; sizeof(bar); })");
    f.expect(4, "({ struct T *foo; struct T {int x;}; sizeof(struct T); })");
    f.expect(1, "({ struct T { struct T *next; int x; } a; struct T b; b.x=1; a.next=&b; a.next->x; })");
    f.expect(4, "({ typedef struct T T; struct T { int x; }; sizeof(T); })");

    f.finish();
    f.run("struct");
}

#[test]
fn test_typedef() {
    let mut f = Fixture::new();
    f.line("typedef int MyInt, MyInt2[4];");
    f.line("typedef int;");
    f.main();

    f.expect(1, "({ typedef int t; t x=1; x; })");
    f.expect(1, "({ typedef struct {int a;} t; t x; x.a=1; x.a; })");
    f.expect(2, "({ typedef struct {int a;} t; { typedef int t; } t x; x.a=2; x.a; })");
    f.expect(3, "({ MyInt x=3; x; })");
    f.expect(16," ({ MyInt2 x; sizeof(x); })");

    f.finish();
    f.run("typedef");
}

#[test]
fn test_union() {
    let mut f = Fixture::new();
    f.main();

    f.expect(8, "({ union { int a; char b[6]; } x; sizeof(x); })");
    f.expect(3, "({ union { int a; char b[4]; } x; x.a = 515; x.b[0]; })");
    f.expect(2, "({ union { int a; char b[4]; } x; x.a = 515; x.b[1]; })");
    f.expect(0, "({ union { int a; char b[4]; } x; x.a = 515; x.b[2]; })");
    f.expect(0, "({ union { int a; char b[4]; } x; x.a = 515; x.b[3]; })");

    f.expect(3, "({ union {int a,b;} x,y; x.a=3; y.a=5; y=x; y.a; })");
    f.expect(3, "({ union {struct {int a,b;} c;} x,y; x.c.b=3; y.c.b=5; y=x; y.c.b; })");

    f.finish();
    f.run("union");
}

#[test]
fn test_usual_conv() {
    let mut f = Fixture::new();
    f.line("static int ret10(void) { return 10; }");
    f.main();

    f.expect("(long)-5", "-10 + (long)5");
    f.expect("(long)-15", "-10 - (long)5");
    f.expect("(long)-50", "-10 * (long)5");
    f.expect("(long)-2", "-10 / (long)5");

    f.expect(1, "-2 < (long)-1");
    f.expect(1, "-2 <= (long)-1");
    f.expect(0, "-2 > (long)-1");
    f.expect(0, "-2 >= (long)-1");

    f.expect(1, "(long)-2 < -1");
    f.expect(1, "(long)-2 <= -1");
    f.expect(0, "(long)-2 > -1");
    f.expect(0, "(long)-2 >= -1");

    f.expect(0, "2147483647 + 2147483647 + 2");
    f.expect("(long)-1", "({ long x; x=-1; x; })");

    f.expect(1, "({ char x[3]; x[0]=0; x[1]=1; x[2]=2; char *y=x+1; y[0]; })");
    f.expect(0, "({ char x[3]; x[0]=0; x[1]=1; x[2]=2; char *y=x+1; y[-1]; })");
    f.expect(5, "({ struct t {char a;} x, y; x.a=5; y=x; y.a; })");

    f.expect(10, "(1 ? ret10 : (void *)0)()");

    f.finish();
    f.run("usual_conv");
}

#[test]
fn test_variable() {
    let mut f = Fixture::new();
    f.line("int g1, g2[4];");
    f.line("static int g3 = 3;");
    f.main();

    f.expect(3, "({ int a; a=3; a; })");
    f.expect(3, "({ int a=3; a; })");
    f.expect(8, "({ int a=3; int z=5; a+z; })");

    f.expect(3, "({ int a=3; a; })");
    f.expect(8, "({ int a=3; int z=5; a+z; })");
    f.expect(6, "({ int a; int b; a=b=3; a+b; })");
    f.expect(3, "({ int foo=3; foo; })");
    f.expect(8, "({ int foo123=3; int bar=5; foo123+bar; })");

    f.expect(4, "({ int x; sizeof(x); })");
    f.expect(4, "({ int x; sizeof x; })");
    f.expect(8, "({ int *x; sizeof(x); })");
    f.expect(16, "({ int x[4]; sizeof(x); })");
    f.expect(48, "({ int x[3][4]; sizeof(x); })");
    f.expect(16, "({ int x[3][4]; sizeof(*x); })");
    f.expect(4, "({ int x[3][4]; sizeof(**x); })");
    f.expect(5, "({ int x[3][4]; sizeof(**x) + 1; })");
    f.expect(5, "({ int x[3][4]; sizeof **x + 1; })");
    f.expect(4, "({ int x[3][4]; sizeof(**x + 1); })");
    f.expect(4, "({ int x=1; sizeof(x=2); })");
    f.expect(1, "({ int x=1; sizeof(x=2); x; })");

    f.expect(0, "g1");
    f.expect(3, "({ g1=3; g1; })");
    f.expect(0, "({ g2[0]=0; g2[1]=1; g2[2]=2; g2[3]=3; g2[0]; })");
    f.expect(1, "({ g2[0]=0; g2[1]=1; g2[2]=2; g2[3]=3; g2[1]; })");
    f.expect(2, "({ g2[0]=0; g2[1]=1; g2[2]=2; g2[3]=3; g2[2]; })");
    f.expect(3, "({ g2[0]=0; g2[1]=1; g2[2]=2; g2[3]=3; g2[3]; })");

    f.expect(4, "sizeof(g1)");
    f.expect(16, "sizeof(g2)");

    f.expect(1, "({ char x=1; x; })");
    f.expect(1, "({ char x=1; char y=2; x; })");
    f.expect(2, "({ char x=1; char y=2; y; })");

    f.expect(1, "({ char x; sizeof(x); })");
    f.expect(10, "({ char x[10]; sizeof(x); })");

    f.expect(2, "({ int x=2; { int x=3; } x; })");
    f.expect(2, "({ int x=2; { int x=3; } int y=4; x; })");
    f.expect(3, "({ int x=2; { x=3; } x; })");

    f.expect(7, "({ int x; int y; char z; char *a=&y; char *b=&z; b-a; })");
    f.expect(1, "({ int x; char y; int z; char *a=&y; char *b=&z; b-a; })");

    f.expect(8, "({ long x; sizeof(x); })");
    f.expect(2, "({ short x; sizeof(x); })");

    f.expect(24, "({ char *x[3]; sizeof(x); })");
    f.expect(8, "({ char (*x)[3]; sizeof(x); })");
    f.expect(1, "({ char (x); sizeof(x); })");
    f.expect(3, "({ char (x)[3]; sizeof(x); })");
    f.expect(12, "({ char (x[3])[4]; sizeof(x); })");
    f.expect(4, "({ char (x[3])[4]; sizeof(x[0]); })");
    f.expect(3, "({ char *x[3]; char y; x[0]=&y; y=3; x[0][0]; })");
    f.expect(4, "({ char x[3]; char (*y)[3]=x; y[0][0]=4; y[0][0]; })");

    f.line("{ void *x; }");

    f.expect(3, "g3");

    f.finish();
    f.run("variable");
}

#[test]
fn structs_are_passed_in_registers_and_memory() {
    let mut f = Fixture::new();
    f.line("typedef struct {int gp_offset; int fp_offset; void *overflow_arg_area; void *reg_save_area;} __va_elem;");
    f.line("typedef struct { int a; int b; } S8;");
    f.line("typedef struct { long a; long b; } S16;");
    f.line("typedef struct { long a; long b; long c; } S24;");
    f.line("typedef struct { double x; long y; } D16;");
    f.line("long reg(int n, ...) { __va_elem *e = (__va_elem *)__va_area__; return *(long *)((char *)e->reg_save_area + n); }");
    f.line("double dreg(int n, ...) { __va_elem *e = (__va_elem *)__va_area__; return *(double *)((char *)e->reg_save_area + n); }");
    f.line("long mem(int n, ...) { __va_elem *e = (__va_elem *)__va_area__; return *(long *)((char *)e->overflow_arg_area + n); }");
    f.main();
    f.expect(7, "({ S8 s; s.a = 7; s.b = 9; (int)reg(8, s); })");
    f.expect(9, "({ S8 s; s.a = 7; s.b = 9; (int)(reg(8, s) >> 32); })");
    f.expect(3, "({ S16 s; s.a = 3; s.b = 4; reg(8, s); })");
    f.expect(4, "({ S16 s; s.a = 3; s.b = 4; reg(16, s); })");
    f.expect(1, "({ S24 s; s.a = 1; s.b = 2; s.c = 3; mem(0, s); })");
    f.expect(3, "({ S24 s; s.a = 1; s.b = 2; s.c = 3; mem(16, s); })");
    f.expect(5, "({ S24 s; s.a = 1; s.b = 2; s.c = 3; mem(24, s, 1, 2, 3, 4, 9, 5); })");
    f.expect(1, "({ D16 d; d.x = 2.5; d.y = 6; dreg(48, d) == 2.5; })");
    f.expect(6, "({ D16 d; d.x = 2.5; d.y = 6; reg(8, d); })");
    f.expect(8, "({ S16 s; s.a = 3; s.b = 8; mem(8, 1, 2, 3, 4, s); })");
    f.finish();
    f.run("structs");
}

#[test]
fn arguments_overflow_to_the_stack() {
    let mut f = Fixture::new();
    f.line("int last(int a, int b, int c, int d, int e, int f, int g, int h) { return g * 10 + h; }");
    f.line("double dlast(double a, double b, double c, double d, double e, double f, double g, double h, double i) { return i; }");
    f.main();
    f.expect(78, "last(1, 2, 3, 4, 5, 6, 7, 8)");
    f.expect(29, "1 + last(1, 2, 3, 4, 5, 6, last(0, 0, 0, 0, 0, 0, 0, 2), 8)");
    f.expect(9, "(int)dlast(1, 2, 3, 4, 5, 6, 7, 8, 9)");
    f.finish();
    f.run("stack_args");
}

#[test]
fn scopes_end_and_labels_resolve() {
    let mut f = Fixture::new();
    f.line("int x = 1;");
    f.line("int jump(int n) { if (n == 0) goto a; if (n == 1) goto b; return 0; a: return 10; b: return 11; }");
    f.line("int pick(int n) { switch (n) { case 1: return 1; case 2: n = 20; case 3: return n; default: return -1; } }");
    f.main();
    f.expect(1, "({ { int x = 2; { int x = 3; } } x; })");
    f.expect(2, "({ int x = 2; { int x = 3; } x; })");
    f.expect(10, "jump(0)");
    f.expect(11, "jump(1)");
    f.expect(0, "jump(2)");
    f.expect(1, "pick(1)");
    f.expect(20, "pick(2)");
    f.expect(3, "pick(3)");
    f.expect(-1, "pick(9)");
    f.finish();
    f.run("scopes");
}
