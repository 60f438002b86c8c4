//! The assembly text of a program, as functions of the program.

use vstd::prelude::*;
use crate::ast::{
    node_ty, BinaryOp, CaseList, EntityRef, FunctionView, GlobalView, LocalVar, Name, Node,
    NodeKind, NodeList, ProgramView, Relocation, Stmt, StmtKind, StmtList, StorageView,
};
use crate::constexpr::{asked, ConstValue, FloatAnswer, FloatQuery};
use crate::error::{Error, Message};
use crate::parse::eval::as_signed;
use crate::source::{file_line_col_of, SourceSpan, SourceView};
use crate::types::{
    array_of, base_of, chunk_in_fp, is_func_ty, is_ptr_ty, is_sou_ty, size_of, ty_is_flonum,
    ty_is_integer, ty_is_unsigned, ArithType, Member, Symbol, Type, Types,
};
use crate::utils::{align_up, digits, MAX_FP_ARG_REGS, MAX_GP_ARG_REGS};

verus! {

/// What the generated text depends on besides the code itself.
pub struct GenView {
    pub types: Types,
    pub functions: Seq<FunctionData>,
    pub globals: Seq<GlobalView>,
    pub names: Seq<Seq<u8>>,
    pub sources: Seq<SourceView>,
    pub floats: Seq<FloatAnswer>,
    /// The function that code is generated for.
    pub function: FunctionStateView,
}

/// The mathematical form of the state of a function.
pub struct FunctionStateView {
    pub name: Symbol,
    pub locals: Seq<LocalVar>,
    pub ret_buf_local: Option<usize>,
}

/// Subset of a function necessary for codegen.
#[derive(Clone, Copy, Debug, PartialEq, Eq, Structural)]
pub struct FunctionData {
    pub name: Symbol,
    pub is_defined: bool,
}

/// The text so far, and what is counted while it grows.
pub struct Gen {
    pub out: Seq<u8>,
    pub next_label: int,
    pub last_loc: Option<(usize, u32, u32)>,
    /// The number of 8-byte slots on the temporary expression stack.
    pub depth: int,
}

pub open spec fn puts(g: Gen, text: &str) -> Gen {
    putb(g, vstd::utf8::encode_utf8(text@))
}

#[verifier::opaque]
pub open spec fn putb(g: Gen, bytes: Seq<u8>) -> Gen {
    Gen { out: g.out + bytes, ..g }
}

/// A number in decimal, with a sign if it is negative.
pub open spec fn decimal(n: int) -> Seq<u8> {
    if n < 0 {
        seq![45u8] + digits((-n) as nat)
    } else {
        digits(n as nat)
    }
}

pub open spec fn hex_digit(n: nat) -> u8 {
    if n < 10 {
        (48 + n) as u8
    } else {
        (87 + n) as u8
    }
}

/// The hexadecimal digits of a number.
pub open spec fn hex_digits(n: nat) -> Seq<u8>
    decreases n,
{
    if n < 16 {
        seq![hex_digit(n)]
    } else {
        hex_digits(n / 16).push(hex_digit(n % 16))
    }
}

pub open spec fn putd(g: Gen, n: int) -> Gen {
    putb(g, decimal(n))
}

pub open spec fn puth(g: Gen, n: nat) -> Gen {
    putb(puts(g, "0x"), hex_digits(n))
}

pub open spec fn nl(g: Gen) -> Gen {
    puts(g, "\n")
}

/// The spelling of a symbol.
pub open spec fn symbol_text(names: Seq<Seq<u8>>, symbol: Symbol) -> Seq<u8> {
    if symbol.0 < names.len() {
        names[symbol.0 as int]
    } else {
        Seq::empty()
    }
}

pub open spec fn put_name(g: Gen, names: Seq<Seq<u8>>, name: Name) -> Gen {
    match name {
        Name::Ident(symbol) => putb(g, symbol_text(names, symbol)),
        Name::Unique(n) => putd(puts(g, ".L.."), n as int),
    }
}

pub open spec fn outcome(r: Result<(), Error>, g: Gen) -> Result<Gen, Error> {
    match r {
        Ok(_) => Ok(g),
        Err(e) => Err(e),
    }
}

/// Allocate a fresh numeric suffix for local labels.
pub open spec fn take_label(g: Gen) -> Result<(Gen, usize), Error> {
    if g.next_label >= usize::MAX {
        Err(Error::Overflow)
    } else {
        Ok((Gen { next_label: g.next_label + 1, ..g }, g.next_label as usize))
    }
}

/// The state with more slots on the temporary stack.
pub open spec fn grown(g: Gen, slots: int) -> Result<Gen, Error> {
    if g.depth + slots > usize::MAX {
        Err(Error::Overflow)
    } else {
        Ok(Gen { depth: g.depth + slots, ..g })
    }
}

/// The state with fewer slots on the temporary stack.
pub open spec fn shrunk(g: Gen, slots: int) -> Result<Gen, Error> {
    if g.depth < slots {
        Err(Error::Overflow)
    } else {
        Ok(Gen { depth: g.depth - slots, ..g })
    }
}

pub open spec fn local_offset(env: GenView, id: usize) -> Result<i64, Error> {
    if id < env.function.locals.len() {
        Ok(env.function.locals[id as int].offset)
    } else {
        Err(Error::Overflow)
    }
}

pub open spec fn local_type(env: GenView, id: usize) -> Type {
    if id < env.function.locals.len() {
        env.function.locals[id as int].ty
    } else {
        Type::Dummy
    }
}

/// Width of an integer scalar used to select size-specific x86-64 operations.
#[derive(Clone, Copy, Debug, PartialEq, Eq, Structural)]
pub enum ScalarWidth {
    Byte,
    Word,
    Dword,
    Qword,
}

/// The width of a scalar of the given size in bytes.
pub open spec fn width_of(size: u64) -> Option<ScalarWidth> {
    match size {
        1 => Some(ScalarWidth::Byte),
        2 => Some(ScalarWidth::Word),
        4 => Some(ScalarWidth::Dword),
        8 => Some(ScalarWidth::Qword),
        _ => None,
    }
}

/// The general-purpose argument registers, 8 bits wide.
pub open spec fn gp_arg_8(index: usize) -> &'static str {
    match index {
        0 => "%dil",
        1 => "%sil",
        2 => "%dl",
        3 => "%cl",
        4 => "%r8b",
        _ => "%r9b",
    }
}

/// The general-purpose argument registers, 16 bits wide.
pub open spec fn gp_arg_16(index: usize) -> &'static str {
    match index {
        0 => "%di",
        1 => "%si",
        2 => "%dx",
        3 => "%cx",
        4 => "%r8w",
        _ => "%r9w",
    }
}

/// The general-purpose argument registers, 32 bits wide.
pub open spec fn gp_arg_32(index: usize) -> &'static str {
    match index {
        0 => "%edi",
        1 => "%esi",
        2 => "%edx",
        3 => "%ecx",
        4 => "%r8d",
        _ => "%r9d",
    }
}

/// The general-purpose argument registers, 64 bits wide.
pub open spec fn gp_arg_64(index: usize) -> &'static str {
    match index {
        0 => "%rdi",
        1 => "%rsi",
        2 => "%rdx",
        3 => "%rcx",
        4 => "%r8",
        _ => "%r9",
    }
}

pub open spec fn gp_ret_8(index: usize) -> &'static str {
    if index == 0 {
        "%al"
    } else {
        "%dl"
    }
}

pub open spec fn gp_ret_64(index: usize) -> &'static str {
    if index == 0 {
        "%rax"
    } else {
        "%rdx"
    }
}

/// The general-purpose argument register for a width.
pub open spec fn gp_arg(width: ScalarWidth, index: usize) -> &'static str {
    match width {
        ScalarWidth::Byte => gp_arg_8(index),
        ScalarWidth::Word => gp_arg_16(index),
        ScalarWidth::Dword => gp_arg_32(index),
        ScalarWidth::Qword => gp_arg_64(index),
    }
}

/// The width of the registers used for binary integer operations.
pub open spec fn promoted_width(env: GenView, ty: Type) -> ScalarWidth {
    if base_of(env.types, ty) is Some || size_of(env.types, ty) == 8 {
        ScalarWidth::Qword
    } else {
        ScalarWidth::Dword
    }
}

/// The accumulator register of a width.
pub open spec fn acc_reg(width: ScalarWidth) -> &'static str {
    match width {
        ScalarWidth::Byte => "%al",
        ScalarWidth::Word => "%ax",
        ScalarWidth::Dword => "%eax",
        ScalarWidth::Qword => "%rax",
    }
}

/// The `%rdi`-family register of a width.
pub open spec fn rdi_reg(width: ScalarWidth) -> &'static str {
    match width {
        ScalarWidth::Byte => "%dil",
        ScalarWidth::Word => "%di",
        ScalarWidth::Dword => "%edi",
        ScalarWidth::Qword => "%rdi",
    }
}

/// The `%rdx`-family register of a width.
pub open spec fn rdx_reg(width: ScalarWidth) -> &'static str {
    match width {
        ScalarWidth::Byte => "%dl",
        ScalarWidth::Word => "%dx",
        ScalarWidth::Dword => "%edx",
        ScalarWidth::Qword => "%rdx",
    }
}

/// The `%rcx`-family register of a width.
pub open spec fn rcx_reg(width: ScalarWidth) -> &'static str {
    match width {
        ScalarWidth::Byte => "%cl",
        ScalarWidth::Word => "%cx",
        ScalarWidth::Dword => "%ecx",
        ScalarWidth::Qword => "%rcx",
    }
}

/// The mnemonic used to load a signed scalar of a width.
pub open spec fn signed_load_mnemonic(width: ScalarWidth) -> &'static str {
    match width {
        ScalarWidth::Byte => "movsbl",
        ScalarWidth::Word => "movswl",
        ScalarWidth::Dword => "movsxd",
        ScalarWidth::Qword => "mov",
    }
}

/// The mnemonic used to load an unsigned scalar of a width.
pub open spec fn unsigned_load_mnemonic(width: ScalarWidth) -> &'static str {
    match width {
        ScalarWidth::Byte => "movzbl",
        ScalarWidth::Word => "movzwl",
        ScalarWidth::Dword => "mov",
        ScalarWidth::Qword => "mov",
    }
}

/// The destination register used by a signed load of a width.
pub open spec fn signed_load_dest_reg(width: ScalarWidth) -> &'static str {
    match width {
        ScalarWidth::Byte => "%eax",
        ScalarWidth::Word => "%eax",
        ScalarWidth::Dword => "%rax",
        ScalarWidth::Qword => "%rax",
    }
}

/// The sign-extension mnemonic used before signed division of a width.
pub open spec fn signed_div_extend_mnemonic(width: ScalarWidth) -> &'static str {
    match width {
        ScalarWidth::Byte => "cbw",
        ScalarWidth::Word => "cwd",
        ScalarWidth::Dword => "cdq",
        ScalarWidth::Qword => "cqo",
    }
}

/// The mnemonic suffix for a floating-point type.
pub open spec fn fp_sz(ty: Type) -> &'static str {
    if ty == Type::Arith(ArithType::Float) {
        "s"
    } else {
        "d"
    }
}

/// The mnemonic suffix for a floating-point chunk of the given size.
pub open spec fn fp_sz_from_size(size: u64) -> &'static str {
    if size == 4 {
        "s"
    } else {
        "d"
    }
}

/// A `.loc` directive if the source location changed.
#[verifier::opaque]
pub open spec fn gen_loc(env: GenView, g: Gen, span: SourceSpan) -> Gen {
    match file_line_col_of(env.sources, span) {
        None => g,
        Some(loc) => if g.last_loc == Some(loc) {
            g
        } else {
            let g = Gen { last_loc: Some(loc), ..g };
            nl(putd(puts(putd(puts(putd(puts(g, "  .loc "), loc.0 as int), " "), loc.1 as int), " "), loc.2 as int))
        },
    }
}

/// `%rax` pushed onto the temporary expression stack.
#[verifier::opaque]
pub open spec fn push(env: GenView, g: Gen) -> Result<Gen, Error> {
    grown(nl(puts(g, "  push %rax")), 1)
}

/// `%xmm0` pushed onto the temporary expression stack.
#[verifier::opaque]
pub open spec fn pushf(env: GenView, g: Gen) -> Result<Gen, Error> {
    grown(nl(puts(nl(puts(g, "  sub $8, %rsp")), "  movsd %xmm0, (%rsp)")), 1)
}

/// The top of the temporary stack popped into a register.
#[verifier::opaque]
pub open spec fn pop(env: GenView, g: Gen, register: &str) -> Result<Gen, Error> {
    shrunk(nl(puts(puts(g, "  pop "), register)), 1)
}

/// The top of the temporary stack popped into an XMM register.
#[verifier::opaque]
pub open spec fn popf(env: GenView, g: Gen, register: usize) -> Result<Gen, Error> {
    shrunk(nl(puts(nl(putd(puts(g, "  movsd (%rsp), %xmm"), register as int)), "  add $8, %rsp")), 1)
}

/// Bytes `i..size` copied from `%rax` to where a register points.
pub open spec fn copy_bytes(g: Gen, i: int, size: int, via: &str, to: &str) -> Gen
    decreases size - i,
{
    if i >= size {
        g
    } else {
        copy_bytes(
            nl(puts(puts(puts(putd(puts(puts(puts(nl(puts(puts(putd(puts(g, "  mov "), i as int), "(%rax), "), via)), "  mov "), via), ", "), i as int), "("), to), ")")),
            i + 1,
            size,
            via,
            to,
        )
    }
}

/// The struct or union at `%rax` pushed onto the temporary stack.
#[verifier::opaque]
pub open spec fn push_struct_or_union(env: GenView, g: Gen, ty: Type) -> Result<Gen, Error> {
    let size = size_of(env.types, ty);
    let aligned = align_up(size as int, 8);
    if aligned > u64::MAX {
        Err(Error::Overflow)
    } else {
        match grown(nl(puts(putd(puts(g, "  sub $"), aligned as int), ", %rsp")), aligned / 8) {
            Err(e) => Err(e),
            Ok(g) => Ok(copy_bytes(g, 0, size as int, "%r10b", "%rsp")),
        }
    }
}

/// Register indexes for argument parsing.
#[derive(Clone, Copy, Debug, PartialEq, Eq, Structural)]
pub struct ArgRegIndex {
    pub fp: usize,
    pub gp: usize,
}

/// Where an argument is passed.
#[derive(Clone, Copy, Debug, PartialEq, Eq, Structural)]
pub enum ArgRegs {
    Stack,
    /// In one register, which is floating-point if true.
    One(bool),
    Two(bool, bool),
}

pub open spec fn no_regs() -> ArgRegIndex {
    ArgRegIndex { fp: 0, gp: 0 }
}

pub open spec fn fp_count(regs: ArgRegs) -> int {
    match regs {
        ArgRegs::Stack => 0,
        ArgRegs::One(a) => if a { 1 } else { 0 },
        ArgRegs::Two(a, b) => (if a { 1int } else { 0 }) + (if b { 1int } else { 0 }),
    }
}

pub open spec fn reg_count(regs: ArgRegs) -> int {
    match regs {
        ArgRegs::Stack => 0,
        ArgRegs::One(_) => 1,
        ArgRegs::Two(_, _) => 2,
    }
}

/// The registers that an argument would take if there were enough.
pub open spec fn wanted_regs(types: Types, ty: Type) -> ArgRegs {
    if is_sou_ty(types, ty) {
        if size_of(types, ty) > 16 {
            ArgRegs::Stack
        } else if size_of(types, ty) > 8 {
            ArgRegs::Two(chunk_in_fp(types, ty, 0, 8), chunk_in_fp(types, ty, 8, 16))
        } else {
            ArgRegs::One(chunk_in_fp(types, ty, 0, 8))
        }
    } else {
        ArgRegs::One(ty_is_flonum(ty))
    }
}

/// The registers that an argument takes, and those taken after it.
pub open spec fn arg_regs(types: Types, ty: Type, rindex: ArgRegIndex) -> (ArgRegs, ArgRegIndex) {
    let regs = wanted_regs(types, ty);
    let fp = rindex.fp + fp_count(regs);
    let gp = rindex.gp + reg_count(regs) - fp_count(regs);
    if regs == ArgRegs::Stack || gp > MAX_GP_ARG_REGS || fp > MAX_FP_ARG_REGS {
        (ArgRegs::Stack, rindex)
    } else {
        (regs, ArgRegIndex { fp: fp as usize, gp: gp as usize })
    }
}

/// Taking registers never takes more than there are.
pub proof fn arg_regs_stay_in_bounds(types: Types, ty: Type, rindex: ArgRegIndex)
    requires
        rindex.gp <= MAX_GP_ARG_REGS,
        rindex.fp <= MAX_FP_ARG_REGS,
    ensures
        arg_regs(types, ty, rindex).1.gp <= MAX_GP_ARG_REGS,
        arg_regs(types, ty, rindex).1.fp <= MAX_FP_ARG_REGS,
        arg_regs(types, ty, rindex).1.gp >= rindex.gp,
        arg_regs(types, ty, rindex).1.fp >= rindex.fp,
{
}

/// Bytes `i..size` of a return register peeled off into a local.
pub open spec fn peel_bytes(g: Gen, i: int, size: int, index: usize, dst: int) -> Gen
    decreases size - i,
{
    if i >= size {
        g
    } else {
        peel_bytes(
            nl(puts(puts(nl(puts(putd(puts(puts(puts(g, "  mov "), gp_ret_8(index)), ", "), (dst + i) as int), "(%rbp)")), "  shr $8, "), gp_ret_64(index))),
            i + 1,
            size,
            index,
            dst,
        )
    }
}

/// The size of an 8-byte ABI chunk of a type, where it starts at `lo`.
pub open spec fn chunk_size(types: Types, ty: Type, lo: u64) -> int {
    if size_of(types, ty) - lo < 8 {
        size_of(types, ty) - lo
    } else {
        8
    }
}

/// A small-aggregate return chunk stored from return registers.
///
/// `lo` is the byte offset of the 8-byte ABI chunk within `ty`. `dst` is the
/// destination stack offset from `%rbp`.
#[verifier::opaque]
pub open spec fn store_ret_chunk(
    env: GenView,
    g: Gen,
    ty: Type,
    lo: u64,
    dst: i64,
    rindex: ArgRegIndex,
) -> Result<(Gen, ArgRegIndex), Error> {
    let size = chunk_size(env.types, ty, lo);
    if size < 0 || lo > u64::MAX - 8 || dst > i64::MAX - 8 {
        Err(Error::Overflow)
    } else if chunk_in_fp(env.types, ty, lo, (lo + 8) as u64) {
        if (size == 4 || size == 8) && rindex.fp < usize::MAX {
            Ok(
                (
                    nl(puts(putd(puts(putd(puts(puts(puts(g, "  movs"), fp_sz_from_size(size as u64)), " %xmm"), rindex.fp as int), ", "), dst as int), "(%rbp)")),
                    ArgRegIndex { fp: (rindex.fp + 1) as usize, ..rindex },
                ),
            )
        } else {
            Err(Error::Overflow)
        }
    } else if rindex.gp >= 2 {
        Err(Error::Overflow)
    } else {
        Ok(
            (
                peel_bytes(g, 0, size, rindex.gp, dst as int),
                ArgRegIndex { gp: (rindex.gp + 1) as usize, ..rindex },
            ),
        )
    }
}

/// Bytes `0..i` of a chunk gathered into a return register.
pub open spec fn gather_bytes(g: Gen, i: int, index: usize, lo: int) -> Gen
    decreases i,
{
    if i <= 0 {
        g
    } else {
        gather_bytes(
            nl(puts(puts(putd(puts(nl(puts(puts(g, "  shl $8, "), gp_ret_64(index))), "  mov "), (lo + i - 1) as int), "(%rdi), "), gp_ret_8(index))),
            i - 1,
            index,
            lo,
        )
    }
}

/// A small-aggregate return chunk loaded into return registers.
///
/// `lo` is the byte offset of the 8-byte ABI chunk within `ty`.
#[verifier::opaque]
pub open spec fn load_ret_chunk(
    env: GenView,
    g: Gen,
    ty: Type,
    lo: u64,
    rindex: ArgRegIndex,
) -> Result<(Gen, ArgRegIndex), Error> {
    let size = chunk_size(env.types, ty, lo);
    if size < 0 || lo > u64::MAX - 8 {
        Err(Error::Overflow)
    } else if chunk_in_fp(env.types, ty, lo, (lo + 8) as u64) {
        if (size == 4 || size == 8) && rindex.fp < usize::MAX {
            Ok(
                (
                    nl(putd(puts(putd(puts(puts(puts(g, "  movs"), fp_sz_from_size(size as u64)), " "), lo as int), "(%rdi), %xmm"), rindex.fp as int)),
                    ArgRegIndex { fp: (rindex.fp + 1) as usize, ..rindex },
                ),
            )
        } else {
            Err(Error::Overflow)
        }
    } else if rindex.gp >= 2 {
        Err(Error::Overflow)
    } else {
        Ok(
            (
                gather_bytes(nl(puts(puts(g, "  mov $0, "), gp_ret_64(rindex.gp))), size, rindex.gp, lo as int),
                ArgRegIndex { gp: (rindex.gp + 1) as usize, ..rindex },
            ),
        )
    }
}

/// A scalar value loaded from where `%rax` points to. Arrays, functions, and aggregates stay addresses.
#[verifier::opaque]
pub open spec fn load(env: GenView, g: Gen, ty: Type) -> Result<Gen, Error> {
    if array_of(env.types, ty) is Some || is_func_ty(env.types, ty) || is_sou_ty(env.types, ty) {
        Ok(g)
    } else if ty_is_flonum(ty) {
        Ok(nl(puts(puts(puts(g, "  movs"), fp_sz(ty)), " (%rax), %xmm0")))
    } else {
        match width_of(size_of(env.types, ty)) {
            None => Err(Error::Overflow),
            Some(width) => if ty_is_unsigned(ty) || is_ptr_ty(env.types, ty) {
                Ok(nl(puts(puts(puts(puts(g, "  "), unsigned_load_mnemonic(width)), " (%rax), "), signed_load_dest_reg(width))))
            } else {
                Ok(nl(puts(puts(puts(puts(g, "  "), signed_load_mnemonic(width)), " (%rax), "), signed_load_dest_reg(width))))
            },
        }
    }
}

/// `%rax` stored into the address on top of the temporary stack.
#[verifier::opaque]
pub open spec fn store(env: GenView, g: Gen, ty: Type) -> Result<Gen, Error> {
    match pop(env, g, "%rdi") {
        Err(e) => Err(e),
        Ok(g) => if is_sou_ty(env.types, ty) {
            Ok(copy_bytes(g, 0, size_of(env.types, ty) as int, "%r8b", "%rdi"))
        } else if ty_is_flonum(ty) {
            Ok(nl(puts(puts(puts(g, "  movs"), fp_sz(ty)), " %xmm0, (%rdi)")))
        } else {
            match width_of(size_of(env.types, ty)) {
                None => Err(Error::Overflow),
                Some(width) => Ok(nl(puts(puts(puts(g, "  mov "), acc_reg(width)), ", (%rdi)"))),
            }
        },
    }
}

/// A scalar value compared against zero.
#[verifier::opaque]
pub open spec fn compare_zero(env: GenView, g: Gen, ty: Type) -> Gen {
    if ty_is_flonum(ty) {
        nl(puts(puts(puts(nl(puts(puts(puts(g, "  xorp"), fp_sz(ty)), " %xmm1, %xmm1")), "  ucomis"), fp_sz(ty)), " %xmm1, %xmm0"))
    } else if ty_is_integer(ty) && size_of(env.types, ty) <= 4 {
        nl(puts(g, "  cmp $0, %eax"))
    } else {
        nl(puts(g, "  cmp $0, %rax"))
    }
}

/// `%al` set to 1 if the previously compared scalar is zero.
#[verifier::opaque]
pub open spec fn set_is_zero(env: GenView, g: Gen, ty: Type) -> Gen {
    let g1 = nl(puts(g, "  sete %al"));
    if ty_is_flonum(ty) {
        nl(puts(nl(puts(g1, "  setnp %dl")), "  and %dl, %al"))
    } else {
        g1
    }
}

/// `%al` set to 1 if the previously compared scalar is non-zero.
#[verifier::opaque]
pub open spec fn set_is_nonzero(env: GenView, g: Gen, ty: Type) -> Gen {
    let g1 = nl(puts(g, "  setne %al"));
    if ty_is_flonum(ty) {
        nl(puts(nl(puts(g1, "  setp %dl")), "  or %dl, %al"))
    } else {
        g1
    }
}

/// A jump to the given label if the previously compared scalar is zero.
#[verifier::opaque]
pub open spec fn jump_if_zero(env: GenView, g: Gen, ty: Type, prefix: &str, number: usize) -> Result<
    Gen,
    Error,
> {
    if ty_is_flonum(ty) {
        match take_label(g) {
            Err(e) => Err(e),
            Ok((g, skip)) => Ok(
                nl(puts(putd(puts(nl(putd(puts(puts(nl(putd(puts(g, "  jp .L.skip."), skip as int)), "  je "), prefix), number as int)), ".L.skip."), skip as int), ":")),
            ),
        }
    } else {
        Ok(nl(putd(puts(puts(g, "  je "), prefix), number as int)))
    }
}

/// A jump to the given label if the previously compared scalar is non-zero.
#[verifier::opaque]
pub open spec fn jump_if_nonzero(
    env: GenView,
    g: Gen,
    ty: Type,
    prefix: &str,
    number: usize,
) -> Gen {
    if ty_is_flonum(ty) {
        nl(putd(puts(puts(nl(putd(puts(puts(g, "  jne "), prefix), number as int)), "  jp "), prefix), number as int))
    } else {
        nl(putd(puts(puts(g, "  jne "), prefix), number as int))
    }
}

/// A type as far as casts tell types apart.
#[derive(Clone, Copy, Debug, PartialEq, Eq, Structural)]
pub enum CastTypeId {
    I8,
    U8,
    I16,
    U16,
    I32,
    U32,
    I64,
    U64,
    F32,
    F64,
}

pub open spec fn cast_type_id(ty: Type) -> Option<CastTypeId> {
    match ty {
        Type::Enum => Some(CastTypeId::I32),
        Type::Arith(arith) => match arith {
            ArithType::Bool => None,
            ArithType::Char => Some(CastTypeId::I8),
            ArithType::UChar => Some(CastTypeId::U8),
            ArithType::Short => Some(CastTypeId::I16),
            ArithType::UShort => Some(CastTypeId::U16),
            ArithType::Int => Some(CastTypeId::I32),
            ArithType::UInt => Some(CastTypeId::U32),
            ArithType::Long => Some(CastTypeId::I64),
            ArithType::ULong => Some(CastTypeId::U64),
            ArithType::Float => Some(CastTypeId::F32),
            ArithType::Double => Some(CastTypeId::F64),
        },
        _ => None,
    }
}

/// The instruction that casts one integer to another, if it takes one.
///
/// A floating-point number counts as the integer that it was first cast to.
pub open spec fn int_cast(from: CastTypeId, to: CastTypeId) -> Option<&'static str> {
    match (from, to) {
        (_, CastTypeId::I8) => Some("  movsbl %al, %eax"),
        (_, CastTypeId::U8) => Some("  movzbl %al, %eax"),
        (CastTypeId::I8, CastTypeId::I16) | (CastTypeId::U8, CastTypeId::I16) => None,
        (_, CastTypeId::I16) => Some("  movswl %ax, %eax"),
        (CastTypeId::U8, CastTypeId::U16) => None,
        (_, CastTypeId::U16) => Some("  movzwl %ax, %eax"),
        (CastTypeId::I64, CastTypeId::I64) | (CastTypeId::I64, CastTypeId::U64) | (CastTypeId::U64, CastTypeId::I64) | (CastTypeId::U64, CastTypeId::U64)
        | (CastTypeId::F32, CastTypeId::I64) | (CastTypeId::F32, CastTypeId::U64) | (CastTypeId::F64, CastTypeId::I64) | (CastTypeId::F64, CastTypeId::U64) => None,
        (CastTypeId::U32, CastTypeId::I64) | (CastTypeId::U32, CastTypeId::U64) | (CastTypeId::U32, CastTypeId::F32) | (CastTypeId::U32, CastTypeId::F64) => Some(
            "  mov %eax, %eax",
        ),
        (_, CastTypeId::I64) | (_, CastTypeId::U64) => Some("  movsxd %eax, %rax"),
        _ => None,
    }
}

/// An integer cast to a floating-point number.
#[verifier::opaque]
pub open spec fn int_to_float(g: Gen, from: CastTypeId, to: Type) -> Gen {
    match from {
        CastTypeId::U64 => {
            let g1 = nl(puts(g, "  test %rax, %rax"));
            let g2 = nl(puts(g1, "  js 1f"));
            let g3 = nl(puts(g2, "  pxor %xmm0, %xmm0"));
            let g4 = nl(puts(puts(puts(g3, "  cvtsi2s"), fp_sz(to)), "q %rax, %xmm0"));
            let g5 = nl(puts(g4, "  jmp 2f"));
            let g6 = nl(puts(g5, "1:"));
            let g7 = nl(puts(g6, "  mov %rax, %rdi"));
            let g8 = nl(puts(g7, "  and $1, %eax"));
            let g9 = nl(puts(g8, "  pxor %xmm0, %xmm0"));
            let g10 = nl(puts(g9, "  shr %rdi"));
            let g11 = nl(puts(g10, "  or %rax, %rdi"));
            let g12 = nl(puts(puts(puts(g11, "  cvtsi2s"), fp_sz(to)), "q %rdi, %xmm0"));
            let g13 = nl(puts(puts(puts(g12, "  adds"), fp_sz(to)), " %xmm0, %xmm0"));
            let g14 = nl(puts(g13, "2:"));
            g14
        },
        CastTypeId::U32 | CastTypeId::I64 => nl(puts(puts(puts(g, "  cvtsi2s"), fp_sz(to)), "q %rax, %xmm0")),
        _ => nl(puts(puts(puts(g, "  cvtsi2s"), fp_sz(to)), "l %eax, %xmm0")),
    }
}

/// A floating-point number cast to an integer.
#[verifier::opaque]
pub open spec fn float_to_int(g: Gen, from: Type, to: CastTypeId) -> Gen {
    match to {
        CastTypeId::U32 | CastTypeId::I64 | CastTypeId::U64 => nl(puts(puts(puts(g, "  cvtts"), fp_sz(from)), "2siq %xmm0, %rax")),
        _ => nl(puts(puts(puts(g, "  cvtts"), fp_sz(from)), "2sil %xmm0, %eax")),
    }
}

/// A cast of one number to another.
#[verifier::opaque]
pub open spec fn number_cast(
    g: Gen,
    from: Type,
    to: Type,
    from_id: CastTypeId,
    to_id: CastTypeId,
) -> Gen {
    let g1 = if ty_is_flonum(from) {
        float_to_int(g, from, to_id)
    } else {
        g
    };
    let g2 = match int_cast(from_id, to_id) {
        Some(line) => nl(puts(g1, line)),
        None => g1,
    };
    if ty_is_flonum(to) {
        int_to_float(g2, from_id, to)
    } else {
        g2
    }
}

/// A type cast of the value in `%rax` or `%xmm0`.
#[verifier::opaque]
pub open spec fn gen_cast(env: GenView, g: Gen, from: Type, to: Type) -> Gen {
    if to == Type::Void {
        g
    } else if to == Type::Arith(ArithType::Bool) {
        let g1 = set_is_nonzero(env, compare_zero(env, g, from), from);
        nl(puts(g1, "  movzx %al, %eax"))
    } else {
        match (cast_type_id(from), cast_type_id(to)) {
            (Some(f), Some(t)) => if f == t {
                g
            } else if f == CastTypeId::F32 && t == CastTypeId::F64 {
                nl(puts(g, "  cvtss2sd %xmm0, %xmm0"))
            } else if f == CastTypeId::F64 && t == CastTypeId::F32 {
                nl(puts(g, "  cvtsd2ss %xmm0, %xmm0"))
            } else {
                number_cast(g, from, to, f, t)
            },
            _ => g,
        }
    }
}

/// The bits of a bit-field of the given width, at offset 0.
pub open spec fn low_bits(width: u32) -> u128 {
    ((1u128 << (width as u128)) - 1) as u128
}

/// The bits of a bit-field among the low 64.
#[verifier::truncate]
pub open spec fn field_bits(field: crate::types::BitField) -> u64 {
    (low_bits(field.width) << (field.offset as u128)) as u64
}

/// A floating-point literal, given by the bits of a double.
#[verifier::opaque]
pub open spec fn gen_flonum(env: GenView, g: Gen, bits: u64, ty: Type) -> Result<Gen, Error> {
    match ty {
        Type::Arith(ArithType::Float) => match asked(env.floats, FloatQuery::Bits32(bits)) {
            Err(query) => Err(Error::NeedsFloat(query)),
            Ok(single) => Ok(nl(puts(nl(puts(puth(puts(g, "  mov $"), single as nat), ", %eax")), "  movd %eax, %xmm0"))),
        },
        Type::Arith(ArithType::Double) => Ok(
            nl(puts(nl(puts(puth(puts(g, "  movabs $"), bits as nat), ", %rax")), "  movq %rax, %xmm0")),
        ),
        _ => Err(Error::Overflow),
    }
}

/// The value in `%rax` or `%xmm0` negated.
#[verifier::opaque]
pub open spec fn negate(env: GenView, g: Gen, ty: Type) -> Gen {
    if ty_is_flonum(ty) {
        nl(puts(puts(puts(nl(puts(nl(puts(putd(puts(nl(puts(g, "  mov $1, %rax")), "  shl $"), (size_of(env.types, ty) * 8 - 1) as int), ", %rax")), "  movq %rax, %xmm1")), "  xorp"), fp_sz(ty)), " %xmm1, %xmm0"))
    } else {
        nl(puts(g, "  neg %rax"))
    }
}

/// The bits of a member extracted from `%rax`, if it is a bit-field.
#[verifier::opaque]
pub open spec fn read_bit_field(env: GenView, g: Gen, member: Member) -> Result<Gen, Error> {
    match member.bit_field {
        None => Ok(g),
        Some(field) => if field.width + field.offset > 64 {
            Err(Error::Overflow)
        } else {
            let g = nl(puts(putd(puts(g, "  shl $"), (64 - field.width - field.offset) as int), ", %rax"));
            if ty_is_unsigned(member.ty) {
                Ok(nl(puts(putd(puts(g, "  shr $"), (64 - field.width) as int), ", %rax")))
            } else {
                Ok(nl(puts(putd(puts(g, "  sar $"), (64 - field.width) as int), ", %rax")))
            }
        },
    }
}

/// `%rax` stored into a bit-field of the member whose address is on top of the temporary stack.
#[verifier::opaque]
pub open spec fn write_bit_field(
    env: GenView,
    g: Gen,
    member: Member,
    field: crate::types::BitField,
    ty: Type,
) -> Result<Gen, Error> {
    if field.width >= 128 || field.offset >= 128 {
        Err(Error::Overflow)
    } else {
        match load(
            env,
            nl(puts(nl(puts(putd(puts(nl(puts(putd(puts(nl(puts(nl(puts(g, "  mov %rax, %r8")), "  mov %rax, %rdi")), "  and $"), low_bits(field.width) as int), ", %rdi")), "  shl $"), field.offset as int), ", %rdi")), "  mov (%rsp), %rax")),
            member.ty,
        ) {
            Err(e) => Err(e),
            Ok(g) => match store(env, nl(puts(nl(puts(nl(puts(putd(puts(g, "  mov $"), as_signed((u64::MAX - field_bits(field)) as u64) as int), ", %r9")), "  and %r9, %rax")), "  or %rdi, %rax")), ty) {
                Err(e) => Err(e),
                Ok(g) => Ok(nl(puts(g, "  mov %r8, %rax"))),
            },
        }
    }
}

/// A binary operation on the floating-point values in `%xmm0` and `%xmm1`.
#[verifier::opaque]
pub open spec fn float_binary(
    env: GenView,
    g: Gen,
    op: BinaryOp,
    lhs_ty: Type,
    span: SourceSpan,
) -> Result<Gen, Error> {
    let sz = fp_sz(lhs_ty);
    match op {
        BinaryOp::Add => Ok(nl(puts(nl(puts(nl(puts(puts(puts(g, "  adds"), sz), " %xmm1, %xmm0")), "  and $1, %al")), "  movzb %al, %rax"))),
        BinaryOp::Sub => Ok(nl(puts(nl(puts(nl(puts(puts(puts(g, "  subs"), sz), " %xmm1, %xmm0")), "  and $1, %al")), "  movzb %al, %rax"))),
        BinaryOp::Mul => Ok(nl(puts(nl(puts(nl(puts(puts(puts(g, "  muls"), sz), " %xmm1, %xmm0")), "  and $1, %al")), "  movzb %al, %rax"))),
        BinaryOp::Div => Ok(nl(puts(nl(puts(nl(puts(puts(puts(g, "  divs"), sz), " %xmm1, %xmm0")), "  and $1, %al")), "  movzb %al, %rax"))),
        BinaryOp::Eq => Ok(nl(puts(nl(puts(nl(puts(nl(puts(nl(puts(nl(puts(puts(puts(g, "  ucomis"), sz), " %xmm0, %xmm1")), "  sete %al")), "  setnp %dl")), "  and %dl, %al")), "  and $1, %al")), "  movzb %al, %rax"))),
        BinaryOp::Ne => Ok(nl(puts(nl(puts(nl(puts(nl(puts(nl(puts(nl(puts(puts(puts(g, "  ucomis"), sz), " %xmm0, %xmm1")), "  setne %al")), "  setp %dl")), "  or %dl, %al")), "  and $1, %al")), "  movzb %al, %rax"))),
        BinaryOp::Lt => Ok(nl(puts(nl(puts(nl(puts(nl(puts(puts(puts(g, "  ucomis"), sz), " %xmm0, %xmm1")), "  seta %al")), "  and $1, %al")), "  movzb %al, %rax"))),
        BinaryOp::Le => Ok(nl(puts(nl(puts(nl(puts(nl(puts(puts(puts(g, "  ucomis"), sz), " %xmm0, %xmm1")), "  setae %al")), "  and $1, %al")), "  movzb %al, %rax"))),
        _ => Err(Error::Terminate(span, Message::InvalidFloatOperator)),
    }
}

/// The value in `%rax` divided by that in `%rdi`; the quotient or the remainder is left in `%rax`.
#[verifier::opaque]
pub open spec fn int_divide(env: GenView, g: Gen, is_mod: bool, lhs_ty: Type, ty: Type) -> Gen {
    let width = promoted_width(env, lhs_ty);
    let g1 = if ty_is_unsigned(ty) || is_ptr_ty(env.types, ty) {
        nl(puts(puts(nl(puts(puts(g, "  mov $0, "), rdx_reg(width))), "  div "), rdi_reg(width)))
    } else {
        nl(puts(puts(nl(puts(puts(g, "  "), signed_div_extend_mnemonic(width))), "  idiv "), rdi_reg(width)))
    };
    if is_mod {
        nl(puts(puts(puts(puts(g1, "  mov "), rdx_reg(width)), ", "), acc_reg(width)))
    } else {
        g1
    }
}

/// The values in `%rax` and `%rdi` compared; the outcome is left in `%rax`.
#[verifier::opaque]
pub open spec fn int_compare(env: GenView, g: Gen, op: BinaryOp, lhs_ty: Type) -> Gen {
    let width = promoted_width(env, lhs_ty);
    let unsigned = ty_is_unsigned(lhs_ty) || is_ptr_ty(env.types, lhs_ty);
    let g1 = nl(puts(puts(puts(puts(g, "  cmp "), rdi_reg(width)), ", "), acc_reg(width)));
    let g2 = match op {
        BinaryOp::Eq => nl(puts(g1, "  sete %al")),
        BinaryOp::Ne => nl(puts(g1, "  setne %al")),
        BinaryOp::Lt => if unsigned {
            nl(puts(g1, "  setb %al"))
        } else {
            nl(puts(g1, "  setl %al"))
        },
        _ => if unsigned {
            nl(puts(g1, "  setbe %al"))
        } else {
            nl(puts(g1, "  setle %al"))
        },
    };
    nl(puts(g2, "  movzb %al, %rax"))
}

/// A binary operation on the integers in `%rax` and `%rdi`.
#[verifier::opaque]
pub open spec fn int_binary(env: GenView, g: Gen, op: BinaryOp, lhs_ty: Type, ty: Type) -> Gen {
    let width = promoted_width(env, lhs_ty);
    match op {
        BinaryOp::Add => nl(puts(puts(puts(puts(g, "  add "), rdi_reg(width)), ", "), acc_reg(width))),
        BinaryOp::Sub => nl(puts(puts(puts(puts(g, "  sub "), rdi_reg(width)), ", "), acc_reg(width))),
        BinaryOp::Mul => nl(puts(puts(puts(puts(g, "  imul "), rdi_reg(width)), ", "), acc_reg(width))),
        BinaryOp::BitAnd => nl(puts(puts(puts(puts(g, "  and "), rdi_reg(width)), ", "), acc_reg(width))),
        BinaryOp::BitOr => nl(puts(puts(puts(puts(g, "  or "), rdi_reg(width)), ", "), acc_reg(width))),
        BinaryOp::BitXor => nl(puts(puts(puts(puts(g, "  xor "), rdi_reg(width)), ", "), acc_reg(width))),
        BinaryOp::Div => int_divide(env, g, false, lhs_ty, ty),
        BinaryOp::Mod => int_divide(env, g, true, lhs_ty, ty),
        BinaryOp::BitLeftShift => nl(puts(puts(nl(puts(puts(puts(puts(g, "  mov "), rdi_reg(width)), ", "), rcx_reg(width))), "  shl %cl, "), acc_reg(width))),
        BinaryOp::BitRightShift => {
            let g1 = nl(puts(puts(puts(puts(g, "  mov "), rdi_reg(width)), ", "), rcx_reg(width)));
            if ty_is_unsigned(lhs_ty) || is_ptr_ty(env.types, lhs_ty) {
                nl(puts(puts(g1, "  shr %cl, "), acc_reg(width)))
            } else {
                nl(puts(puts(g1, "  sar %cl, "), acc_reg(width)))
            }
        },
        BinaryOp::Eq | BinaryOp::Ne | BinaryOp::Lt | BinaryOp::Le => int_compare(
            env,
            g,
            op,
            lhs_ty,
        ),
    }
}

/// The registers that the arguments of a call take.
pub open spec fn args_regs(types: Types, args: NodeList, rindex: ArgRegIndex) -> Seq<ArgRegs>
    decreases args,
{
    match args {
        NodeList::Nil => Seq::empty(),
        NodeList::Cons(arg, tail) => {
            let (regs, rindex) = arg_regs(types, node_ty(*arg), rindex);
            seq![regs] + args_regs(types, *tail, rindex)
        },
    }
}

/// The number of 8-byte slots that an argument takes on the stack.
pub open spec fn arg_slots(types: Types, ty: Type) -> int {
    if is_sou_ty(types, ty) {
        align_up(size_of(types, ty) as int, 8) / 8
    } else {
        1
    }
}

/// The number of slots that the arguments passed by stack take.
pub open spec fn stack_slots(types: Types, args: NodeList, places: Seq<ArgRegs>, k: int) -> int
    decreases args,
{
    match args {
        NodeList::Nil => 0,
        NodeList::Cons(arg, tail) => stack_slots(types, *tail, places, k + 1) + (if places[k]
            == ArgRegs::Stack {
            arg_slots(types, node_ty(*arg))
        } else {
            0
        }),
    }
}

/// A value pushed onto the temporary stack.
#[verifier::opaque]
pub open spec fn push_value(env: GenView, g: Gen, ty: Type) -> Result<Gen, Error> {
    if is_sou_ty(env.types, ty) {
        push_struct_or_union(env, g, ty)
    } else if ty_is_flonum(ty) {
        pushf(env, g)
    } else {
        push(env, g)
    }
}

/// One register popped from the temporary stack.
#[verifier::opaque]
pub open spec fn pop_reg(env: GenView, g: Gen, is_fp: bool, rindex: ArgRegIndex) -> Result<
    (Gen, ArgRegIndex),
    Error,
> {
    if is_fp {
        if rindex.fp >= MAX_FP_ARG_REGS {
            Err(Error::Overflow)
        } else {
            match popf(env, g, rindex.fp) {
                Err(e) => Err(e),
                Ok(g) => Ok((g, ArgRegIndex { fp: (rindex.fp + 1) as usize, ..rindex })),
            }
        }
    } else if rindex.gp >= MAX_GP_ARG_REGS {
        Err(Error::Overflow)
    } else {
        match pop(env, g, gp_arg_64(rindex.gp)) {
            Err(e) => Err(e),
            Ok(g) => Ok((g, ArgRegIndex { gp: (rindex.gp + 1) as usize, ..rindex })),
        }
    }
}

/// The register arguments from argument `k` on popped into their registers.
pub open spec fn pop_args(
    env: GenView,
    g: Gen,
    places: Seq<ArgRegs>,
    k: int,
    rindex: ArgRegIndex,
) -> Result<(Gen, ArgRegIndex), Error>
    decreases places.len() - k,
{
    if k >= places.len() {
        Ok((g, rindex))
    } else {
        match places[k] {
            ArgRegs::Stack => pop_args(env, g, places, k + 1, rindex),
            ArgRegs::One(a) => match pop_reg(env, g, a, rindex) {
                Err(e) => Err(e),
                Ok((g, rindex)) => pop_args(env, g, places, k + 1, rindex),
            },
            ArgRegs::Two(a, b) => match pop_reg(env, g, a, rindex) {
                Err(e) => Err(e),
                Ok((g, rindex)) => match pop_reg(env, g, b, rindex) {
                    Err(e) => Err(e),
                    Ok((g, rindex)) => pop_args(env, g, places, k + 1, rindex),
                },
            },
        }
    }
}

/// The value that a call returned put in place: an aggregate into its buffer, a narrow integer widened.
#[verifier::opaque]
pub open spec fn store_returned(env: GenView, g: Gen, ty: Type, ret_buf: Option<usize>) -> Result<
    Gen,
    Error,
> {
    match ret_buf {
        Some(id) => match local_offset(env, id) {
            Err(e) => Err(e),
            Ok(offset) => match store_ret_chunks(env, g, ty, offset) {
                Err(e) => Err(e),
                Ok(g) => Ok(nl(puts(putd(puts(g, "  lea "), offset as int), "(%rbp), %rax"))),
            },
        },
        None => match ty {
            Type::Arith(ArithType::Bool) => Ok(nl(puts(g, "  movzx %al, %eax"))),
            Type::Arith(ArithType::Char) => Ok(nl(puts(g, "  movsbl %al, %eax"))),
            Type::Arith(ArithType::UChar) => Ok(nl(puts(g, "  movzbl %al, %eax"))),
            Type::Arith(ArithType::Short) => Ok(nl(puts(g, "  movswl %ax, %eax"))),
            Type::Arith(ArithType::UShort) => Ok(nl(puts(g, "  movzwl %ax, %eax"))),
            _ => Ok(g),
        },
    }
}

/// A small aggregate stored from return registers into a local.
pub open spec fn store_ret_chunks(env: GenView, g: Gen, ty: Type, offset: i64) -> Result<Gen, Error> {
    if size_of(env.types, ty) > 16 {
        Ok(g)
    } else {
        match store_ret_chunk(env, g, ty, 0, offset, no_regs()) {
            Err(e) => Err(e),
            Ok((g, rindex)) => if size_of(env.types, ty) <= 8 {
                Ok(g)
            } else if offset > i64::MAX - 8 {
                Err(Error::Overflow)
            } else {
                match store_ret_chunk(env, g, ty, 8, (offset + 8) as i64, rindex) {
                    Err(e) => Err(e),
                    Ok((g, _)) => Ok(g),
                }
            },
        }
    }
}

/// The value of an expression, left in `%rax` or `%xmm0`.
pub open spec fn gen_expr(env: GenView, g: Gen, node: Node) -> Result<Gen, Error>
    decreases node, 13int,
{
    gen_expr_rule(env, g, node)
}

pub open spec fn gen_expr_rule(env: GenView, g: Gen, node: Node) -> Result<Gen, Error>
    decreases node, 12int,
{
    {
        let g = gen_loc(env, g, node.span);
        let ty = node_ty(node);
        match node.kind {
            NodeKind::Num(value) => {
                let g = nl(puts(putd(puts(g, "  mov $"), value as int), ", %rax"));
                Ok(g)
            },
            NodeKind::Flonum(bits) => gen_flonum(env, g, bits, ty),
            NodeKind::FuncCall { .. } => gen_call(env, g, node),
            NodeKind::Addr(expr) => gen_addr(env, g, *expr),
            NodeKind::Deref(expr) => match gen_expr(env, g, *expr) {
                Err(e) => Err(e),
                Ok(g) => match load(env, g, ty) {
                    Err(e) => Err(e),
                    Ok(g) => Ok(g),
                },
            },
            NodeKind::Neg(expr) => match gen_expr(env, g, *expr) {
                Err(e) => Err(e),
                Ok(g) => {
                    let g = negate(env, g, ty);
                    Ok(g)
                },
            },
            NodeKind::Not(expr) => match gen_expr(env, g, *expr) {
                Err(e) => Err(e),
                Ok(g) => {
                    let ty = node_ty(*expr);
                    {
                        let g = compare_zero(env, g, ty);
                        {
                            let g = set_is_zero(env, g, ty);
                            {
                                let g = nl(puts(g, "  movzx %al, %rax"));
                                Ok(g)
                            }
                        }
                    }
                },
            },
            NodeKind::BitNot(expr) => match gen_expr(env, g, *expr) {
                Err(e) => Err(e),
                Ok(g) => {
                    let g = nl(puts(g, "  not %rax"));
                    Ok(g)
                },
            },
            NodeKind::Entity(_) => match gen_addr(env, g, node) {
                Err(e) => Err(e),
                Ok(g) => match load(env, g, ty) {
                    Err(e) => Err(e),
                    Ok(g) => Ok(g),
                },
            },
            NodeKind::Assign { .. } => gen_assign(env, g, node),
            NodeKind::Comma { lhs, rhs } => match gen_expr(env, g, *lhs) {
                Err(e) => Err(e),
                Ok(g) => match gen_expr(env, g, *rhs) {
                    Err(e) => Err(e),
                    Ok(g) => Ok(g),
                },
            },
            NodeKind::LogicalAnd { .. } | NodeKind::LogicalOr { .. } => gen_logical(env, g, node),
            NodeKind::Binary { .. } => gen_binary(env, g, node, ty),
            NodeKind::Conditional { cond, then_expr, else_expr } => {
                let ty = node_ty(*cond);
                match take_label(g) {
                    Err(e) => Err(e),
                    Ok((g, label)) => match gen_expr(env, g, *cond) {
                        Err(e) => Err(e),
                        Ok(g) => {
                            let g = compare_zero(env, g, ty);
                            match jump_if_zero(env, g, ty, ".L.else.", label) {
                                Err(e) => Err(e),
                                Ok(g) => match gen_expr(env, g, *then_expr) {
                                    Err(e) => Err(e),
                                    Ok(g) => {
                                        let g = nl(putd(puts(g, "  jmp .L.end."), label as int));
                                        {
                                            let g = nl(puts(putd(puts(g, ".L.else."), label as int), ":"));
                                            match gen_expr(env, g, *else_expr) {
                                                Err(e) => Err(e),
                                                Ok(g) => {
                                                    let g = nl(puts(putd(puts(g, ".L.end."), label as int), ":"));
                                                    Ok(g)
                                                },
                                            }
                                        }
                                    },
                                },
                            }
                        },
                    },
                }
            },
            NodeKind::Member { parent: _, member } => match gen_addr(env, g, node) {
                Err(e) => Err(e),
                Ok(g) => match load(env, g, ty) {
                    Err(e) => Err(e),
                    Ok(g) => match read_bit_field(env, g, member) {
                        Err(e) => Err(e),
                        Ok(g) => Ok(g),
                    },
                },
            },
            NodeKind::StmtExpr(body) => gen_stmts(env, g, body),
            NodeKind::Cast(expr) => match gen_expr(env, g, *expr) {
                Err(e) => Err(e),
                Ok(g) => {
                    let g = gen_cast(env, g, node_ty(*expr), ty);
                    Ok(g)
                },
            },
            NodeKind::Dummy => Err(Error::Overflow),
        }
    }
}

/// The address of an addressable expression, left in `%rax`.
pub open spec fn gen_addr(env: GenView, g: Gen, node: Node) -> Result<Gen, Error>
    decreases node, 9int,
{
    gen_addr_rule(env, g, node)
}

pub open spec fn gen_addr_rule(env: GenView, g: Gen, node: Node) -> Result<Gen, Error>
    decreases node, 8int,
{
    match node.kind {
        NodeKind::Entity(entity) => entity_addr(env, g, entity),
        NodeKind::Deref(expr) => gen_expr(env, g, *expr),
        NodeKind::Comma { lhs, rhs } => match gen_expr(env, g, *lhs) {
            Err(e) => Err(e),
            Ok(g) => gen_addr(env, g, *rhs),
        },
        NodeKind::StmtExpr(body) => gen_addr_block(env, g, body, node.span),
        NodeKind::Member { parent, member } => match gen_addr(env, g, *parent) {
            Err(e) => Err(e),
            Ok(g) => {
                let g = nl(puts(putd(puts(g, "  add $"), member.offset as int), ", %rax"));
                Ok(g)
            },
        },
        NodeKind::FuncCall { ret_buf_local: Some(_), .. } => gen_call(
            env,
            gen_loc(env, g, node.span),
            node,
        ),
        _ => Err(Error::Terminate(node.span, Message::NotAnLvalue)),
    }
}

/// The address of a named entity, left in `%rax`.
#[verifier::opaque]
pub open spec fn entity_addr(env: GenView, g: Gen, entity: EntityRef) -> Result<Gen, Error> {
    match entity {
        EntityRef::Local(id) => match local_offset(env, id) {
            Err(e) => Err(e),
            Ok(offset) => Ok(nl(puts(putd(puts(g, "  lea "), offset as int), "(%rbp), %rax"))),
        },
        EntityRef::Global(id) => if id < env.globals.len() {
            Ok(nl(puts(put_name(puts(g, "  lea "), env.names, env.globals[id as int].name), "(%rip), %rax")))
        } else {
            Err(Error::Overflow)
        },
        EntityRef::Function(id) => if id < env.functions.len() {
            let function = env.functions[id as int];
            if function.is_defined {
                Ok(nl(puts(put_name(puts(g, "  lea "), env.names, Name::Ident(function.name)), "(%rip), %rax")))
            } else {
                Ok(nl(puts(put_name(puts(g, "  mov "), env.names, Name::Ident(function.name)), "@GOTPCREL(%rip), %rax")))
            }
        } else {
            Err(Error::Overflow)
        },
    }
}

/// The address of the last expression of a statement expression.
pub open spec fn gen_addr_block(env: GenView, g: Gen, stmts: StmtList, span: SourceSpan) -> Result<Gen, Error>
    decreases stmts, 9int,
{
    gen_addr_block_rule(env, g, stmts, span)
}

pub open spec fn gen_addr_block_rule(env: GenView, g: Gen, stmts: StmtList, span: SourceSpan) -> Result<Gen, Error>
    decreases stmts, 8int,
{
    match stmts {
        StmtList::Nil => Err(Error::Terminate(span, Message::VoidLvalue)),
        StmtList::Cons(stmt, tail) => match *tail {
            StmtList::Nil => match stmt.kind {
                StmtKind::Expr(expr) => gen_addr(env, g, expr),
                _ => Err(Error::Terminate(span, Message::VoidLvalue)),
            },
            _ => match gen_stmt(env, g, *stmt) {
                Err(e) => Err(e),
                Ok(g) => gen_addr_block(env, g, *tail, span),
            },
        },
    }
}

/// An assignment.
pub open spec fn gen_assign(env: GenView, g: Gen, node: Node) -> Result<Gen, Error>
    decreases node, 1int,
{
    gen_assign_rule(env, g, node)
}

pub open spec fn gen_assign_rule(env: GenView, g: Gen, node: Node) -> Result<Gen, Error>
    decreases node, 0int,
{
    match node.kind {
        NodeKind::Assign { lhs, rhs } => match gen_addr(env, g, *lhs) {
            Err(e) => Err(e),
            Ok(g) => match push(env, g) {
                Err(e) => Err(e),
                Ok(g) => match gen_expr(env, g, *rhs) {
                    Err(e) => Err(e),
                    Ok(g) => match lhs.kind {
                        NodeKind::Member { parent: _, member } => match member.bit_field {
                            Some(field) => write_bit_field(env, g, member, field, node_ty(*lhs)),
                            None => store(env, g, node_ty(*lhs)),
                        },
                        _ => store(env, g, node_ty(*lhs)),
                    },
                },
            },
        },
        _ => Err(Error::Overflow),
    }
}

/// A logical operator, which skips its right operand if the left one decides.
pub open spec fn gen_logical(env: GenView, g: Gen, node: Node) -> Result<Gen, Error>
    decreases node, 1int,
{
    gen_logical_rule(env, g, node)
}

pub open spec fn gen_logical_rule(env: GenView, g: Gen, node: Node) -> Result<Gen, Error>
    decreases node, 0int,
{
    match node.kind {
        NodeKind::LogicalAnd { lhs, rhs } => {
            let lhs_ty = node_ty(*lhs);
            {
                let rhs_ty = node_ty(*rhs);
                match take_label(g) {
                    Err(e) => Err(e),
                    Ok((g, label)) => match gen_expr(env, g, *lhs) {
                        Err(e) => Err(e),
                        Ok(g) => {
                            let g = compare_zero(env, g, lhs_ty);
                            match jump_if_zero(env, g, lhs_ty, ".L.false.", label) {
                                Err(e) => Err(e),
                                Ok(g) => match gen_expr(env, g, *rhs) {
                                    Err(e) => Err(e),
                                    Ok(g) => {
                                        let g = compare_zero(env, g, rhs_ty);
                                        match jump_if_zero(env, g, rhs_ty, ".L.false.", label) {
                                            Err(e) => Err(e),
                                            Ok(g) => {
                                                let g = nl(puts(g, "  mov $1, %rax"));
                                                {
                                                    let g = nl(putd(puts(g, "  jmp .L.end."), label as int));
                                                    {
                                                        let g = nl(puts(putd(puts(g, ".L.false."), label as int), ":"));
                                                        {
                                                            let g = nl(puts(g, "  mov $0, %rax"));
                                                            {
                                                                let g = nl(puts(putd(puts(g, ".L.end."), label as int), ":"));
                                                                Ok(g)
                                                            }
                                                        }
                                                    }
                                                }
                                            },
                                        }
                                    },
                                },
                            }
                        },
                    },
                }
            }
        },
        NodeKind::LogicalOr { lhs, rhs } => {
            let lhs_ty = node_ty(*lhs);
            {
                let rhs_ty = node_ty(*rhs);
                match take_label(g) {
                    Err(e) => Err(e),
                    Ok((g, label)) => match gen_expr(env, g, *lhs) {
                        Err(e) => Err(e),
                        Ok(g) => {
                            let g = compare_zero(env, g, lhs_ty);
                            {
                                let g = jump_if_nonzero(env, g, lhs_ty, ".L.true.", label);
                                match gen_expr(env, g, *rhs) {
                                    Err(e) => Err(e),
                                    Ok(g) => {
                                        let g = compare_zero(env, g, rhs_ty);
                                        {
                                            let g = jump_if_nonzero(env, g, rhs_ty, ".L.true.", label);
                                            {
                                                let g = nl(puts(g, "  mov $0, %rax"));
                                                {
                                                    let g = nl(putd(puts(g, "  jmp .L.end."), label as int));
                                                    {
                                                        let g = nl(puts(putd(puts(g, ".L.true."), label as int), ":"));
                                                        {
                                                            let g = nl(puts(g, "  mov $1, %rax"));
                                                            {
                                                                let g = nl(puts(putd(puts(g, ".L.end."), label as int), ":"));
                                                                Ok(g)
                                                            }
                                                        }
                                                    }
                                                }
                                            }
                                        }
                                    },
                                }
                            }
                        },
                    },
                }
            }
        },
        _ => Err(Error::Overflow),
    }
}

/// A binary operation.
pub open spec fn gen_binary(env: GenView, g: Gen, node: Node, ty: Type) -> Result<Gen, Error>
    decreases node, 1int,
{
    gen_binary_rule(env, g, node, ty)
}

pub open spec fn gen_binary_rule(env: GenView, g: Gen, node: Node, ty: Type) -> Result<Gen, Error>
    decreases node, 0int,
{
    match node.kind {
        NodeKind::Binary { op, lhs, rhs } => if ty_is_flonum(node_ty(*lhs)) {
            match gen_expr(env, g, *rhs) {
                Err(e) => Err(e),
                Ok(g) => match pushf(env, g) {
                    Err(e) => Err(e),
                    Ok(g) => match gen_expr(env, g, *lhs) {
                        Err(e) => Err(e),
                        Ok(g) => match popf(env, g, 1) {
                            Err(e) => Err(e),
                            Ok(g) => float_binary(env, g, op, node_ty(*lhs), node.span),
                        },
                    },
                },
            }
        } else {
            match gen_expr(env, g, *rhs) {
                Err(e) => Err(e),
                Ok(g) => match push(env, g) {
                    Err(e) => Err(e),
                    Ok(g) => match gen_expr(env, g, *lhs) {
                        Err(e) => Err(e),
                        Ok(g) => match pop(env, g, "%rdi") {
                            Err(e) => Err(e),
                            Ok(g) => Ok(int_binary(env, g, op, node_ty(*lhs), ty)),
                        },
                    },
                },
            }
        },
        _ => Err(Error::Overflow),
    }
}

/// The arguments of one kind pushed onto the stack, the last one first.
pub open spec fn push_args(
    env: GenView,
    g: Gen,
    args: NodeList,
    places: Seq<ArgRegs>,
    k: int,
    by_stack: bool,
) -> Result<Gen, Error>
    decreases args, 1int,
{
    push_args_rule(env, g, args, places, k, by_stack)
}

pub open spec fn push_args_rule(
    env: GenView,
    g: Gen,
    args: NodeList,
    places: Seq<ArgRegs>,
    k: int,
    by_stack: bool,
) -> Result<Gen, Error>
    decreases args, 0int,
{
    match args {
        NodeList::Nil => Ok(g),
        NodeList::Cons(arg, tail) => match push_args(env, g, *tail, places, k + 1, by_stack) {
            Err(e) => Err(e),
            Ok(g) => if (places[k] == ArgRegs::Stack) != by_stack {
                Ok(g)
            } else {
                match gen_expr(env, g, *arg) {
                    Err(e) => Err(e),
                    Ok(g) => push_value(env, g, node_ty(*arg)),
                }
            },
        },
    }
}

/// An extra slot reserved if the stack would not be 16-byte aligned at a call.
#[verifier::opaque]
pub open spec fn align_stack(env: GenView, g: Gen, slots: int) -> Result<(Gen, int), Error> {
    if slots >= u64::MAX || g.depth + slots > u64::MAX {
        Err(Error::Overflow)
    } else if (g.depth + slots) % 2 == 0 {
        Ok((g, slots))
    } else {
        match grown(nl(puts(g, "  sub $8, %rsp")), 1) {
            Err(e) => Err(e),
            Ok(g) => Ok((g, slots + 1)),
        }
    }
}

/// The address of the return buffer pushed, if there is one.
#[verifier::opaque]
pub open spec fn push_ret_buf(env: GenView, g: Gen, ret_buf: Option<usize>) -> Result<Gen, Error> {
    match ret_buf {
        None => Ok(g),
        Some(id) => match local_offset(env, id) {
            Err(e) => Err(e),
            Ok(offset) => push(env, nl(puts(putd(puts(g, "  lea "), offset as int), "(%rbp), %rax"))),
        },
    }
}

/// The call itself: register arguments popped, the function called, and the
/// stack arguments dropped.
#[verifier::opaque]
pub open spec fn finish_call(
    env: GenView,
    g: Gen,
    places: Seq<ArgRegs>,
    slots: int,
    ret_buf: Option<usize>,
) -> Result<Gen, Error> {
    let first = if ret_buf is Some {
        pop_reg(env, g, false, no_regs())
    } else {
        Ok((g, no_regs()))
    };
    match first {
        Err(e) => Err(e),
        Ok((g, rindex)) => match pop_args(env, g, places, 0, rindex) {
            Err(e) => Err(e),
            Ok((g, rindex)) => {
                let g = nl(puts(nl(puts(putd(puts(nl(puts(g, "  mov %rax, %r10")), "  mov $"), rindex.fp as int), ", %rax")), "  call *%r10"));
                if slots > 0 {
                    if slots * 8 > u64::MAX {
                        Err(Error::Overflow)
                    } else {
                        shrunk(nl(puts(putd(puts(g, "  add $"), (slots * 8) as int), ", %rsp")), slots)
                    }
                } else {
                    Ok(g)
                }
            },
        },
    }
}

pub open spec fn first_arg_index(ret_buf: Option<usize>) -> ArgRegIndex {
    if ret_buf is Some {
        ArgRegIndex { fp: 0, gp: 1 }
    } else {
        no_regs()
    }
}

/// A function call.
pub open spec fn gen_call(env: GenView, g: Gen, node: Node) -> Result<Gen, Error>
    decreases node, 1int,
{
    gen_call_rule(env, g, node)
}

pub open spec fn gen_call_rule(env: GenView, g: Gen, node: Node) -> Result<Gen, Error>
    decreases node, 0int,
{
    match node.kind {
        NodeKind::FuncCall { callee, args, ret_buf_local } => {
            let places = args_regs(env.types, args, first_arg_index(ret_buf_local));
            match align_stack(env, g, stack_slots(env.types, args, places, 0)) {
                Err(e) => Err(e),
                Ok((g, slots)) => match push_args(env, g, args, places, 0, true) {
                    Err(e) => Err(e),
                    Ok(g) => match push_args(env, g, args, places, 0, false) {
                        Err(e) => Err(e),
                        Ok(g) => match push_ret_buf(env, g, ret_buf_local) {
                            Err(e) => Err(e),
                            Ok(g) => match gen_expr(env, g, *callee) {
                                Err(e) => Err(e),
                                Ok(g) => match finish_call(env, g, places, slots, ret_buf_local) {
                                    Err(e) => Err(e),
                                    Ok(g) => store_returned(env, g, node_ty(node), ret_buf_local),
                                },
                            },
                        },
                    },
                },
            }
        },
        _ => Err(Error::Overflow),
    }
}

/// A local variable filled with zeros.
#[verifier::opaque]
pub open spec fn memzero_local(env: GenView, g: Gen, id: usize) -> Result<Gen, Error> {
    match local_offset(env, id) {
        Err(e) => Err(e),
        Ok(offset) => {
            let size = size_of(env.types, local_type(env, id));
            Ok(nl(puts(nl(puts(nl(puts(putd(puts(nl(puts(putd(puts(g, "  lea "), offset as int), "(%rbp), %rdi")), "  mov $"), size as int), ", %ecx")), "  xor %eax, %eax")), "  rep stosb")))
        },
    }
}

/// A struct or union at `%rax` returned: in registers if it is small, else in the return buffer.
#[verifier::opaque]
pub open spec fn return_aggregate(env: GenView, g: Gen, ty: Type) -> Result<Gen, Error> {
    if !is_sou_ty(env.types, ty) {
        Ok(g)
    } else if size_of(env.types, ty) <= 16 {
        match load_ret_chunk(env, nl(puts(g, "  mov %rax, %rdi")), ty, 0, no_regs()) {
            Err(e) => Err(e),
            Ok((g, rindex)) => if size_of(env.types, ty) > 8 {
                match load_ret_chunk(env, g, ty, 8, rindex) {
                    Err(e) => Err(e),
                    Ok((g, _)) => Ok(g),
                }
            } else {
                Ok(g)
            },
        }
    } else {
        match env.function.ret_buf_local {
            None => Err(Error::Overflow),
            Some(id) => match local_offset(env, id) {
                Err(e) => Err(e),
                Ok(offset) => {
                    let g1 = nl(puts(putd(puts(g, "  mov "), offset as int), "(%rbp), %rdi"));
                    let g2 = copy_bytes(g1, 0, size_of(env.types, ty) as int, "%dl", "%rdi");
                    Ok(nl(puts(g2, "  mov %rdi, %rax")))
                },
            },
        }
    }
}

/// A statement.
pub open spec fn gen_stmt(env: GenView, g: Gen, stmt: Stmt) -> Result<Gen, Error>
    decreases stmt, 9int,
{
    gen_stmt_rule(env, g, stmt)
}

pub open spec fn gen_stmt_rule(env: GenView, g: Gen, stmt: Stmt) -> Result<Gen, Error>
    decreases stmt, 8int,
{
    {
        let g = gen_loc(env, g, stmt.span);
        match stmt.kind {
            StmtKind::Expr(expr) => gen_expr(env, g, expr),
            StmtKind::Return(expr) => gen_return(env, g, expr),
            StmtKind::Loop { do_while, .. } => if do_while { gen_do(env, g, stmt) } else { gen_for(env, g, stmt) },
            StmtKind::If { .. } => gen_if(env, g, stmt),
            StmtKind::Switch { .. } => gen_switch(env, g, stmt),
            StmtKind::Block(stmts) => gen_stmts(env, g, stmts),
            StmtKind::Jump { label: Some(label), .. } => Ok(nl(putd(puts(g, "  jmp .L.."), label as int))),
            StmtKind::Jump { label: None, .. } => Err(Error::Overflow),
            StmtKind::Label { label, body, .. } => gen_stmt(env, nl(puts(putd(puts(g, ".L.."), label as int), ":")), *body),
            StmtKind::MemzeroLocal(id) => memzero_local(env, g, id),
        }
    }
}

/// Statements in order.
pub open spec fn gen_stmts(env: GenView, g: Gen, stmts: StmtList) -> Result<Gen, Error>
    decreases stmts, 5int,
{
    gen_stmts_rule(env, g, stmts)
}

pub open spec fn gen_stmts_rule(env: GenView, g: Gen, stmts: StmtList) -> Result<Gen, Error>
    decreases stmts, 4int,
{
    match stmts {
        StmtList::Nil => Ok(g),
        StmtList::Cons(stmt, tail) => match gen_stmt(env, g, *stmt) {
            Err(e) => Err(e),
            Ok(g) => gen_stmts(env, g, *tail),
        },
    }
}

/// A return statement.
pub open spec fn gen_return(env: GenView, g: Gen, expr: Option<Node>) -> Result<Gen, Error>
    decreases expr, 5int,
{
    gen_return_rule(env, g, expr)
}

pub open spec fn gen_return_rule(env: GenView, g: Gen, expr: Option<Node>) -> Result<Gen, Error>
    decreases expr, 4int,
{
    match expr {
        None => Ok(nl(put_name(puts(g, "  jmp .L.return."), env.names, Name::Ident(env.function.name)))),
        Some(expr) => match gen_expr(env, g, expr) {
            Err(e) => Err(e),
            Ok(g) => match return_aggregate(env, g, node_ty(expr)) {
                Err(e) => Err(e),
                Ok(g) => {
                    let g = nl(put_name(puts(g, "  jmp .L.return."), env.names, Name::Ident(env.function.name)));
                    Ok(g)
                },
            },
        },
    }
}

/// An optional expression.
pub open spec fn gen_opt(env: GenView, g: Gen, expr: Option<Node>) -> Result<Gen, Error>
    decreases expr, 3int,
{
    gen_opt_rule(env, g, expr)
}

pub open spec fn gen_opt_rule(env: GenView, g: Gen, expr: Option<Node>) -> Result<Gen, Error>
    decreases expr, 2int,
{
    match expr {
        None => Ok(g),
        Some(expr) => gen_expr(env, g, expr),
    }
}

/// An optional statement.
pub open spec fn gen_opt_stmt(env: GenView, g: Gen, stmt: Option<Box<Stmt>>) -> Result<Gen, Error>
    decreases stmt, 3int,
{
    gen_opt_stmt_rule(env, g, stmt)
}

pub open spec fn gen_opt_stmt_rule(env: GenView, g: Gen, stmt: Option<Box<Stmt>>) -> Result<Gen, Error>
    decreases stmt, 2int,
{
    match stmt {
        None => Ok(g),
        Some(stmt) => gen_stmt(env, g, *stmt),
    }
}

/// The condition of a loop, which leaves the loop if it is zero.
pub open spec fn gen_loop_cond(env: GenView, g: Gen, cond: Option<Node>, brk_label: usize) -> Result<Gen, Error>
    decreases cond, 3int,
{
    gen_loop_cond_rule(env, g, cond, brk_label)
}

pub open spec fn gen_loop_cond_rule(env: GenView, g: Gen, cond: Option<Node>, brk_label: usize) -> Result<Gen, Error>
    decreases cond, 2int,
{
    match cond {
        None => Ok(g),
        Some(cond) => match gen_expr(env, g, cond) {
            Err(e) => Err(e),
            Ok(g) => {
                let g = compare_zero(env, g, node_ty(cond));
                jump_if_zero(env, g, node_ty(cond), ".L..", brk_label)
            },
        },
    }
}

/// A for-loop or while-loop.
pub open spec fn gen_for(env: GenView, g: Gen, stmt: Stmt) -> Result<Gen, Error>
    decreases stmt, 3int,
{
    gen_for_rule(env, g, stmt)
}

pub open spec fn gen_for_rule(env: GenView, g: Gen, stmt: Stmt) -> Result<Gen, Error>
    decreases stmt, 2int,
{
    match stmt.kind {
        StmtKind::Loop { init, cond, inc, body, do_while: _, brk_label, cont_label } => match take_label(g) {
            Err(e) => Err(e),
            Ok((g, label)) => match gen_opt_stmt(env, g, init) {
                Err(e) => Err(e),
                Ok(g) => {
                    let g = nl(puts(putd(puts(g, ".L.begin."), label as int), ":"));
                    match gen_loop_cond(env, g, cond, brk_label) {
                        Err(e) => Err(e),
                        Ok(g) => match gen_stmt(env, g, *body) {
                            Err(e) => Err(e),
                            Ok(g) => {
                                let g = nl(puts(putd(puts(g, ".L.."), cont_label as int), ":"));
                                match gen_opt(env, g, inc) {
                                    Err(e) => Err(e),
                                    Ok(g) => {
                                        let g = nl(putd(puts(g, "  jmp .L.begin."), label as int));
                                        {
                                            let g = nl(puts(putd(puts(g, ".L.."), brk_label as int), ":"));
                                            Ok(g)
                                        }
                                    },
                                }
                            },
                        },
                    }
                },
            },
        },
        _ => Err(Error::Overflow),
    }
}

/// A do-while loop.
pub open spec fn gen_do(env: GenView, g: Gen, stmt: Stmt) -> Result<Gen, Error>
    decreases stmt, 3int,
{
    gen_do_rule(env, g, stmt)
}

pub open spec fn gen_do_rule(env: GenView, g: Gen, stmt: Stmt) -> Result<Gen, Error>
    decreases stmt, 2int,
{
    match stmt.kind {
        StmtKind::Loop { init: _, cond: Some(cond), inc: _, body, do_while: _, brk_label, cont_label } => match take_label(g) {
            Err(e) => Err(e),
            Ok((g, label)) => {
                let g = nl(puts(putd(puts(g, ".L.begin."), label as int), ":"));
                match gen_stmt(env, g, *body) {
                    Err(e) => Err(e),
                    Ok(g) => {
                        let g = nl(puts(putd(puts(g, ".L.."), cont_label as int), ":"));
                        match gen_expr(env, g, cond) {
                            Err(e) => Err(e),
                            Ok(g) => {
                                let g = compare_zero(env, g, node_ty(cond));
                                {
                                    let g = jump_if_nonzero(env, g, node_ty(cond), ".L.begin.", label);
                                    {
                                        let g = nl(puts(putd(puts(g, ".L.."), brk_label as int), ":"));
                                        Ok(g)
                                    }
                                }
                            },
                        }
                    },
                }
            },
        },
        _ => Err(Error::Overflow),
    }
}

/// An if statement.
pub open spec fn gen_if(env: GenView, g: Gen, stmt: Stmt) -> Result<Gen, Error>
    decreases stmt, 3int,
{
    gen_if_rule(env, g, stmt)
}

pub open spec fn gen_if_rule(env: GenView, g: Gen, stmt: Stmt) -> Result<Gen, Error>
    decreases stmt, 2int,
{
    match stmt.kind {
        StmtKind::If { cond, then_branch, else_branch } => match take_label(g) {
            Err(e) => Err(e),
            Ok((g, label)) => match gen_expr(env, g, cond) {
                Err(e) => Err(e),
                Ok(g) => {
                    let g = compare_zero(env, g, node_ty(cond));
                    match jump_if_zero(env, g, node_ty(cond), ".L.else.", label) {
                        Err(e) => Err(e),
                        Ok(g) => match gen_stmt(env, g, *then_branch) {
                            Err(e) => Err(e),
                            Ok(g) => {
                                let g = nl(putd(puts(g, "  jmp .L.end."), label as int));
                                {
                                    let g = nl(puts(putd(puts(g, ".L.else."), label as int), ":"));
                                    match gen_opt_stmt(env, g, else_branch) {
                                        Err(e) => Err(e),
                                        Ok(g) => {
                                            let g = nl(puts(putd(puts(g, ".L.end."), label as int), ":"));
                                            Ok(g)
                                        },
                                    }
                                }
                            },
                        },
                    }
                },
            },
        },
        _ => Err(Error::Overflow),
    }
}

/// The bits of a case value, read as a signed integer.
pub open spec fn case_bits(value: ConstValue) -> int {
    as_signed(value.spec_bits())
}

/// The jumps to the cases of a switch.
pub open spec fn gen_cases(g: Gen, cases: CaseList, acc: &str) -> Gen
    decreases cases,
{
    match cases {
        CaseList::Nil => g,
        CaseList::Cons(case, tail) => gen_cases(
            nl(putd(puts(nl(puts(puts(putd(puts(g, "  cmp $"), case_bits(case.value) as int), ", "), acc)), "  je .L.."), case.label as int)),
            *tail,
            acc,
        ),
    }
}

/// The jump of a switch to its default label, if it has one.
pub open spec fn gen_default(g: Gen, default: Option<usize>) -> Gen {
    match default {
        None => g,
        Some(label) => nl(putd(puts(g, "  jmp .L.."), label as int)),
    }
}

/// A switch statement.
pub open spec fn gen_switch(env: GenView, g: Gen, stmt: Stmt) -> Result<Gen, Error>
    decreases stmt, 3int,
{
    gen_switch_rule(env, g, stmt)
}

pub open spec fn gen_switch_rule(env: GenView, g: Gen, stmt: Stmt) -> Result<Gen, Error>
    decreases stmt, 2int,
{
    match stmt.kind {
        StmtKind::Switch { cond, body, cases, default, brk_label } => match gen_expr(env, g, cond) {
            Err(e) => Err(e),
            Ok(g) => {
                let g = gen_cases(g, cases, acc_reg(promoted_width(env, node_ty(cond))));
                {
                    let g = gen_default(g, default);
                    {
                        let g = nl(putd(puts(g, "  jmp .L.."), brk_label as int));
                        match gen_stmt(env, g, *body) {
                            Err(e) => Err(e),
                            Ok(g) => {
                                let g = nl(puts(putd(puts(g, ".L.."), brk_label as int), ":"));
                                Ok(g)
                            },
                        }
                    }
                }
            },
        },
        _ => Err(Error::Overflow),
    }
}

/// The alignment of a variable, which for large arrays is at least 16.
pub open spec fn variable_align(types: Types, align: Option<u64>, ty: Type) -> u64 {
    let natural = crate::types::eff_align_of(types, align, ty);
    if array_of(types, ty) is Some && size_of(types, ty) >= 16 && natural < 16 {
        16
    } else {
        natural
    }
}

/// The locals with the parameters from `k` on that are passed by stack placed
/// above the base pointer, from `top` on.
pub open spec fn place_params(
    types: Types,
    locals: Seq<LocalVar>,
    params: Seq<usize>,
    k: int,
    top: int,
    rindex: ArgRegIndex,
) -> Result<Seq<LocalVar>, Error>
    decreases params.len() - k,
{
    if k >= params.len() {
        Ok(locals)
    } else if params[k] >= locals.len() {
        Err(Error::Overflow)
    } else {
        let local = locals[params[k] as int];
        let (regs, rindex) = arg_regs(types, local.ty, rindex);
        if regs != ArgRegs::Stack {
            place_params(types, locals, params, k + 1, top, rindex)
        } else {
            let start = align_up(top, 8);
            if start + size_of(types, local.ty) > i64::MAX {
                Err(Error::Overflow)
            } else {
                place_params(
                    types,
                    locals.update(params[k] as int, LocalVar { offset: start as i64, ..local }),
                    params,
                    k + 1,
                    start + size_of(types, local.ty),
                    rindex,
                )
            }
        }
    }
}

/// The first `n` locals that have no place yet placed below the base pointer,
/// the last one first, below the `bottom` bytes that are taken already; with
/// the bytes that are taken then.
pub open spec fn place_locals(types: Types, locals: Seq<LocalVar>, n: nat, bottom: int) -> Result<
    (Seq<LocalVar>, int),
    Error,
>
    decreases n,
{
    if n == 0 {
        Ok((locals, bottom))
    } else if n > locals.len() {
        Err(Error::Overflow)
    } else {
        let local = locals[n - 1];
        if local.offset != 0 {
            place_locals(types, locals, (n - 1) as nat, bottom)
        } else {
            let align = variable_align(types, local.align, local.ty);
            if align == 0 {
                Err(Error::Overflow)
            } else {
                let end = align_up(bottom + size_of(types, local.ty), align as int);
                if end > i64::MAX {
                    Err(Error::Overflow)
                } else {
                    place_locals(
                        types,
                        locals.update(n - 1, LocalVar { offset: (-end) as i64, ..local }),
                        (n - 1) as nat,
                        end,
                    )
                }
            }
        }
    }
}

/// Locals placed below the base pointer lie one below the other, each aligned,
/// within the bytes that are taken; the others stay where they are.
pub proof fn placed_locals_do_not_overlap(
    types: Types,
    locals: Seq<LocalVar>,
    n: nat,
    bottom: int,
    i: int,
    j: int,
)
    requires
        place_locals(types, locals, n, bottom) is Ok,
        0 <= i < j < n,
        0 <= bottom,
    ensures
        ({
            let (placed, taken) = place_locals(types, locals, n, bottom)->Ok_0;
            &&& placed.len() == locals.len()
            &&& placed[i].ty == locals[i].ty
            &&& locals[j].offset != 0 ==> placed[j] == locals[j]
            &&& locals[j].offset == 0 ==> {
                &&& -taken <= placed[j].offset
                &&& placed[j].offset + size_of(types, locals[j].ty) <= -bottom
                &&& placed[j].offset as int % variable_align(types, locals[j].align, locals[j].ty) as int
                    == 0
            }
            &&& locals[i].offset == 0 && locals[j].offset == 0 ==> placed[i].offset + size_of(
                types,
                locals[i].ty,
            ) <= placed[j].offset
        }),
{
    place_locals_bounds(types, locals, n, bottom);
}

proof fn place_locals_bounds(types: Types, locals: Seq<LocalVar>, n: nat, bottom: int)
    requires
        place_locals(types, locals, n, bottom) is Ok,
        0 <= bottom,
    ensures
        ({
            let (placed, taken) = place_locals(types, locals, n, bottom)->Ok_0;
            &&& bottom <= taken
            &&& n <= locals.len()
            &&& placed.len() == locals.len()
            &&& forall|i: int|
                0 <= i < locals.len() ==> (#[trigger] placed[i]).ty == locals[i].ty
                    && placed[i].align == locals[i].align
            &&& forall|i: int|
                0 <= i < locals.len() && (n <= i || locals[i].offset != 0) ==> #[trigger] placed[i]
                    == locals[i]
            &&& forall|i: int|
                0 <= i < n && locals[i].offset == 0 ==> {
                    &&& -taken <= (#[trigger] placed[i]).offset
                    &&& placed[i].offset + size_of(types, locals[i].ty) <= -bottom
                    &&& placed[i].offset as int % variable_align(
                        types,
                        locals[i].align,
                        locals[i].ty,
                    ) as int == 0
                }
            &&& forall|i: int, j: int|
                0 <= i < j < n && locals[i].offset == 0 && locals[j].offset == 0 ==> (
                #[trigger] placed[i]).offset + size_of(types, locals[i].ty) <= (
                #[trigger] placed[j]).offset
        }),
    decreases n,
{
    if n > 0 {
        let local = locals[n - 1];
        if local.offset != 0 {
            place_locals_bounds(types, locals, (n - 1) as nat, bottom);
        } else {
            let align = variable_align(types, local.align, local.ty) as int;
            let end = align_up(bottom + size_of(types, local.ty), align);
            crate::utils::align_up_is_least_multiple(bottom + size_of(types, local.ty), align);
            vstd::arithmetic::div_mod::lemma_fundamental_div_mod(end, align);
            let q = end / align;
            assert(-end == align * (-q)) by (nonlinear_arith)
                requires
                    end == align * q,
            ;
            vstd::arithmetic::div_mod::lemma_fundamental_div_mod_converse(-end, align, -q, 0);
            let moved = LocalVar { offset: (-end) as i64, ..local };
            let next = locals.update(n - 1, moved);
            place_locals_bounds(types, next, (n - 1) as nat, end);
        }
    }
}

/// The locals with their frame offsets, and the size of the stack frame.
#[verifier::opaque]
pub open spec fn frame(types: Types, locals: Seq<LocalVar>, params: Seq<usize>) -> Result<
    (Seq<LocalVar>, int),
    Error,
> {
    match place_params(types, locals, params, 0, 16, no_regs()) {
        Err(e) => Err(e),
        Ok(locals) => match place_locals(types, locals, locals.len(), 0) {
            Err(e) => Err(e),
            Ok((locals, bottom)) => Ok((locals, align_up(bottom, 16))),
        },
    }
}

/// The bytes `off..end` below the base pointer stored from a register.
pub open spec fn spill_bytes(g: Gen, off: int, end: int, index: usize) -> Gen
    decreases end - off,
{
    if off >= end {
        g
    } else {
        spill_bytes(
            nl(puts(puts(nl(puts(putd(puts(puts(puts(g, "  mov "), gp_arg_8(index)), ", "), off as int), "(%rbp)")), "  shr $8, "), gp_arg_64(index))),
            off + 1,
            end,
            index,
        )
    }
}

/// An incoming argument register stored to its stack slot.
#[verifier::opaque]
pub open spec fn store_arg(
    g: Gen,
    is_fp: bool,
    rindex: ArgRegIndex,
    offset: int,
    size: u64,
) -> Result<(Gen, ArgRegIndex), Error> {
    if offset + size > i64::MAX || offset < i64::MIN {
        Err(Error::Overflow)
    } else if is_fp {
        if (size == 4 || size == 8) && rindex.fp < usize::MAX {
            Ok(
                (
                    nl(puts(putd(puts(putd(puts(puts(puts(g, "  movs"), fp_sz_from_size(size)), " %xmm"), rindex.fp as int), ", "), offset as int), "(%rbp)")),
                    ArgRegIndex { fp: (rindex.fp + 1) as usize, ..rindex },
                ),
            )
        } else {
            Err(Error::Overflow)
        }
    } else if rindex.gp >= MAX_GP_ARG_REGS {
        Err(Error::Overflow)
    } else {
        let g1 = match width_of(size) {
            Some(width) => nl(puts(putd(puts(puts(puts(g, "  mov "), gp_arg(width, rindex.gp)), ", "), offset as int), "(%rbp)")),
            None => spill_bytes(g, offset, offset + size, rindex.gp),
        };
        Ok((g1, ArgRegIndex { gp: (rindex.gp + 1) as usize, ..rindex }))
    }
}

/// A parameter stored from the registers it is passed in, if it is.
#[verifier::opaque]
pub open spec fn store_param(env: GenView, g: Gen, local: LocalVar, rindex: ArgRegIndex) -> Result<
    (Gen, ArgRegIndex),
    Error,
> {
    let size = size_of(env.types, local.ty);
    if local.offset > 0 {
        Ok((g, rindex))
    } else if !is_sou_ty(env.types, local.ty) {
        store_arg(g, ty_is_flonum(local.ty), rindex, local.offset as int, size)
    } else {
        let first = if size < 8 {
            size
        } else {
            8
        };
        match store_arg(
            g,
            chunk_in_fp(env.types, local.ty, 0, 8),
            rindex,
            local.offset as int,
            first,
        ) {
            Err(e) => Err(e),
            Ok((g, rindex)) => if size > 8 {
                store_arg(
                    g,
                    chunk_in_fp(env.types, local.ty, 8, 16),
                    rindex,
                    local.offset + 8,
                    (size - 8) as u64,
                )
            } else {
                Ok((g, rindex))
            },
        }
    }
}

/// The parameters from `k` on stored from the registers they are passed in.
pub open spec fn store_params(
    env: GenView,
    g: Gen,
    params: Seq<usize>,
    k: int,
    rindex: ArgRegIndex,
) -> Result<Gen, Error>
    decreases params.len() - k,
{
    if k >= params.len() {
        Ok(g)
    } else if params[k] >= env.function.locals.len() {
        Err(Error::Overflow)
    } else {
        match store_param(env, g, env.function.locals[params[k] as int], rindex) {
            Err(e) => Err(e),
            Ok((g, rindex)) => store_params(env, g, params, k + 1, rindex),
        }
    }
}

/// The number of floating-point parameters among the first `k`.
pub open spec fn fp_params(env: GenView, params: Seq<usize>, k: nat) -> int
    decreases k,
{
    if k == 0 {
        0
    } else {
        fp_params(env, params, (k - 1) as nat) + (if ty_is_flonum(
            local_type(env, params[k - 1]),
        ) {
            1int
        } else {
            0
        })
    }
}

/// The area that receives the variable arguments of a function filled.
#[verifier::opaque]
pub open spec fn fill_va_area(env: GenView, g: Gen, params: Seq<usize>, id: usize) -> Result<
    Gen,
    Error,
> {
    match local_offset(env, id) {
        Err(e) => Err(e),
        Ok(offset) => if offset > i64::MAX - 200 || params.len() > 0xffff_ffff {
            Err(Error::Overflow)
        } else {
            let fp = fp_params(env, params, params.len());
            let gp = params.len() - fp;
            let g1 = nl(puts(putd(puts(putd(puts(g, "  movl $"), (gp * 8) as int), ", "), offset as int), "(%rbp)"));
            let g2 = nl(puts(putd(puts(putd(puts(g1, "  movl $"), (fp * 8 + 48) as int), ", "), (offset + 4) as int), "(%rbp)"));
            let g3 = nl(puts(putd(puts(g2, "  movq %rbp, "), (offset + 8) as int), "(%rbp)"));
            let g4 = nl(puts(putd(puts(g3, "  addq $16, "), (offset + 8) as int), "(%rbp)"));
            let g5 = nl(puts(putd(puts(g4, "  movq %rbp, "), (offset + 16) as int), "(%rbp)"));
            let g6 = nl(puts(putd(puts(putd(puts(g5, "  addq $"), (offset + 24) as int), ", "), (offset + 16) as int), "(%rbp)"));
            let g7 = nl(puts(putd(puts(g6, "  movq %rdi, "), (offset + 24) as int), "(%rbp)"));
            let g8 = nl(puts(putd(puts(g7, "  movq %rsi, "), (offset + 32) as int), "(%rbp)"));
            let g9 = nl(puts(putd(puts(g8, "  movq %rdx, "), (offset + 40) as int), "(%rbp)"));
            let g10 = nl(puts(putd(puts(g9, "  movq %rcx, "), (offset + 48) as int), "(%rbp)"));
            let g11 = nl(puts(putd(puts(g10, "  movq %r8, "), (offset + 56) as int), "(%rbp)"));
            let g12 = nl(puts(putd(puts(g11, "  movq %r9, "), (offset + 64) as int), "(%rbp)"));
            let g13 = nl(puts(putd(puts(g12, "  movsd %xmm0, "), (offset + 72) as int), "(%rbp)"));
            let g14 = nl(puts(putd(puts(g13, "  movsd %xmm1, "), (offset + 80) as int), "(%rbp)"));
            let g15 = nl(puts(putd(puts(g14, "  movsd %xmm2, "), (offset + 88) as int), "(%rbp)"));
            let g16 = nl(puts(putd(puts(g15, "  movsd %xmm3, "), (offset + 96) as int), "(%rbp)"));
            let g17 = nl(puts(putd(puts(g16, "  movsd %xmm4, "), (offset + 104) as int), "(%rbp)"));
            let g18 = nl(puts(putd(puts(g17, "  movsd %xmm5, "), (offset + 112) as int), "(%rbp)"));
            let g19 = nl(puts(putd(puts(g18, "  movsd %xmm6, "), (offset + 120) as int), "(%rbp)"));
            let g20 = nl(puts(putd(puts(g19, "  movsd %xmm7, "), (offset + 128) as int), "(%rbp)"));
            Ok(g20)
        },
    }
}

/// The start of a function.
#[verifier::opaque]
pub open spec fn prologue(env: GenView, g: Gen, name: Symbol, is_static: bool, stack_size: int) -> Gen {
    let g = if is_static {
        nl(put_name(puts(g, "  .local "), env.names, Name::Ident(name)))
    } else {
        nl(put_name(puts(g, "  .globl "), env.names, Name::Ident(name)))
    };
    nl(puts(putd(puts(nl(puts(nl(puts(nl(puts(put_name(nl(puts(g, "  .text")), env.names, Name::Ident(name)), ":")), "  push %rbp")), "  mov %rsp, %rbp")), "  sub $"), stack_size as int), ", %rsp"))
}

/// The end of a function; `main` returns 0 there.
#[verifier::opaque]
pub open spec fn epilogue(env: GenView, g: Gen, name: Symbol) -> Gen {
    let g = if symbol_text(env.names, name) == vstd::utf8::encode_utf8("main"@) {
        nl(puts(g, "  mov $0, %rax"))
    } else {
        g
    };
    nl(puts(nl(puts(nl(puts(nl(puts(put_name(puts(g, ".L.return."), env.names, Name::Ident(name)), ":")), "  mov %rbp, %rsp")), "  pop %rbp")), "  ret"))
}

/// What the text of a function depends on.
pub open spec fn function_env(env: GenView, f: FunctionView, locals: Seq<LocalVar>) -> GenView {
    GenView {
        function: FunctionStateView { name: f.name, locals, ret_buf_local: f.ret_buf_local },
        ..env
    }
}

/// The variable arguments of a function saved, if it takes any.
pub open spec fn save_va_area(env: GenView, g: Gen, f: FunctionView) -> Result<Gen, Error> {
    match f.va_area_local {
        None => Ok(g),
        Some(id) => fill_va_area(env, g, f.param_locals, id),
    }
}

/// A function, if it is defined.
#[verifier::opaque]
pub open spec fn gen_function(env: GenView, g: Gen, f: FunctionView) -> Result<Gen, Error> {
    match f.body {
        None => Ok(g),
        Some(body) => match frame(env.types, f.locals, f.param_locals) {
            Err(e) => Err(e),
            Ok((locals, stack_size)) => {
                let env = function_env(env, f, locals);
                let g = prologue(env, Gen { depth: 0, ..g }, f.name, f.is_static, stack_size);
                match save_va_area(env, g, f) {
                    Err(e) => Err(e),
                    Ok(g) => match store_params(env, g, f.param_locals, 0, no_regs()) {
                        Err(e) => Err(e),
                        Ok(g) => match gen_stmt(env, g, body) {
                            Err(e) => Err(e),
                            Ok(g) => if g.depth != 0 {
                                Err(Error::Overflow)
                            } else {
                                Ok(epilogue(env, g, f.name))
                            },
                        },
                    },
                }
            },
        },
    }
}

/// The functions from `k` on.
pub open spec fn gen_functions(env: GenView, g: Gen, functions: Seq<FunctionView>, k: int) -> Result<
    Gen,
    Error,
>
    decreases functions.len() - k,
{
    if k >= functions.len() {
        Ok(g)
    } else {
        match gen_function(env, g, functions[k]) {
            Err(e) => Err(e),
            Ok(g) => gen_functions(env, g, functions, k + 1),
        }
    }
}

/// The bytes `pos..end` of static data.
pub open spec fn gen_bytes(g: Gen, bytes: Seq<u8>, pos: int, end: int) -> Result<Gen, Error>
    decreases end - pos,
{
    if pos >= end {
        Ok(g)
    } else if pos < 0 || pos >= bytes.len() {
        Err(Error::Overflow)
    } else {
        gen_bytes(nl(putd(puts(g, "  .byte "), bytes[pos] as int)), bytes, pos + 1, end)
    }
}

/// A relocation.
#[verifier::opaque]
pub open spec fn gen_reloc(env: GenView, g: Gen, reloc: Relocation) -> Gen {
    if reloc.addend == 0 {
        nl(put_name(puts(g, "  .quad "), env.names, reloc.label))
    } else if reloc.addend > 0 {
        nl(putd(puts(put_name(puts(g, "  .quad "), env.names, reloc.label), "+"), reloc.addend as int))
    } else {
        nl(putd(put_name(puts(g, "  .quad "), env.names, reloc.label), reloc.addend as int))
    }
}

/// Static data from relocation `k` on, where `pos` bytes are out already.
pub open spec fn gen_data(
    env: GenView,
    g: Gen,
    bytes: Seq<u8>,
    relocations: Seq<Relocation>,
    k: int,
    pos: int,
) -> Result<Gen, Error>
    decreases relocations.len() - k,
{
    if k >= relocations.len() {
        gen_bytes(g, bytes, pos, bytes.len() as int)
    } else {
        match gen_bytes(g, bytes, pos, relocations[k].offset as int) {
            Err(e) => Err(e),
            Ok(g) => {
                let at = if pos < relocations[k].offset {
                    relocations[k].offset as int
                } else {
                    pos
                };
                if at + 8 > usize::MAX {
                    Err(Error::Overflow)
                } else {
                    gen_data(env, gen_reloc(env, g, relocations[k]), bytes, relocations, k + 1, at + 8)
                }
            },
        }
    }
}

/// The name, section, and alignment of a global variable.
#[verifier::opaque]
pub open spec fn global_header(env: GenView, g: Gen, global: GlobalView, section: &str) -> Gen {
    let g = if global.is_static {
        nl(put_name(puts(g, "  .local "), env.names, global.name))
    } else {
        nl(put_name(puts(g, "  .globl "), env.names, global.name))
    };
    let align = variable_align(env.types, global.align, global.ty);
    nl(puts(put_name(nl(putd(puts(nl(puts(g, section)), "  .align "), align as int)), env.names, global.name), ":"))
}

/// A global variable, if it has storage.
#[verifier::opaque]
pub open spec fn gen_global(env: GenView, g: Gen, global: GlobalView) -> Result<Gen, Error> {
    match global.storage {
        StorageView::Decl => Ok(g),
        StorageView::Zero => {
            let g = global_header(env, g, global, "  .bss");
            Ok(nl(putd(puts(g, "  .zero "), size_of(env.types, global.ty) as int)))
        },
        StorageView::Data { bytes, relocations } => gen_data(
            env,
            global_header(env, g, global, "  .data"),
            bytes,
            relocations,
            0,
            0,
        ),
    }
}

/// The global variables from `k` on.
pub open spec fn gen_globals(env: GenView, g: Gen, k: int) -> Result<Gen, Error>
    decreases env.globals.len() - k,
{
    if k >= env.globals.len() {
        Ok(g)
    } else {
        match gen_global(env, g, env.globals[k]) {
            Err(e) => Err(e),
            Ok(g) => gen_globals(env, g, k + 1),
        }
    }
}

/// The directives that number the sources, from source `k` on.
pub open spec fn gen_files(g: Gen, sources: Seq<SourceView>, k: int) -> Gen
    decreases sources.len() - k,
{
    if k >= sources.len() {
        g
    } else {
        gen_files(
            nl(puts(putb(puts(putd(puts(g, "  .file "), (k + 1) as int), " \""), vstd::utf8::encode_utf8(sources[k].name)), "\"")),
            sources,
            k + 1,
        )
    }
}

/// The functions of a program as calls see them.
pub open spec fn function_data(functions: Seq<FunctionView>) -> Seq<FunctionData> {
    Seq::new(
        functions.len(),
        |k: int| FunctionData { name: functions[k].name, is_defined: functions[k].body is Some },
    )
}

/// What the text of a program depends on.
pub open spec fn program_env(
    sources: Seq<SourceView>,
    names: Seq<Seq<u8>>,
    floats: Seq<FloatAnswer>,
    program: ProgramView,
) -> GenView {
    GenView {
        types: program.types,
        functions: function_data(program.functions),
        globals: program.globals,
        names,
        sources,
        floats,
        function: FunctionStateView {
            name: Symbol(0),
            locals: Seq::empty(),
            ret_buf_local: None,
        },
    }
}

/// The text of a program.
pub open spec fn generated(
    sources: Seq<SourceView>,
    names: Seq<Seq<u8>>,
    floats: Seq<FloatAnswer>,
    program: ProgramView,
) -> Result<Gen, Error> {
    let env = program_env(sources, names, floats, program);
    let g = Gen { out: Seq::empty(), next_label: 1, last_loc: None, depth: 0 };
    match gen_globals(env, gen_files(g, sources, 0), 0) {
        Err(e) => Err(e),
        Ok(g) => gen_functions(env, g, program.functions, 0),
    }
}

} // verus!
