//! Generate x86-64 assembly from an AST.

use vstd::prelude::*;
use crate::ast::{
    global_views, node_ty, BinaryOp, CaseList, EntityRef, Function, FunctionView, GlobalInitData,
    GlobalStorage, GlobalVar, LocalVar, Name, Node, NodeKind, NodeList, Program, Relocation, Stmt,
    StmtKind, StmtList,
};
use crate::codegen::text::{
    acc_reg, align_stack, arg_regs, args_regs, cast_type_id, compare_zero, copy_bytes, decimal,
    entity_addr, epilogue, fill_va_area, finish_call, first_arg_index, float_binary, float_to_int,
    fp_params, fp_sz, fp_sz_from_size, frame, function_data, function_env, gather_bytes, gen_addr,
    gen_addr_block, gen_addr_block_rule, gen_addr_rule, gen_assign, gen_assign_rule, gen_binary,
    gen_binary_rule, gen_bytes, gen_call, gen_call_rule, gen_cases, gen_cast, gen_data, gen_do,
    gen_do_rule, gen_expr, gen_expr_rule, gen_files, gen_flonum, gen_for, gen_for_rule,
    gen_function, gen_functions, gen_global, gen_globals, gen_if, gen_if_rule, gen_loc, gen_logical,
    gen_logical_rule, gen_loop_cond, gen_loop_cond_rule, gen_opt, gen_opt_rule, gen_opt_stmt,
    gen_opt_stmt_rule, gen_reloc, gen_return, gen_return_rule, gen_stmt, gen_stmt_rule, gen_stmts,
    gen_stmts_rule, gen_switch, gen_switch_rule, generated, global_header, gp_arg, gp_arg_16,
    gp_arg_32, gp_arg_64, gp_arg_8, gp_ret_64, gp_ret_8, grown, hex_digits, int_binary, int_cast,
    int_compare, int_divide, int_to_float, jump_if_nonzero, jump_if_zero, load, load_ret_chunk,
    local_offset, local_type, low_bits, memzero_local, negate, nl, no_regs, number_cast, outcome,
    peel_bytes, place_locals, place_params, pop, pop_args, pop_reg, popf, program_env, prologue,
    promoted_width, push, push_args, push_args_rule, push_ret_buf, push_struct_or_union, push_value,
    pushf, put_name, putb, putd, puth, puts, rcx_reg, rdi_reg, rdx_reg, read_bit_field,
    return_aggregate, set_is_nonzero, set_is_zero, shrunk, signed_div_extend_mnemonic,
    signed_load_dest_reg, signed_load_mnemonic, spill_bytes, stack_slots, store, store_arg,
    store_param, store_params, store_ret_chunk, store_returned, symbol_text, take_label,
    unsigned_load_mnemonic, variable_align, width_of, write_bit_field, ArgRegIndex, ArgRegs,
    CastTypeId, FunctionData, FunctionStateView, Gen, GenView, ScalarWidth,
};
use crate::constexpr::{FloatQuery, FloatTable};
use crate::error::{Error, Message};
use crate::names::{name_views, same_bytes};
use crate::source::{SourceMap, SourceSpan};
use crate::types::{is_sou_ty, size_of, ArithType, Member, Symbol, Type, TypeStore};
use crate::utils::{checked_align_up_to, push_digits, MAX_FP_ARG_REGS, MAX_GP_ARG_REGS};

pub mod balance;
pub mod convention;
pub mod dispatch;
pub mod fields;
pub mod flow;
pub mod handover;
pub mod machine;
pub mod meaning;
pub mod operands;
pub mod scalars;
pub mod text;

verus! {

/// What the generated text depends on besides the code itself.
pub struct GenInfo<'a> {
    pub source_map: &'a SourceMap,
    /// The spellings of symbols.
    pub names: &'a Vec<Vec<u8>>,
    pub types: TypeStore,
    pub floats: &'a FloatTable,
    pub functions: Vec<FunctionData>,
    pub globals: Vec<GlobalVar>,
    pub function: FunctionState,
}

/// A state snapshot when generating a function.
pub struct FunctionState {
    pub name: Symbol,
    pub locals: Vec<LocalVar>,
    pub ret_buf_local: Option<usize>,
}

impl<'a> GenInfo<'a> {
    #[verifier::opaque]
    pub open spec fn view(&self) -> GenView {
        GenView {
            types: self.types@,
            functions: self.functions@,
            globals: global_views(self.globals@),
            names: name_views(self.names@),
            sources: self.source_map@,
            floats: self.floats@,
            function: FunctionStateView {
                name: self.function.name,
                locals: self.function.locals@,
                ret_buf_local: self.function.ret_buf_local,
            },
        }
    }

    pub open spec fn wf(&self) -> bool {
        self.source_map.wf()
    }

    fn size(&self, ty: Type) -> (r: u64)
        ensures
            r == size_of(self@.types, ty),
    {
        proof {
            reveal(GenInfo::view);
        }
        self.types.size(ty)
    }

    fn is_struct_or_union(&self, ty: Type) -> (r: bool)
        ensures
            r == is_sou_ty(self@.types, ty),
    {
        proof {
            reveal(GenInfo::view);
        }
        self.types.is_struct_or_union(ty)
    }

    fn is_array(&self, ty: Type) -> (r: bool)
        ensures
            r == crate::types::array_of(self@.types, ty) is Some,
    {
        proof {
            reveal(GenInfo::view);
        }
        self.types.as_array(ty).is_some()
    }

    fn is_func(&self, ty: Type) -> (r: bool)
        ensures
            r == crate::types::is_func_ty(self@.types, ty),
    {
        proof {
            reveal(GenInfo::view);
        }
        self.types.is_func(ty)
    }

    fn is_ptr(&self, ty: Type) -> (r: bool)
        ensures
            r == crate::types::is_ptr_ty(self@.types, ty),
    {
        proof {
            reveal(GenInfo::view);
        }
        self.types.is_ptr(ty)
    }

    fn has_base(&self, ty: Type) -> (r: bool)
        ensures
            r == crate::types::base_of(self@.types, ty) is Some,
    {
        proof {
            reveal(GenInfo::view);
        }
        self.types.base(ty).is_some()
    }

    fn is_fp_chunk(&self, ty: Type, lo: u64, hi: u64) -> (r: bool)
        ensures
            r == crate::types::chunk_in_fp(self@.types, ty, lo, hi),
    {
        proof {
            reveal(GenInfo::view);
        }
        self.types.is_fp_chunk(ty, lo, hi)
    }

    fn local_offset(&self, id: usize) -> (r: Result<i64, Error>)
        ensures
            r == local_offset(self@, id),
    {
        proof {
            reveal(GenInfo::view);
        }
        if id < self.function.locals.len() {
            Ok(self.function.locals[id].offset)
        } else {
            Err(Error::Overflow)
        }
    }

    fn local_type(&self, id: usize) -> (r: Type)
        ensures
            r == local_type(self@, id),
    {
        proof {
            reveal(GenInfo::view);
        }
        if id < self.function.locals.len() {
            self.function.locals[id].ty
        } else {
            Type::Dummy
        }
    }

    fn local(&self, id: usize) -> (r: Result<LocalVar, Error>)
        ensures
            r == (if id < self@.function.locals.len() {
                Ok::<LocalVar, Error>(self@.function.locals[id as int])
            } else {
                Err(Error::Overflow)
            }),
    {
        proof {
            reveal(GenInfo::view);
        }
        if id < self.function.locals.len() {
            Ok(self.function.locals[id])
        } else {
            Err(Error::Overflow)
        }
    }

    /// Count the floating-point parameters of the function.
    fn count_fp_params(&self, params: &Vec<usize>) -> (r: u64)
        requires
            params@.len() <= 0xffff_ffff,
        ensures
            r == fp_params(self@, params@, params@.len()),
            r <= params@.len(),
    {
        let mut n: u64 = 0;
        let mut k: usize = 0;
        while k < params.len()
            invariant
                k <= params.len() <= 0xffff_ffff,
                n == fp_params(self@, params@, k as nat),
                n <= k,
            decreases params.len() - k,
        {
            if self.local_type(params[k]).is_flonum() {
                n += 1;
            }
            k += 1;
        }
        n
    }

    /// Return whether a symbol is spelled "main".
    fn is_main(&self, symbol: Symbol) -> (r: bool)
        ensures
            r == (symbol_text(self@.names, symbol) == vstd::utf8::encode_utf8("main"@)),
    {
        proof {
            reveal(GenInfo::view);
        }
        let want: &[u8] = "main".as_bytes();
        if symbol.0 < self.names.len() {
            same_bytes(self.names[symbol.0].as_slice(), want)
        } else {
            let none: Vec<u8> = Vec::new();
            assert(none@ =~= Seq::<u8>::empty());
            same_bytes(none.as_slice(), want)
        }
    }

    fn global_name(&self, id: usize) -> (r: Result<Name, Error>)
        ensures
            r == (if id < self@.globals.len() {
                Ok::<Name, Error>(self@.globals[id as int].name)
            } else {
                Err(Error::Overflow)
            }),
    {
        proof {
            reveal(GenInfo::view);
        }
        if id < self.globals.len() {
            Ok(self.globals[id].name)
        } else {
            Err(Error::Overflow)
        }
    }

    fn function_data(&self, id: usize) -> (r: Result<FunctionData, Error>)
        ensures
            r == (if id < self@.functions.len() {
                Ok::<FunctionData, Error>(self@.functions[id as int])
            } else {
                Err(Error::Overflow)
            }),
    {
        proof {
            reveal(GenInfo::view);
        }
        if id < self.functions.len() {
            Ok(self.functions[id])
        } else {
            Err(Error::Overflow)
        }
    }

    /// Place the arguments of a call, and count the stack slots they take.
    fn place_args(
        &self,
        args: &NodeList,
        ret_buf: Option<usize>,
    ) -> (r: (Vec<ArgRegs>, Option<u64>))
        ensures
            r.0@ == args_regs(self@.types, *args, first_arg_index(ret_buf)),
            r.0@.len() == args.spec_len(),
            r.1 == (if stack_slots(self@.types, *args, r.0@, 0) <= u64::MAX {
                Some(stack_slots(self@.types, *args, r.0@, 0) as u64)
            } else {
                None
            }),
            stack_slots(self@.types, *args, r.0@, 0) >= 0,
    {
        proof {
            reveal(GenInfo::view);
            args_regs_len(self@.types, *args, first_arg_index(ret_buf));
        }
        let rindex = if ret_buf.is_some() {
            ArgRegIndex { fp: 0, gp: 1 }
        } else {
            ArgRegIndex { fp: 0, gp: 0 }
        };
        let places = args_regs_of(&self.types, args, rindex);
        let slots = count_stack_slots(&self.types, args, &places, 0);
        (places, slots)
    }

    fn ret_buf_local(&self) -> (r: Option<usize>)
        ensures
            r == self@.function.ret_buf_local,
    {
        proof {
            reveal(GenInfo::view);
        }
        self.function.ret_buf_local
    }

    fn function_name(&self) -> (r: Symbol)
        ensures
            r == self@.function.name,
    {
        proof {
            reveal(GenInfo::view);
        }
        self.function.name
    }
}

/// The text so far, and what is counted while it grows.
pub struct Emitter {
    pub out: Vec<u8>,
    pub next_label: usize,
    pub last_loc: Option<(usize, u32, u32)>,
    pub depth: usize,
}

impl Emitter {
    pub open spec fn view(&self) -> Gen {
        Gen {
            out: self.out@,
            next_label: self.next_label as int,
            last_loc: self.last_loc,
            depth: self.depth as int,
        }
    }

    fn putb(&mut self, bytes: &[u8])
        ensures
            final(self)@ == putb(old(self)@, bytes@),
    {
        proof {
            reveal(putb);
        }
        let mut i: usize = 0;
        assert(self.out@ + bytes@.take(0) =~= self.out@);
        while i < bytes.len()
            invariant
                i <= bytes.len(),
                self.out@ == old(self).out@ + bytes@.take(i as int),
                self.next_label == old(self).next_label,
                self.last_loc == old(self).last_loc,
                self.depth == old(self).depth,
            decreases bytes.len() - i,
        {
            self.out.push(bytes[i]);
            i += 1;
            assert(old(self).out@ + bytes@.take(i as int) =~= (old(self).out@ + bytes@.take(
                i - 1,
            )).push(bytes@[i - 1]));
        }
        assert(bytes@.take(bytes@.len() as int) =~= bytes@);
    }

    fn puts(&mut self, text: &str)
        ensures
            final(self)@ == puts(old(self)@, text),
    {
        self.putb(text.as_bytes());
    }

    fn nl(&mut self)
        ensures
            final(self)@ == nl(old(self)@),
    {
        self.puts("\n");
    }

    fn putd(&mut self, n: i128)
        requires
            n > i128::MIN,
        ensures
            final(self)@ == putd(old(self)@, n as int),
    {
        let mut text: Vec<u8> = Vec::new();
        if n < 0 {
            text.push(45);
            push_digits(&mut text, (0 - n) as u128);
            assert(text@ =~= decimal(n as int));
        } else {
            push_digits(&mut text, n as u128);
            assert(text@ =~= decimal(n as int));
        }
        self.putb(text.as_slice());
    }

    fn puth(&mut self, n: u64)
        ensures
            final(self)@ == puth(old(self)@, n as nat),
    {
        self.puts("0x");
        let mut text: Vec<u8> = Vec::new();
        push_hex(&mut text, n);
        assert(text@ =~= hex_digits(n as nat));
        self.putb(text.as_slice());
    }

    fn put_symbol(&mut self, env: &GenInfo, symbol: Symbol)
        ensures
            final(self)@ == putb(old(self)@, symbol_text(env@.names, symbol)),
    {
        proof {
            reveal(GenInfo::view);
        }
        if symbol.0 < env.names.len() {
            self.putb(env.names[symbol.0].as_slice());
        } else {
            let none: Vec<u8> = Vec::new();
            assert(none@ =~= Seq::<u8>::empty());
            self.putb(none.as_slice());
        }
    }

    fn put_name(&mut self, env: &GenInfo, name: Name)
        ensures
            final(self)@ == put_name(old(self)@, env@.names, name),
    {
        match name {
            Name::Ident(symbol) => self.put_symbol(env, symbol),
            Name::Unique(n) => {
                self.puts(".L..");
                self.putd(n as i128);
            },
        }
    }

    /// Allocate a fresh numeric suffix for local labels.
    fn take_label(&mut self) -> (r: Result<usize, Error>)
        ensures
            take_label(old(self)@) == (match r {
                Ok(label) => Ok::<(Gen, usize), Error>((final(self)@, label)),
                Err(e) => Err(e),
            }),
    {
        if self.next_label == usize::MAX {
            return Err(Error::Overflow);
        }
        let label: usize = self.next_label;
        self.next_label += 1;
        Ok(label)
    }

    fn grow(&mut self, slots: u64) -> (r: Result<(), Error>)
        ensures
            grown(old(self)@, slots as int) == outcome(r, final(self)@),
    {
        if slots > usize::MAX as u64 {
            return Err(Error::Overflow);
        }
        match self.depth.checked_add(slots as usize) {
            Some(depth) => {
                self.depth = depth;
                Ok(())
            },
            None => Err(Error::Overflow),
        }
    }

    fn shrink(&mut self, slots: u64) -> (r: Result<(), Error>)
        ensures
            shrunk(old(self)@, slots as int) == outcome(r, final(self)@),
    {
        if (self.depth as u64) < slots {
            return Err(Error::Overflow);
        }
        self.depth -= slots as usize;
        Ok(())
    }
}

fn push_hex(out: &mut Vec<u8>, n: u64)
    ensures
        final(out)@ == old(out)@ + hex_digits(n as nat),
    decreases n,
{
    if n >= 16 {
        push_hex(out, n / 16);
    }
    let d: u64 = n % 16;
    out.push(
        if d < 10 {
            (48 + d) as u8
        } else {
            (87 + d) as u8
        },
    );
    assert(out@ =~= old(out)@ + hex_digits(n as nat));
}

fn gp_arg_reg_8(index: usize) -> (r: &'static str)
    ensures
        r == gp_arg_8(index),
{
    match index {
        0 => "%dil",
        1 => "%sil",
        2 => "%dl",
        3 => "%cl",
        4 => "%r8b",
        _ => "%r9b",
    }
}

fn gp_arg_reg_16(index: usize) -> (r: &'static str)
    ensures
        r == gp_arg_16(index),
{
    match index {
        0 => "%di",
        1 => "%si",
        2 => "%dx",
        3 => "%cx",
        4 => "%r8w",
        _ => "%r9w",
    }
}

fn gp_arg_reg_32(index: usize) -> (r: &'static str)
    ensures
        r == gp_arg_32(index),
{
    match index {
        0 => "%edi",
        1 => "%esi",
        2 => "%edx",
        3 => "%ecx",
        4 => "%r8d",
        _ => "%r9d",
    }
}

fn gp_arg_reg_64(index: usize) -> (r: &'static str)
    ensures
        r == gp_arg_64(index),
{
    match index {
        0 => "%rdi",
        1 => "%rsi",
        2 => "%rdx",
        3 => "%rcx",
        4 => "%r8",
        _ => "%r9",
    }
}

fn gp_ret_reg_8(index: usize) -> (r: &'static str)
    ensures
        r == gp_ret_8(index),
{
    if index == 0 {
        "%al"
    } else {
        "%dl"
    }
}

fn gp_ret_reg_64(index: usize) -> (r: &'static str)
    ensures
        r == gp_ret_64(index),
{
    if index == 0 {
        "%rax"
    } else {
        "%rdx"
    }
}

impl ScalarWidth {
    /// Return the width of a scalar of the given size in bytes.
    pub fn from_size(size: u64) -> (r: Option<ScalarWidth>)
        ensures
            r == width_of(size),
    {
        match size {
            1 => Some(ScalarWidth::Byte),
            2 => Some(ScalarWidth::Word),
            4 => Some(ScalarWidth::Dword),
            8 => Some(ScalarWidth::Qword),
            _ => None,
        }
    }

    /// Return the register width used for binary integer operations.
    ///
    /// char, short, and int are computed in 32-bit registers. long and pointers
    /// are computed in 64-bit registers.
    pub fn from_promoted_binary_type(ty: Type, env: &GenInfo) -> (r: ScalarWidth)
        ensures
            r == promoted_width(env@, ty),
    {
        if env.has_base(ty) || env.size(ty) == 8 {
            ScalarWidth::Qword
        } else {
            ScalarWidth::Dword
        }
    }

    /// Return the general-purpose argument register for this width at `index`.
    pub fn gp_arg_reg(&self, index: usize) -> (r: &'static str)
        requires
            index < MAX_GP_ARG_REGS,
        ensures
            r == gp_arg(*self, index),
    {
        match self {
            ScalarWidth::Byte => gp_arg_reg_8(index),
            ScalarWidth::Word => gp_arg_reg_16(index),
            ScalarWidth::Dword => gp_arg_reg_32(index),
            ScalarWidth::Qword => gp_arg_reg_64(index),
        }
    }

    /// Return the accumulator register for this width.
    pub fn acc_reg(&self) -> (r: &'static str)
        ensures
            r == acc_reg(*self),
    {
        match self {
            ScalarWidth::Byte => "%al",
            ScalarWidth::Word => "%ax",
            ScalarWidth::Dword => "%eax",
            ScalarWidth::Qword => "%rax",
        }
    }

    /// Return the `%rdi`-family register for this width.
    pub fn rdi_reg(&self) -> (r: &'static str)
        ensures
            r == rdi_reg(*self),
    {
        match self {
            ScalarWidth::Byte => "%dil",
            ScalarWidth::Word => "%di",
            ScalarWidth::Dword => "%edi",
            ScalarWidth::Qword => "%rdi",
        }
    }

    /// Return the `%rdx`-family register for this width.
    pub fn rdx_reg(&self) -> (r: &'static str)
        ensures
            r == rdx_reg(*self),
    {
        match self {
            ScalarWidth::Byte => "%dl",
            ScalarWidth::Word => "%dx",
            ScalarWidth::Dword => "%edx",
            ScalarWidth::Qword => "%rdx",
        }
    }

    /// Return the `%rcx`-family register for this width.
    pub fn rcx_reg(&self) -> (r: &'static str)
        ensures
            r == rcx_reg(*self),
    {
        match self {
            ScalarWidth::Byte => "%cl",
            ScalarWidth::Word => "%cx",
            ScalarWidth::Dword => "%ecx",
            ScalarWidth::Qword => "%rcx",
        }
    }

    /// Return the mnemonic used to load a signed scalar for this width.
    pub fn signed_load_mnemonic(&self) -> (r: &'static str)
        ensures
            r == signed_load_mnemonic(*self),
    {
        match self {
            ScalarWidth::Byte => "movsbl",
            ScalarWidth::Word => "movswl",
            ScalarWidth::Dword => "movsxd",
            ScalarWidth::Qword => "mov",
        }
    }

    /// Return the mnemonic used to load an unsigned scalar for this width.
    pub fn unsigned_load_mnemonic(&self) -> (r: &'static str)
        ensures
            r == unsigned_load_mnemonic(*self),
    {
        match self {
            ScalarWidth::Byte => "movzbl",
            ScalarWidth::Word => "movzwl",
            ScalarWidth::Dword => "mov",
            ScalarWidth::Qword => "mov",
        }
    }

    /// Return the destination register used by a signed load for this width.
    pub fn signed_load_dest_reg(&self) -> (r: &'static str)
        ensures
            r == signed_load_dest_reg(*self),
    {
        match self {
            ScalarWidth::Byte => "%eax",
            ScalarWidth::Word => "%eax",
            ScalarWidth::Dword => "%rax",
            ScalarWidth::Qword => "%rax",
        }
    }

    /// Return the sign-extension mnemonic used before signed division for this width.
    pub fn signed_div_extend_mnemonic(&self) -> (r: &'static str)
        ensures
            r == signed_div_extend_mnemonic(*self),
    {
        match self {
            ScalarWidth::Byte => "cbw",
            ScalarWidth::Word => "cwd",
            ScalarWidth::Dword => "cdq",
            ScalarWidth::Qword => "cqo",
        }
    }
}

/// Return the mnemonic suffix for a floating-point type.
pub fn fp_mnemonic_sz(ty: Type) -> (r: &'static str)
    requires
        crate::types::ty_is_flonum(ty),
    ensures
        r == fp_sz(ty),
{
    match ty {
        Type::Arith(ArithType::Float) => "s",
        _ => "d",
    }
}

/// Return the mnemonic suffix for a floating-point chunk of the given size.
pub fn fp_mnemonic_sz_from_size(size: u64) -> (r: &'static str)
    requires
        size == 4 || size == 8,
    ensures
        r == fp_sz_from_size(size),
{
    if size == 4 {
        "s"
    } else {
        "d"
    }
}

impl Emitter {
    /// A `.loc` directive if the source location changed.
    fn gen_loc(&mut self, env: &GenInfo, span: SourceSpan)
        requires
            env.wf(),
        ensures
            gen_loc(env@, old(self)@, span) == final(self)@,
    {
        proof {
            reveal(gen_loc);
        }
        proof {
            reveal(GenInfo::view);
        }
        match env.source_map.file_line_col(span) {
            None => {},
            Some(loc) => {
                let known = match self.last_loc {
                    Some(last) => last.0 == loc.0 && last.1 == loc.1 && last.2 == loc.2,
                    None => false,
                };
                if known {
                    return;
                }
                self.last_loc = Some(loc);
                self.puts("  .loc ");
                self.putd(loc.0 as i128);
                self.puts(" ");
                self.putd(loc.1 as i128);
                self.puts(" ");
                self.putd(loc.2 as i128);
                self.nl();
            },
        }
    }

    /// `%rax` pushed onto the temporary expression stack.
    fn push(&mut self, env: &GenInfo) -> (r: Result<(), Error>)
        requires
            env.wf(),
        ensures
            push(env@, old(self)@) == outcome(r, final(self)@),
    {
        proof {
            reveal(push);
        }
        self.puts("  push %rax");
        self.nl();
        self.grow(1)
    }

    /// `%xmm0` pushed onto the temporary expression stack.
    fn pushf(&mut self, env: &GenInfo) -> (r: Result<(), Error>)
        requires
            env.wf(),
        ensures
            pushf(env@, old(self)@) == outcome(r, final(self)@),
    {
        proof {
            reveal(pushf);
        }
        self.puts("  sub $8, %rsp");
        self.nl();
        self.puts("  movsd %xmm0, (%rsp)");
        self.nl();
        self.grow(1)
    }

    /// The top of the temporary stack popped into a register.
    fn pop(&mut self, env: &GenInfo, register: &str) -> (r: Result<(), Error>)
        requires
            env.wf(),
        ensures
            pop(env@, old(self)@, register) == outcome(r, final(self)@),
    {
        proof {
            reveal(pop);
        }
        self.puts("  pop ");
        self.puts(register);
        self.nl();
        self.shrink(1)
    }

    /// The top of the temporary stack popped into an XMM register.
    fn popf(&mut self, env: &GenInfo, register: usize) -> (r: Result<(), Error>)
        requires
            env.wf(),
        ensures
            popf(env@, old(self)@, register) == outcome(r, final(self)@),
    {
        proof {
            reveal(popf);
        }
        self.puts("  movsd (%rsp), %xmm");
        self.putd(register as i128);
        self.nl();
        self.puts("  add $8, %rsp");
        self.nl();
        self.shrink(1)
    }

    /// Copy bytes from `%rax` to where a register points.
    fn copy_bytes(&mut self, size: u64, via: &str, to: &str)
        ensures
            copy_bytes(old(self)@, 0, size as int, via, to) == final(self)@,
    {
        let mut i: u64 = 0;
        while i < size
            invariant
                i <= size,
                copy_bytes(old(self)@, 0, size as int, via, to) == copy_bytes(
                    self@,
                    i as int,
                    size as int,
                    via,
                    to,
                ),
            decreases size - i,
        {
            self.puts("  mov ");
            self.putd(i as i128);
            self.puts("(%rax), ");
            self.puts(via);
            self.nl();
            self.puts("  mov ");
            self.puts(via);
            self.puts(", ");
            self.putd(i as i128);
            self.puts("(");
            self.puts(to);
            self.puts(")");
            self.nl();
            i += 1;
        }
    }

    /// The struct or union at `%rax` pushed onto the temporary stack.
    fn push_struct_or_union(&mut self, env: &GenInfo, ty: Type) -> (r: Result<(), Error>)
        requires
            env.wf(),
        ensures
            push_struct_or_union(env@, old(self)@, ty) == outcome(r, final(self)@),
    {
        proof {
            reveal(push_struct_or_union);
        }
        let size: u64 = env.size(ty);
        let Some(aligned) = checked_align_up_to(size, 8) else {
            return Err(Error::Overflow);
        };
        proof {
            crate::utils::align_up_is_least_multiple(size as int, 8);
        }
        self.puts("  sub $");
        self.putd(aligned as i128);
        self.puts(", %rsp");
        self.nl();
        self.grow(aligned / 8)?;
        self.copy_bytes(size, "%r10b", "%rsp");
        Ok(())
    }

}

/// Determine the register assignments for an argument.
///
/// The register indexes are moved past the registers that are taken.
pub fn arg_regs_of(types: &TypeStore, ty: Type, rindex: &mut ArgRegIndex) -> (r: ArgRegs)
    requires
        old(rindex).gp <= MAX_GP_ARG_REGS,
        old(rindex).fp <= MAX_FP_ARG_REGS,
    ensures
        (r, *final(rindex)) == arg_regs(types@, ty, *old(rindex)),
        final(rindex).gp <= MAX_GP_ARG_REGS,
        final(rindex).fp <= MAX_FP_ARG_REGS,
{
    let regs = if types.is_struct_or_union(ty) {
        let size: u64 = types.size(ty);
        if size > 16 {
            return ArgRegs::Stack;
        }
        if size > 8 {
            ArgRegs::Two(types.is_fp_chunk(ty, 0, 8), types.is_fp_chunk(ty, 8, 16))
        } else {
            ArgRegs::One(types.is_fp_chunk(ty, 0, 8))
        }
    } else {
        ArgRegs::One(ty.is_flonum())
    };
    let (gp_needed, fp_needed): (usize, usize) = match regs {
        ArgRegs::Stack => (0, 0),
        ArgRegs::One(a) => if a {
            (0, 1)
        } else {
            (1, 0)
        },
        ArgRegs::Two(a, b) => if a && b {
            (0, 2)
        } else if a || b {
            (1, 1)
        } else {
            (2, 0)
        },
    };
    if rindex.gp + gp_needed > MAX_GP_ARG_REGS || rindex.fp + fp_needed > MAX_FP_ARG_REGS {
        return ArgRegs::Stack;
    }
    rindex.gp += gp_needed;
    rindex.fp += fp_needed;
    regs
}

impl Emitter {
    /// Store a small-aggregate return chunk taken from return registers.
    ///
    /// `lo` is the byte offset of the 8-byte ABI chunk within `ty`.
    /// `dst` is the destination stack offset from `%rbp`.
    fn store_ret_chunk(
        &mut self,
        env: &GenInfo,
        ty: Type,
        lo: u64,
        dst: i64,
        rindex: &mut ArgRegIndex,
    ) -> (r: Result<(), Error>)
        ensures
            store_ret_chunk(env@, old(self)@, ty, lo, dst, *old(rindex)) == (match r {
                Ok(_) => Ok::<(Gen, ArgRegIndex), Error>((final(self)@, *final(rindex))),
                Err(e) => Err(e),
            }),
    {
        proof {
            reveal(store_ret_chunk);
        }
        let whole: u64 = env.size(ty);
        if whole < lo || lo > u64::MAX - 8 || dst > i64::MAX - 8 {
            return Err(Error::Overflow);
        }
        let size: u64 = if whole - lo < 8 {
            whole - lo
        } else {
            8
        };
        if env.is_fp_chunk(ty, lo, lo + 8) {
            if (size != 4 && size != 8) || rindex.fp == usize::MAX {
                return Err(Error::Overflow);
            }
            self.puts("  movs");
            self.puts(fp_mnemonic_sz_from_size(size));
            self.puts(" %xmm");
            self.putd(rindex.fp as i128);
            self.puts(", ");
            self.putd(dst as i128);
            self.puts("(%rbp)");
            self.nl();
            rindex.fp += 1;
            return Ok(());
        }
        if rindex.gp >= 2 {
            return Err(Error::Overflow);
        }
        // GP return chunks are packed little-endian in %rax then %rdx, so we
        // peel one byte at a time into the destination object
        let index: usize = rindex.gp;
        let mut i: u64 = 0;
        while i < size
            invariant
                i <= size <= 8,
                dst <= i64::MAX - 8,
                peel_bytes(old(self)@, 0, size as int, index, dst as int) == peel_bytes(
                    self@,
                    i as int,
                    size as int,
                    index,
                    dst as int,
                ),
            decreases size - i,
        {
            self.puts("  mov ");
            self.puts(gp_ret_reg_8(index));
            self.puts(", ");
            self.putd((dst + i as i64) as i128);
            self.puts("(%rbp)");
            self.nl();
            self.puts("  shr $8, ");
            self.puts(gp_ret_reg_64(index));
            self.nl();
            i += 1;
        }
        rindex.gp += 1;
        Ok(())
    }

    /// Load a small-aggregate return chunk into return registers.
    ///
    /// `lo` is the byte offset of the 8-byte ABI chunk within `ty`.
    fn load_ret_chunk(&mut self, env: &GenInfo, ty: Type, lo: u64, rindex: &mut ArgRegIndex) -> (r:
        Result<(), Error>)
        ensures
            load_ret_chunk(env@, old(self)@, ty, lo, *old(rindex)) == (match r {
                Ok(_) => Ok::<(Gen, ArgRegIndex), Error>((final(self)@, *final(rindex))),
                Err(e) => Err(e),
            }),
    {
        proof {
            reveal(load_ret_chunk);
        }
        let whole: u64 = env.size(ty);
        if whole < lo || lo > u64::MAX - 8 {
            return Err(Error::Overflow);
        }
        let size: u64 = if whole - lo < 8 {
            whole - lo
        } else {
            8
        };
        if env.is_fp_chunk(ty, lo, lo + 8) {
            if (size != 4 && size != 8) || rindex.fp == usize::MAX {
                return Err(Error::Overflow);
            }
            self.puts("  movs");
            self.puts(fp_mnemonic_sz_from_size(size));
            self.puts(" ");
            self.putd(lo as i128);
            self.puts("(%rdi), %xmm");
            self.putd(rindex.fp as i128);
            self.nl();
            rindex.fp += 1;
            return Ok(());
        }
        if rindex.gp >= 2 {
            return Err(Error::Overflow);
        }
        // Build the little-endian integer register value by shifting and or-ing
        // one byte at a time from the source object
        let index: usize = rindex.gp;
        self.puts("  mov $0, ");
        self.puts(gp_ret_reg_64(index));
        self.nl();
        let ghost first = self@;
        let mut i: u64 = size;
        while i > 0
            invariant
                i <= size <= 8,
                lo <= u64::MAX - 8,
                gather_bytes(first, size as int, index, lo as int) == gather_bytes(
                    self@,
                    i as int,
                    index,
                    lo as int,
                ),
            decreases i,
        {
            self.puts("  shl $8, ");
            self.puts(gp_ret_reg_64(index));
            self.nl();
            self.puts("  mov ");
            self.putd((lo + i - 1) as i128);
            self.puts("(%rdi), ");
            self.puts(gp_ret_reg_8(index));
            self.nl();
            i -= 1;
        }
        rindex.gp += 1;
        Ok(())
    }

    /// A scalar value loaded from where `%rax` points to. Arrays, functions, and aggregates stay addresses.
    fn load(&mut self, env: &GenInfo, ty: Type) -> (r: Result<(), Error>)
        requires
            env.wf(),
        ensures
            load(env@, old(self)@, ty) == outcome(r, final(self)@),
    {
        proof {
            reveal(load);
        }
        if env.is_array(ty) || env.is_func(ty) || env.is_struct_or_union(ty) {
            return Ok(());
        }
        if ty.is_flonum() {
            self.puts("  movs");
            self.puts(fp_mnemonic_sz(ty));
            self.puts(" (%rax), %xmm0");
            self.nl();
            return Ok(());
        }
        let Some(width) = ScalarWidth::from_size(env.size(ty)) else {
            return Err(Error::Overflow);
        };
        if ty.is_unsigned() || env.is_ptr(ty) {
            self.puts("  ");
            self.puts(width.unsigned_load_mnemonic());
            self.puts(" (%rax), ");
            self.puts(width.signed_load_dest_reg());
            self.nl();
        } else {
            self.puts("  ");
            self.puts(width.signed_load_mnemonic());
            self.puts(" (%rax), ");
            self.puts(width.signed_load_dest_reg());
            self.nl();
        }
        Ok(())
    }

    /// `%rax` stored into the address on top of the temporary stack.
    fn store(&mut self, env: &GenInfo, ty: Type) -> (r: Result<(), Error>)
        requires
            env.wf(),
        ensures
            store(env@, old(self)@, ty) == outcome(r, final(self)@),
    {
        proof {
            reveal(store);
        }
        self.pop(env, "%rdi")?;
        let size: u64 = env.size(ty);
        if env.is_struct_or_union(ty) {
            self.copy_bytes(size, "%r8b", "%rdi");
            return Ok(());
        }
        if ty.is_flonum() {
            self.puts("  movs");
            self.puts(fp_mnemonic_sz(ty));
            self.puts(" %xmm0, (%rdi)");
            self.nl();
            return Ok(());
        }
        let Some(width) = ScalarWidth::from_size(size) else {
            return Err(Error::Overflow);
        };
        self.puts("  mov ");
        self.puts(width.acc_reg());
        self.puts(", (%rdi)");
        self.nl();
        Ok(())
    }

    /// A scalar value compared against zero.
    fn compare_zero(&mut self, env: &GenInfo, ty: Type)
        requires
            env.wf(),
        ensures
            compare_zero(env@, old(self)@, ty) == final(self)@,
    {
        proof {
            reveal(compare_zero);
        }
        if ty.is_flonum() {
            self.puts("  xorp");
            self.puts(fp_mnemonic_sz(ty));
            self.puts(" %xmm1, %xmm1");
            self.nl();
            self.puts("  ucomis");
            self.puts(fp_mnemonic_sz(ty));
            self.puts(" %xmm1, %xmm0");
            self.nl();
            return;
        }
        if ty.is_integer() && env.size(ty) <= 4 {
            self.puts("  cmp $0, %eax");
            self.nl();
        } else {
            self.puts("  cmp $0, %rax");
            self.nl();
        }
    }

    /// `%al` set to 1 if the previously compared scalar is zero.
    fn set_is_zero(&mut self, env: &GenInfo, ty: Type)
        requires
            env.wf(),
        ensures
            set_is_zero(env@, old(self)@, ty) == final(self)@,
    {
        proof {
            reveal(set_is_zero);
        }
        self.puts("  sete %al");
        self.nl();
        if ty.is_flonum() {
            self.puts("  setnp %dl");
            self.nl();
            self.puts("  and %dl, %al");
            self.nl();
        }
    }

    /// `%al` set to 1 if the previously compared scalar is non-zero.
    fn set_is_nonzero(&mut self, env: &GenInfo, ty: Type)
        requires
            env.wf(),
        ensures
            set_is_nonzero(env@, old(self)@, ty) == final(self)@,
    {
        proof {
            reveal(set_is_nonzero);
        }
        self.puts("  setne %al");
        self.nl();
        if ty.is_flonum() {
            self.puts("  setp %dl");
            self.nl();
            self.puts("  or %dl, %al");
            self.nl();
        }
    }

    /// A jump to the given label if the previously compared scalar is zero.
    fn jump_if_zero(
        &mut self,
        env: &GenInfo,
        ty: Type,
        prefix: &str,
        number: usize,
    ) -> (r: Result<(), Error>)
        requires
            env.wf(),
        ensures
            jump_if_zero(env@, old(self)@, ty, prefix, number) == outcome(r, final(self)@),
    {
        proof {
            reveal(jump_if_zero);
        }
        if ty.is_flonum() {
            let skip: usize = self.take_label()?;
            self.puts("  jp .L.skip.");
            self.putd(skip as i128);
            self.nl();
            self.puts("  je ");
            self.puts(prefix);
            self.putd(number as i128);
            self.nl();
            self.puts(".L.skip.");
            self.putd(skip as i128);
            self.puts(":");
            self.nl();
        } else {
            self.puts("  je ");
            self.puts(prefix);
            self.putd(number as i128);
            self.nl();
        }
        Ok(())
    }

    /// A jump to the given label if the previously compared scalar is non-zero.
    fn jump_if_nonzero(&mut self, env: &GenInfo, ty: Type, prefix: &str, number: usize)
        requires
            env.wf(),
        ensures
            jump_if_nonzero(env@, old(self)@, ty, prefix, number) == final(self)@,
    {
        proof {
            reveal(jump_if_nonzero);
        }
        if ty.is_flonum() {
            self.puts("  jne ");
            self.puts(prefix);
            self.putd(number as i128);
            self.nl();
            self.puts("  jp ");
            self.puts(prefix);
            self.putd(number as i128);
            self.nl();
        } else {
            self.puts("  jne ");
            self.puts(prefix);
            self.putd(number as i128);
            self.nl();
        }
    }

}

impl CastTypeId {
    /// Return how casts see a type, if it is a number other than `_Bool`.
    pub fn from_type(ty: Type) -> (r: Option<CastTypeId>)
        ensures
            r == cast_type_id(ty),
    {
        match ty {
            Type::Enum => Some(CastTypeId::I32),
            Type::Arith(arith) => match arith {
                ArithType::Bool => None,
                ArithType::Char => Some(CastTypeId::I8),
                ArithType::UChar => Some(CastTypeId::U8),
                ArithType::Short => Some(CastTypeId::I16),
                ArithType::UShort => Some(CastTypeId::U16),
                ArithType::Int => Some(CastTypeId::I32),
                ArithType::UInt => Some(CastTypeId::U32),
                ArithType::Long => Some(CastTypeId::I64),
                ArithType::ULong => Some(CastTypeId::U64),
                ArithType::Float => Some(CastTypeId::F32),
                ArithType::Double => Some(CastTypeId::F64),
            },
            _ => None,
        }
    }
}

fn int_cast_line(from: CastTypeId, to: CastTypeId) -> (r: Option<&'static str>)
    ensures
        r == int_cast(from, to),
{
    match (from, to) {
        (_, CastTypeId::I8) => Some("  movsbl %al, %eax"),
        (_, CastTypeId::U8) => Some("  movzbl %al, %eax"),
        (CastTypeId::I8, CastTypeId::I16) | (CastTypeId::U8, CastTypeId::I16) => None,
        (_, CastTypeId::I16) => Some("  movswl %ax, %eax"),
        (CastTypeId::U8, CastTypeId::U16) => None,
        (_, CastTypeId::U16) => Some("  movzwl %ax, %eax"),
        (CastTypeId::I64, CastTypeId::I64) | (CastTypeId::I64, CastTypeId::U64) | (CastTypeId::U64, CastTypeId::I64) | (CastTypeId::U64, CastTypeId::U64)
        | (CastTypeId::F32, CastTypeId::I64) | (CastTypeId::F32, CastTypeId::U64) | (CastTypeId::F64, CastTypeId::I64) | (CastTypeId::F64, CastTypeId::U64) => None,
        (CastTypeId::U32, CastTypeId::I64) | (CastTypeId::U32, CastTypeId::U64) | (CastTypeId::U32, CastTypeId::F32) | (CastTypeId::U32, CastTypeId::F64) => Some(
            "  mov %eax, %eax",
        ),
        (_, CastTypeId::I64) | (_, CastTypeId::U64) => Some("  movsxd %eax, %rax"),
        _ => None,
    }
}

impl Emitter {
    fn int_to_float(&mut self, from: CastTypeId, to: Type)
        requires
            crate::types::ty_is_flonum(to),
        ensures
            int_to_float(old(self)@, from, to) == final(self)@,
    {
        proof {
            reveal(int_to_float);
        }
        let sz = fp_mnemonic_sz(to);
        match from {
            CastTypeId::U64 => {
                self.puts("  test %rax, %rax");
                self.nl();
                self.puts("  js 1f");
                self.nl();
                self.puts("  pxor %xmm0, %xmm0");
                self.nl();
                self.puts("  cvtsi2s");
                self.puts(sz);
                self.puts("q %rax, %xmm0");
                self.nl();
                self.puts("  jmp 2f");
                self.nl();
                self.puts("1:");
                self.nl();
                self.puts("  mov %rax, %rdi");
                self.nl();
                self.puts("  and $1, %eax");
                self.nl();
                self.puts("  pxor %xmm0, %xmm0");
                self.nl();
                self.puts("  shr %rdi");
                self.nl();
                self.puts("  or %rax, %rdi");
                self.nl();
                self.puts("  cvtsi2s");
                self.puts(sz);
                self.puts("q %rdi, %xmm0");
                self.nl();
                self.puts("  adds");
                self.puts(sz);
                self.puts(" %xmm0, %xmm0");
                self.nl();
                self.puts("2:");
                self.nl();
            },
            CastTypeId::U32 | CastTypeId::I64 => {
                self.puts("  cvtsi2s");
                self.puts(sz);
                self.puts("q %rax, %xmm0");
                self.nl();
            },
            _ => {
                self.puts("  cvtsi2s");
                self.puts(sz);
                self.puts("l %eax, %xmm0");
                self.nl();
            },
        }
    }

    fn float_to_int(&mut self, from: Type, to: CastTypeId)
        requires
            crate::types::ty_is_flonum(from),
        ensures
            float_to_int(old(self)@, from, to) == final(self)@,
    {
        proof {
            reveal(float_to_int);
        }
        let sz = fp_mnemonic_sz(from);
        match to {
            CastTypeId::U32 | CastTypeId::I64 | CastTypeId::U64 => {
                self.puts("  cvtts");
                self.puts(sz);
                self.puts("2siq %xmm0, %rax");
                self.nl();
            },
            _ => {
                self.puts("  cvtts");
                self.puts(sz);
                self.puts("2sil %xmm0, %eax");
                self.nl();
            },
        }
    }

    fn number_cast(&mut self, from: Type, to: Type, from_id: CastTypeId, to_id: CastTypeId)
        ensures
            number_cast(old(self)@, from, to, from_id, to_id) == final(self)@,
    {
        proof {
            reveal(number_cast);
        }
        // Cast float to integer
        if from.is_flonum() {
            self.float_to_int(from, to_id);
        }
        // Cast integer to integer
        if let Some(line) = int_cast_line(from_id, to_id) {
            self.puts(line);
            self.nl();
        }
        // Cast integer to float
        if to.is_flonum() {
            self.int_to_float(from_id, to);
        }
    }

    /// A type cast of the value in `%rax` or `%xmm0`.
    fn gen_cast(&mut self, env: &GenInfo, from: Type, to: Type)
        requires
            env.wf(),
        ensures
            gen_cast(env@, old(self)@, from, to) == final(self)@,
    {
        proof {
            reveal(gen_cast);
        }
        if to == Type::Void {
            return;
        }
        if to == Type::Arith(ArithType::Bool) {
            self.compare_zero(env, from);
            self.set_is_nonzero(env, from);
            self.puts("  movzx %al, %eax");
            self.nl();
            return;
        }
        let Some(from_id) = CastTypeId::from_type(from) else {
            return;
        };
        let Some(to_id) = CastTypeId::from_type(to) else {
            return;
        };
        if from_id == to_id {
            return;
        }
        // Short-circuit for float-to-float cast
        if from_id == CastTypeId::F32 && to_id == CastTypeId::F64 {
            self.puts("  cvtss2sd %xmm0, %xmm0");
            self.nl();
            return;
        }
        if from_id == CastTypeId::F64 && to_id == CastTypeId::F32 {
            self.puts("  cvtsd2ss %xmm0, %xmm0");
            self.nl();
            return;
        }
        self.number_cast(from, to, from_id, to_id);
    }

    /// A floating-point literal, given by the bits of a double.
    fn gen_flonum(&mut self, env: &GenInfo, bits: u64, ty: Type) -> (r: Result<(), Error>)
        requires
            env.wf(),
        ensures
            gen_flonum(env@, old(self)@, bits, ty) == outcome(r, final(self)@),
    {
        proof {
            reveal(gen_flonum);
        }
        proof {
            reveal(GenInfo::view);
        }
        match ty {
            Type::Arith(ArithType::Float) => {
                let single: u64 = match env.floats.ask(FloatQuery::Bits32(bits)) {
                    Ok(single) => single,
                    Err(query) => return Err(Error::NeedsFloat(query)),
                };
                self.puts("  mov $");
                self.puth(single);
                self.puts(", %eax");
                self.nl();
                self.puts("  movd %eax, %xmm0");
                self.nl();
                Ok(())
            },
            Type::Arith(ArithType::Double) => {
                self.puts("  movabs $");
                self.puth(bits);
                self.puts(", %rax");
                self.nl();
                self.puts("  movq %rax, %xmm0");
                self.nl();
                Ok(())
            },
            _ => Err(Error::Overflow),
        }
    }

    /// The value in `%rax` or `%xmm0` negated.
    fn negate(&mut self, env: &GenInfo, ty: Type)
        requires
            env.wf(),
        ensures
            negate(env@, old(self)@, ty) == final(self)@,
    {
        proof {
            reveal(negate);
        }
        if ty.is_flonum() {
            self.puts("  mov $1, %rax");
            self.nl();
            self.puts("  shl $");
            self.putd((env.size(ty) as i128 * 8 - 1) as i128);
            self.puts(", %rax");
            self.nl();
            self.puts("  movq %rax, %xmm1");
            self.nl();
            self.puts("  xorp");
            self.puts(fp_mnemonic_sz(ty));
            self.puts(" %xmm1, %xmm0");
            self.nl();
        } else {
            self.puts("  neg %rax");
            self.nl();
        }
    }

    /// The bits of a member extracted from `%rax`, if it is a bit-field.
    fn read_bit_field(&mut self, env: &GenInfo, member: Member) -> (r: Result<(), Error>)
        requires
            env.wf(),
        ensures
            read_bit_field(env@, old(self)@, member) == outcome(r, final(self)@),
    {
        proof {
            reveal(read_bit_field);
        }
        let Some(field) = member.bit_field else {
            return Ok(());
        };
        if field.offset > 64 || field.width > 64 - field.offset {
            return Err(Error::Overflow);
        }
        self.puts("  shl $");
        self.putd((64 - field.width - field.offset) as i128);
        self.puts(", %rax");
        self.nl();
        if member.ty.is_unsigned() {
            self.puts("  shr $");
            self.putd((64 - field.width) as i128);
            self.puts(", %rax");
            self.nl();
        } else {
            self.puts("  sar $");
            self.putd((64 - field.width) as i128);
            self.puts(", %rax");
            self.nl();
        }
        Ok(())
    }

    /// `%rax` stored into a bit-field of the member whose address is on top of the temporary stack.
    fn write_bit_field(
        &mut self,
        env: &GenInfo,
        member: Member,
        field: crate::types::BitField,
        ty: Type,
    ) -> (r: Result<(), Error>)
        requires
            env.wf(),
        ensures
            write_bit_field(env@, old(self)@, member, field, ty) == outcome(r, final(self)@),
    {
        proof {
            reveal(write_bit_field);
        }
        if field.width >= 128 || field.offset >= 128 {
            return Err(Error::Overflow);
        }
        // If lhs is a bit-field, we need to read the current value
        // from memory and merge it with a properly shifted and
        // masked rhs value
        self.puts("  mov %rax, %r8");
        self.nl();
        self.puts("  mov %rax, %rdi");
        self.nl();
        self.puts("  and $");
        let low: u128 = low_mask(field.width);
        self.putd(low as i128);
        self.puts(", %rdi");
        self.nl();
        self.puts("  shl $");
        self.putd(field.offset as i128);
        self.puts(", %rdi");
        self.nl();
        self.puts("  mov (%rsp), %rax");
        self.nl();
        self.load(env, member.ty)?;
        #[verifier::truncate]
        let mask: u64 = (low_mask(field.width) << (field.offset as u128)) as u64;
        let kept: u64 = u64::MAX - mask;
        let mask: i64 = crate::parse::eval::bits_as_signed(kept);
        self.puts("  mov $");
        self.putd(mask as i128);
        self.puts(", %r9");
        self.nl();
        self.puts("  and %r9, %rax");
        self.nl();
        self.puts("  or %rdi, %rax");
        self.nl();
        self.store(env, ty)?;
        self.puts("  mov %r8, %rax");
        self.nl();
        Ok(())
    }

}

/// The bits of a bit-field of the given width, at offset 0.
fn low_mask(width: u32) -> (r: u128)
    requires
        width < 128,
    ensures
        r == low_bits(width),
        r <= i128::MAX,
{
    let w: u128 = width as u128;
    assert(1 <= (1u128 << w) <= 0x8000_0000_0000_0000_0000_0000_0000_0000u128) by (bit_vector)
        requires
            w < 128,
    ;
    (1u128 << w) - 1
}

impl Emitter {
    /// A binary operation on the floating-point values in `%xmm0` and `%xmm1`.
    fn float_binary(
        &mut self,
        env: &GenInfo,
        op: BinaryOp,
        lhs_ty: Type,
        span: SourceSpan,
    ) -> (r: Result<(), Error>)
        requires
            env.wf(),
        ensures
            float_binary(env@, old(self)@, op, lhs_ty, span) == outcome(r, final(self)@),
    {
        proof {
            reveal(float_binary);
        }
        let sz = fp_suffix(lhs_ty);
        match op {
            BinaryOp::Add => {
                self.puts("  adds");
                self.puts(sz);
                self.puts(" %xmm1, %xmm0");
                self.nl();
            },
            BinaryOp::Sub => {
                self.puts("  subs");
                self.puts(sz);
                self.puts(" %xmm1, %xmm0");
                self.nl();
            },
            BinaryOp::Mul => {
                self.puts("  muls");
                self.puts(sz);
                self.puts(" %xmm1, %xmm0");
                self.nl();
            },
            BinaryOp::Div => {
                self.puts("  divs");
                self.puts(sz);
                self.puts(" %xmm1, %xmm0");
                self.nl();
            },
            BinaryOp::Eq => {
                self.puts("  ucomis");
                self.puts(sz);
                self.puts(" %xmm0, %xmm1");
                self.nl();
                self.puts("  sete %al");
                self.nl();
                self.puts("  setnp %dl");
                self.nl();
                self.puts("  and %dl, %al");
                self.nl();
            },
            BinaryOp::Ne => {
                self.puts("  ucomis");
                self.puts(sz);
                self.puts(" %xmm0, %xmm1");
                self.nl();
                self.puts("  setne %al");
                self.nl();
                self.puts("  setp %dl");
                self.nl();
                self.puts("  or %dl, %al");
                self.nl();
            },
            BinaryOp::Lt => {
                self.puts("  ucomis");
                self.puts(sz);
                self.puts(" %xmm0, %xmm1");
                self.nl();
                self.puts("  seta %al");
                self.nl();
            },
            BinaryOp::Le => {
                self.puts("  ucomis");
                self.puts(sz);
                self.puts(" %xmm0, %xmm1");
                self.nl();
                self.puts("  setae %al");
                self.nl();
            },
            _ => {
                return Err(Error::Terminate(span, Message::InvalidFloatOperator));
            },
        }
        self.puts("  and $1, %al");
        self.nl();
        self.puts("  movzb %al, %rax");
        self.nl();
        Ok(())
    }

}

fn fp_suffix(ty: Type) -> (r: &'static str)
    ensures
        r == fp_sz(ty),
{
    match ty {
        Type::Arith(ArithType::Float) => "s",
        _ => "d",
    }
}

impl Emitter {
    /// The value in `%rax` divided by that in `%rdi`; the quotient or the remainder is left in `%rax`.
    fn int_divide(&mut self, env: &GenInfo, is_mod: bool, lhs_ty: Type, ty: Type)
        requires
            env.wf(),
        ensures
            int_divide(env@, old(self)@, is_mod, lhs_ty, ty) == final(self)@,
    {
        proof {
            reveal(int_divide);
        }
        let width = ScalarWidth::from_promoted_binary_type(lhs_ty, env);
        if ty.is_unsigned() || env.is_ptr(ty) {
            self.puts("  mov $0, ");
            self.puts(width.rdx_reg());
            self.nl();
            self.puts("  div ");
            self.puts(width.rdi_reg());
            self.nl();
        } else {
            self.puts("  ");
            self.puts(width.signed_div_extend_mnemonic());
            self.nl();
            self.puts("  idiv ");
            self.puts(width.rdi_reg());
            self.nl();
        }
        if is_mod {
            self.puts("  mov ");
            self.puts(width.rdx_reg());
            self.puts(", ");
            self.puts(width.acc_reg());
            self.nl();
        }
    }

    /// The values in `%rax` and `%rdi` compared; the outcome is left in `%rax`.
    fn int_compare(&mut self, env: &GenInfo, op: BinaryOp, lhs_ty: Type)
        requires
            env.wf(),
        ensures
            int_compare(env@, old(self)@, op, lhs_ty) == final(self)@,
    {
        proof {
            reveal(int_compare);
        }
        let width = ScalarWidth::from_promoted_binary_type(lhs_ty, env);
        let unsigned = lhs_ty.is_unsigned() || env.is_ptr(lhs_ty);
        self.puts("  cmp ");
        self.puts(width.rdi_reg());
        self.puts(", ");
        self.puts(width.acc_reg());
        self.nl();
        match op {
            BinaryOp::Eq => {
                self.puts("  sete %al");
                self.nl();
            },
            BinaryOp::Ne => {
                self.puts("  setne %al");
                self.nl();
            },
            BinaryOp::Lt => if unsigned {
                self.puts("  setb %al");
                self.nl();
            } else {
                self.puts("  setl %al");
                self.nl();
            },
            _ => if unsigned {
                self.puts("  setbe %al");
                self.nl();
            } else {
                self.puts("  setle %al");
                self.nl();
            },
        }
        self.puts("  movzb %al, %rax");
        self.nl();
    }

    /// A binary operation on the integers in `%rax` and `%rdi`.
    fn int_binary(&mut self, env: &GenInfo, op: BinaryOp, lhs_ty: Type, ty: Type)
        requires
            env.wf(),
        ensures
            int_binary(env@, old(self)@, op, lhs_ty, ty) == final(self)@,
    {
        proof {
            reveal(int_binary);
        }
        let width = ScalarWidth::from_promoted_binary_type(lhs_ty, env);
        match op {
            BinaryOp::Add => {
                self.puts("  add ");
                self.puts(width.rdi_reg());
                self.puts(", ");
                self.puts(width.acc_reg());
                self.nl();
            },
            BinaryOp::Sub => {
                self.puts("  sub ");
                self.puts(width.rdi_reg());
                self.puts(", ");
                self.puts(width.acc_reg());
                self.nl();
            },
            BinaryOp::Mul => {
                self.puts("  imul ");
                self.puts(width.rdi_reg());
                self.puts(", ");
                self.puts(width.acc_reg());
                self.nl();
            },
            BinaryOp::BitAnd => {
                self.puts("  and ");
                self.puts(width.rdi_reg());
                self.puts(", ");
                self.puts(width.acc_reg());
                self.nl();
            },
            BinaryOp::BitOr => {
                self.puts("  or ");
                self.puts(width.rdi_reg());
                self.puts(", ");
                self.puts(width.acc_reg());
                self.nl();
            },
            BinaryOp::BitXor => {
                self.puts("  xor ");
                self.puts(width.rdi_reg());
                self.puts(", ");
                self.puts(width.acc_reg());
                self.nl();
            },
            BinaryOp::Div => self.int_divide(env, false, lhs_ty, ty),
            BinaryOp::Mod => self.int_divide(env, true, lhs_ty, ty),
            BinaryOp::BitLeftShift => {
                self.puts("  mov ");
                self.puts(width.rdi_reg());
                self.puts(", ");
                self.puts(width.rcx_reg());
                self.nl();
                self.puts("  shl %cl, ");
                self.puts(width.acc_reg());
                self.nl();
            },
            BinaryOp::BitRightShift => {
                self.puts("  mov ");
                self.puts(width.rdi_reg());
                self.puts(", ");
                self.puts(width.rcx_reg());
                self.nl();
                if lhs_ty.is_unsigned() || env.is_ptr(lhs_ty) {
                    self.puts("  shr %cl, ");
                    self.puts(width.acc_reg());
                    self.nl();
                } else {
                    self.puts("  sar %cl, ");
                    self.puts(width.acc_reg());
                    self.nl();
                }
            },
            BinaryOp::Eq | BinaryOp::Ne | BinaryOp::Lt | BinaryOp::Le => self.int_compare(
                env,
                op,
                lhs_ty,
            ),
        }
    }

    fn push_value(&mut self, env: &GenInfo, ty: Type) -> (r: Result<(), Error>)
        requires
            env.wf(),
        ensures
            push_value(env@, old(self)@, ty) == outcome(r, final(self)@),
    {
        proof {
            reveal(push_value);
        }
        if env.is_struct_or_union(ty) {
            self.push_struct_or_union(env, ty)
        } else if ty.is_flonum() {
            self.pushf(env)
        } else {
            self.push(env)
        }
    }

    fn pop_reg(&mut self, env: &GenInfo, is_fp: bool, rindex: &mut ArgRegIndex) -> (r: Result<
        (),
        Error,
    >)
        requires
            env.wf(),
        ensures
            pop_reg(env@, old(self)@, is_fp, *old(rindex)) == (match r {
                Ok(_) => Ok::<(Gen, ArgRegIndex), Error>((final(self)@, *final(rindex))),
                Err(e) => Err(e),
            }),
    {
        proof {
            reveal(pop_reg);
        }
        if is_fp {
            if rindex.fp >= MAX_FP_ARG_REGS {
                return Err(Error::Overflow);
            }
            self.popf(env, rindex.fp)?;
            rindex.fp += 1;
        } else {
            if rindex.gp >= MAX_GP_ARG_REGS {
                return Err(Error::Overflow);
            }
            self.pop(env, gp_arg_reg_64(rindex.gp))?;
            rindex.gp += 1;
        }
        Ok(())
    }

    /// Pop register arguments into appropriate registers.
    fn pop_args(&mut self, env: &GenInfo, places: &Vec<ArgRegs>, rindex: &mut ArgRegIndex) -> (r:
        Result<(), Error>)
        requires
            env.wf(),
        ensures
            pop_args(env@, old(self)@, places@, 0, *old(rindex)) == (match r {
                Ok(_) => Ok::<(Gen, ArgRegIndex), Error>((final(self)@, *final(rindex))),
                Err(e) => Err(e),
            }),
    {
        let mut k: usize = 0;
        while k < places.len()
            invariant
                env.wf(),
                k <= places.len(),
                pop_args(env@, old(self)@, places@, 0, *old(rindex)) == pop_args(
                    env@,
                    self@,
                    places@,
                    k as int,
                    *rindex,
                ),
            decreases places.len() - k,
        {
            match places[k] {
                ArgRegs::Stack => {},
                ArgRegs::One(a) => self.pop_reg(env, a, rindex)?,
                ArgRegs::Two(a, b) => {
                    self.pop_reg(env, a, rindex)?;
                    self.pop_reg(env, b, rindex)?;
                },
            }
            k += 1;
        }
        Ok(())
    }

}

/// Determine the registers that the arguments of a call take.
fn args_regs_of(types: &TypeStore, args: &NodeList, rindex: ArgRegIndex) -> (r: Vec<ArgRegs>)
    requires
        rindex.gp <= MAX_GP_ARG_REGS,
        rindex.fp <= MAX_FP_ARG_REGS,
    ensures
        r@ == args_regs(types@, *args, rindex),
{
    let mut out: Vec<ArgRegs> = Vec::new();
    let mut rindex = rindex;
    let mut rest: &NodeList = args;
    let ghost all = args_regs(types@, *args, rindex);
    assert(out@ + all =~= all);
    loop
        invariant
            rindex.gp <= MAX_GP_ARG_REGS,
            rindex.fp <= MAX_FP_ARG_REGS,
            out@ + args_regs(types@, *rest, rindex) == all,
        ensures
            out@ == all,
        decreases rest,
    {
        match rest {
            NodeList::Nil => {
                assert(out@ + Seq::<ArgRegs>::empty() =~= out@);
                break;
            },
            NodeList::Cons(arg, tail) => {
                let ghost before = out@;
                let ghost index = rindex;
                let regs = arg_regs_of(types, arg.known_ty(), &mut rindex);
                out.push(regs);
                assert(out@ + args_regs(types@, **tail, rindex) =~= before + args_regs(
                    types@,
                    *rest,
                    index,
                ));
                rest = tail;
            },
        }
    }
    out
}

/// Count the slots that the arguments passed by stack take.
fn count_stack_slots(types: &TypeStore, args: &NodeList, places: &Vec<ArgRegs>, k: usize) -> (r:
    Option<u64>)
    requires
        k + args.spec_len() <= places@.len(),
    ensures
        r == (if stack_slots(types@, *args, places@, k as int) <= u64::MAX {
            Some(stack_slots(types@, *args, places@, k as int) as u64)
        } else {
            None
        }),
        stack_slots(types@, *args, places@, k as int) >= 0,
    decreases args,
{
    match args {
        NodeList::Nil => Some(0),
        NodeList::Cons(arg, tail) => {
            let n: usize = places.len();
            assert(k < n);
            let rest = count_stack_slots(types, tail, places, k + 1);
            let ty = arg.known_ty();
            let size: u64 = types.size(ty);
            proof {
                crate::utils::align_up_is_least_multiple(size as int, 8);
            }
            let slots: u64 = match places[k] {
                ArgRegs::Stack => if types.is_struct_or_union(ty) {
                    size / 8 + (if size % 8 == 0 {
                        0
                    } else {
                        1
                    })
                } else {
                    1
                },
                _ => 0,
            };
            match rest {
                Some(rest) => rest.checked_add(slots),
                None => None,
            }
        },
    }
}

proof fn args_regs_len(types: crate::types::Types, args: NodeList, rindex: ArgRegIndex)
    ensures
        args_regs(types, args, rindex).len() == args.spec_len(),
    decreases args,
{
    match args {
        NodeList::Nil => {},
        NodeList::Cons(arg, tail) => {
            args_regs_len(types, *tail, arg_regs(types, node_ty(*arg), rindex).1);
        },
    }
}

impl Emitter {
    /// The value that a call returned put in place: an aggregate into its buffer, a narrow integer widened.
    fn store_returned(
        &mut self,
        env: &GenInfo,
        ty: Type,
        ret_buf: Option<usize>,
    ) -> (r: Result<(), Error>)
        requires
            env.wf(),
        ensures
            store_returned(env@, old(self)@, ty, ret_buf) == outcome(r, final(self)@),
    {
        proof {
            reveal(store_returned);
        }
        let Some(id) = ret_buf else {
            // Per x86-64 psABI, for "_Bool", "char", and "short" return
            // types, only the low 8 or 16 bits of %rax are guaranteed to
            // hold the correct value across a call; hence we need to
            // normalize the register to the declared return type here
            match ty {
                Type::Arith(ArithType::Bool) => {
                    self.puts("  movzx %al, %eax");
                    self.nl();
                },
                Type::Arith(ArithType::Char) => {
                    self.puts("  movsbl %al, %eax");
                    self.nl();
                },
                Type::Arith(ArithType::UChar) => {
                    self.puts("  movzbl %al, %eax");
                    self.nl();
                },
                Type::Arith(ArithType::Short) => {
                    self.puts("  movswl %ax, %eax");
                    self.nl();
                },
                Type::Arith(ArithType::UShort) => {
                    self.puts("  movzwl %ax, %eax");
                    self.nl();
                },
                _ => {},
            }
            return Ok(());
        };
        let offset: i64 = env.local_offset(id)?;
        if env.size(ty) <= 16 {
            let mut rindex = ArgRegIndex { fp: 0, gp: 0 };
            self.store_ret_chunk(env, ty, 0, offset, &mut rindex)?;
            if env.size(ty) > 8 {
                if offset > i64::MAX - 8 {
                    return Err(Error::Overflow);
                }
                self.store_ret_chunk(env, ty, 8, offset + 8, &mut rindex)?;
            }
        }
        self.puts("  lea ");
        self.putd(offset as i128);
        self.puts("(%rbp), %rax");
        self.nl();
        Ok(())
    }

    /// Generate assembly for the given expression node.
    fn gen_expr(&mut self, env: &GenInfo, node: &Node) -> (r: Result<(), Error>)
        requires
            env.wf(),
        ensures
            gen_expr(env@, old(self)@, *node) == outcome(r, final(self)@),
        decreases node, 6int,
    {
        assert(gen_expr(env@, self@, *node) == gen_expr_rule(env@, self@, *node));
        self.gen_loc(env, node.span);
        let ty = node.known_ty();
        match &node.kind {
            NodeKind::Num(value) => {
                self.puts("  mov $");
                self.putd(*value as i128);
                self.puts(", %rax");
                self.nl();
                Ok(())
            },
            NodeKind::Flonum(bits) => self.gen_flonum(env, *bits, ty),
            NodeKind::FuncCall { .. } => self.gen_call(env, node),
            NodeKind::Addr(expr) => self.gen_addr(env, expr),
            NodeKind::Deref(expr) => {
                self.gen_expr(env, expr)?;
                self.load(env, ty)?;
                Ok(())
            },
            NodeKind::Neg(expr) => {
                self.gen_expr(env, expr)?;
                self.negate(env, ty);
                Ok(())
            },
            NodeKind::Not(expr) => {
                self.gen_expr(env, expr)?;
                let ty = expr.known_ty();
                self.compare_zero(env, ty);
                self.set_is_zero(env, ty);
                self.puts("  movzx %al, %rax");
                self.nl();
                Ok(())
            },
            NodeKind::BitNot(expr) => {
                self.gen_expr(env, expr)?;
                self.puts("  not %rax");
                self.nl();
                Ok(())
            },
            NodeKind::Entity(_) => {
                self.gen_addr(env, node)?;
                self.load(env, ty)
            },
            NodeKind::Assign { .. } => self.gen_assign(env, node),
            NodeKind::Comma { lhs, rhs } => {
                self.gen_expr(env, lhs)?;
                self.gen_expr(env, rhs)?;
                Ok(())
            },
            NodeKind::LogicalAnd { .. } | NodeKind::LogicalOr { .. } => self.gen_logical(env, node),
            NodeKind::Binary { .. } => self.gen_binary(env, node, ty),
            NodeKind::Conditional { cond, then_expr, else_expr } => {
                let ty = cond.known_ty();
                let label: usize = self.take_label()?;
                self.gen_expr(env, cond)?;
                self.compare_zero(env, ty);
                self.jump_if_zero(env, ty, ".L.else.", label)?;
                self.gen_expr(env, then_expr)?;
                self.puts("  jmp .L.end.");
                self.putd(label as i128);
                self.nl();
                self.puts(".L.else.");
                self.putd(label as i128);
                self.puts(":");
                self.nl();
                self.gen_expr(env, else_expr)?;
                self.puts(".L.end.");
                self.putd(label as i128);
                self.puts(":");
                self.nl();
                Ok(())
            },
            NodeKind::Member { parent: _, member } => {
                self.gen_addr(env, node)?;
                self.load(env, ty)?;
                self.read_bit_field(env, *member)
            },
            NodeKind::StmtExpr(body) => self.gen_stmts(env, body),
            NodeKind::Cast(expr) => {
                self.gen_expr(env, expr)?;
                self.gen_cast(env, expr.known_ty(), ty);
                Ok(())
            },
            NodeKind::Dummy => Err(Error::Overflow),
        }
    }

    /// The address of a named entity, left in `%rax`.
    fn entity_addr(&mut self, env: &GenInfo, entity: EntityRef) -> (r: Result<(), Error>)
        requires
            env.wf(),
        ensures
            entity_addr(env@, old(self)@, entity) == outcome(r, final(self)@),
    {
        proof {
            reveal(entity_addr);
        }
        match entity {
            EntityRef::Local(id) => {
                let offset: i64 = env.local_offset(id)?;
                self.puts("  lea ");
                self.putd(offset as i128);
                self.puts("(%rbp), %rax");
                self.nl();
                Ok(())
            },
            EntityRef::Global(id) => {
                let name = env.global_name(id)?;
                self.puts("  lea ");
                self.put_name(env, name);
                self.puts("(%rip), %rax");
                self.nl();
                Ok(())
            },
            EntityRef::Function(id) => {
                let function = env.function_data(id)?;
                if function.is_defined {
                    self.puts("  lea ");
                    self.put_name(env, Name::Ident(function.name));
                    self.puts("(%rip), %rax");
                    self.nl();
                } else {
                    self.puts("  mov ");
                    self.put_name(env, Name::Ident(function.name));
                    self.puts("@GOTPCREL(%rip), %rax");
                    self.nl();
                }
                Ok(())
            },
        }
    }

    /// Generate the address of an addressable expression into `%rax`.
    fn gen_addr(&mut self, env: &GenInfo, node: &Node) -> (r: Result<(), Error>)
        requires
            env.wf(),
        ensures
            gen_addr(env@, old(self)@, *node) == outcome(r, final(self)@),
        decreases node, 4int,
    {
        assert(gen_addr(env@, self@, *node) == gen_addr_rule(env@, self@, *node));
        match &node.kind {
            NodeKind::Entity(entity) => self.entity_addr(env, *entity),
            NodeKind::Deref(expr) => self.gen_expr(env, expr),
            NodeKind::Comma { lhs, rhs } => {
                self.gen_expr(env, lhs)?;
                self.gen_addr(env, rhs)
            },
            NodeKind::StmtExpr(body) => self.gen_addr_block(env, body, node.span),
            NodeKind::Member { parent, member } => {
                self.gen_addr(env, parent)?;
                self.puts("  add $");
                self.putd(member.offset as i128);
                self.puts(", %rax");
                self.nl();
                Ok(())
            },
            NodeKind::FuncCall { ret_buf_local: Some(_), .. } => {
                self.gen_loc(env, node.span);
                self.gen_call(env, node)
            },
            _ => Err(Error::Terminate(node.span, Message::NotAnLvalue)),
        }
    }

    /// Generate the address of the last expression of a statement expression.
    fn gen_addr_block(
        &mut self,
        env: &GenInfo,
        stmts: &StmtList,
        span: SourceSpan,
    ) -> (r: Result<(), Error>)
        requires
            env.wf(),
        ensures
            gen_addr_block(env@, old(self)@, *stmts, span) == outcome(r, final(self)@),
        decreases stmts, 4int,
    {
        assert(gen_addr_block(env@, self@, *stmts, span) == gen_addr_block_rule(env@, self@, *stmts, span));
        match stmts {
            StmtList::Nil => Err(Error::Terminate(span, Message::VoidLvalue)),
            StmtList::Cons(stmt, tail) => match &**tail {
                StmtList::Nil => match &stmt.kind {
                    StmtKind::Expr(expr) => self.gen_addr(env, expr),
                    _ => Err(Error::Terminate(span, Message::VoidLvalue)),
                },
                _ => {
                    self.gen_stmt(env, stmt)?;
                    self.gen_addr_block(env, tail, span)
                },
            },
        }
    }

    /// Generate assembly for an assignment.
    fn gen_assign(&mut self, env: &GenInfo, node: &Node) -> (r: Result<(), Error>)
        requires
            env.wf(),
        ensures
            gen_assign(env@, old(self)@, *node) == outcome(r, final(self)@),
        decreases node, 0int,
    {
        assert(gen_assign(env@, self@, *node) == gen_assign_rule(env@, self@, *node));
        match &node.kind {
            NodeKind::Assign { lhs, rhs } => {
                self.gen_addr(env, lhs)?;
                self.push(env)?;
                self.gen_expr(env, rhs)?;
                let ty = lhs.known_ty();
                match &lhs.kind {
                    NodeKind::Member { parent: _, member } => match member.bit_field {
                        Some(field) => self.write_bit_field(env, *member, field, ty),
                        None => self.store(env, ty),
                    },
                    _ => self.store(env, ty),
                }
            },
            _ => Err(Error::Overflow),
        }
    }

    /// Generate assembly for a logical operator.
    fn gen_logical(&mut self, env: &GenInfo, node: &Node) -> (r: Result<(), Error>)
        requires
            env.wf(),
        ensures
            gen_logical(env@, old(self)@, *node) == outcome(r, final(self)@),
        decreases node, 0int,
    {
        assert(gen_logical(env@, self@, *node) == gen_logical_rule(env@, self@, *node));
        match &node.kind {
            NodeKind::LogicalAnd { lhs, rhs } => {
                let lhs_ty = lhs.known_ty();
                let rhs_ty = rhs.known_ty();
                let label: usize = self.take_label()?;
                self.gen_expr(env, lhs)?;
                self.compare_zero(env, lhs_ty);
                self.jump_if_zero(env, lhs_ty, ".L.false.", label)?;
                self.gen_expr(env, rhs)?;
                self.compare_zero(env, rhs_ty);
                self.jump_if_zero(env, rhs_ty, ".L.false.", label)?;
                self.puts("  mov $1, %rax");
                self.nl();
                self.puts("  jmp .L.end.");
                self.putd(label as i128);
                self.nl();
                self.puts(".L.false.");
                self.putd(label as i128);
                self.puts(":");
                self.nl();
                self.puts("  mov $0, %rax");
                self.nl();
                self.puts(".L.end.");
                self.putd(label as i128);
                self.puts(":");
                self.nl();
                Ok(())
            },
            NodeKind::LogicalOr { lhs, rhs } => {
                let lhs_ty = lhs.known_ty();
                let rhs_ty = rhs.known_ty();
                let label: usize = self.take_label()?;
                self.gen_expr(env, lhs)?;
                self.compare_zero(env, lhs_ty);
                self.jump_if_nonzero(env, lhs_ty, ".L.true.", label);
                self.gen_expr(env, rhs)?;
                self.compare_zero(env, rhs_ty);
                self.jump_if_nonzero(env, rhs_ty, ".L.true.", label);
                self.puts("  mov $0, %rax");
                self.nl();
                self.puts("  jmp .L.end.");
                self.putd(label as i128);
                self.nl();
                self.puts(".L.true.");
                self.putd(label as i128);
                self.puts(":");
                self.nl();
                self.puts("  mov $1, %rax");
                self.nl();
                self.puts(".L.end.");
                self.putd(label as i128);
                self.puts(":");
                self.nl();
                Ok(())
            },
            _ => Err(Error::Overflow),
        }
    }

    /// Generate assembly for a binary operation.
    fn gen_binary(&mut self, env: &GenInfo, node: &Node, ty: Type) -> (r: Result<(), Error>)
        requires
            env.wf(),
        ensures
            gen_binary(env@, old(self)@, *node, ty) == outcome(r, final(self)@),
        decreases node, 0int,
    {
        assert(gen_binary(env@, self@, *node, ty) == gen_binary_rule(env@, self@, *node, ty));
        match &node.kind {
            NodeKind::Binary { op, lhs, rhs } => {
                let lhs_ty = lhs.known_ty();
                if lhs_ty.is_flonum() {
                    self.gen_expr(env, rhs)?;
                    self.pushf(env)?;
                    self.gen_expr(env, lhs)?;
                    self.popf(env, 1)?;
                    return self.float_binary(env, *op, lhs_ty, node.span);
                }
                self.gen_expr(env, rhs)?;
                self.push(env)?;
                self.gen_expr(env, lhs)?;
                self.pop(env, "%rdi")?;
                self.int_binary(env, *op, lhs_ty, ty);
                Ok(())
            },
            _ => Err(Error::Overflow),
        }
    }

    /// Push the arguments of one kind onto the stack, the last one first.
    fn push_args(
        &mut self,
        env: &GenInfo,
        args: &NodeList,
        places: &Vec<ArgRegs>,
        k: usize,
        by_stack: bool,
    ) -> (r: Result<(), Error>)
        requires
            env.wf(),
            k + args.spec_len() <= places@.len(),
        ensures
            push_args(env@, old(self)@, *args, places@, k as int, by_stack) == outcome(
                r,
                final(self)@,
            ),
        decreases args, 0int,
    {
        assert(push_args(env@, self@, *args, places@, k as int, by_stack) == push_args_rule(
            env@,
            self@,
            *args,
            places@,
            k as int,
            by_stack,
        ));
        match args {
            NodeList::Nil => Ok(()),
            NodeList::Cons(arg, tail) => {
                let n: usize = places.len();
                assert(k < n);
                self.push_args(env, tail, places, k + 1, by_stack)?;
                let on_stack = matches!(places[k], ArgRegs::Stack);
                if on_stack != by_stack {
                    return Ok(());
                }
                self.gen_expr(env, arg)?;
                self.push_value(env, arg.known_ty())
            },
        }
    }

    fn align_stack(&mut self, env: &GenInfo, slots: u64) -> (r: Result<u64, Error>)
        requires
            env.wf(),
        ensures
            align_stack(env@, old(self)@, slots as int) == (match r {
                Ok(slots) => Ok::<(Gen, int), Error>((final(self)@, slots as int)),
                Err(e) => Err(e),
            }),
    {
        proof {
            reveal(align_stack);
        }
        if slots == u64::MAX {
            return Err(Error::Overflow);
        }
        let total: u64 = match slots.checked_add(self.depth as u64) {
            Some(total) => total,
            None => return Err(Error::Overflow),
        };
        if total % 2 == 0 {
            return Ok(slots);
        }
        // Ensure 16-byte alignment of the stack before the call by
        // reserving an extra slot if necessary (each slot is 8 bytes)
        self.puts("  sub $8, %rsp");
        self.nl();
        self.grow(1)?;
        Ok(slots + 1)
    }

    fn push_ret_buf(&mut self, env: &GenInfo, ret_buf: Option<usize>) -> (r: Result<(), Error>)
        requires
            env.wf(),
        ensures
            push_ret_buf(env@, old(self)@, ret_buf) == outcome(r, final(self)@),
    {
        proof {
            reveal(push_ret_buf);
        }
        match ret_buf {
            None => Ok(()),
            Some(id) => {
                let offset: i64 = env.local_offset(id)?;
                self.puts("  lea ");
                self.putd(offset as i128);
                self.puts("(%rbp), %rax");
                self.nl();
                self.push(env)
            },
        }
    }

    fn finish_call(
        &mut self,
        env: &GenInfo,
        places: &Vec<ArgRegs>,
        slots: u64,
        ret_buf: Option<usize>,
    ) -> (r: Result<(), Error>)
        requires
            env.wf(),
        ensures
            finish_call(env@, old(self)@, places@, slots as int, ret_buf) == outcome(
                r,
                final(self)@,
            ),
    {
        proof {
            reveal(finish_call);
        }
        // Pop register arguments into appropriate registers, also used
        // to count how many fp registers are used
        let mut rindex = ArgRegIndex { fp: 0, gp: 0 };
        if ret_buf.is_some() {
            self.pop_reg(env, false, &mut rindex)?;
        }
        self.pop_args(env, places, &mut rindex)?;
        // Call the function pointer in %rax, but we have to first move
        // it elsewhere because %rax must carry the number of floating
        // point register arguments (for variadic calls)
        self.puts("  mov %rax, %r10");
        self.nl();
        self.puts("  mov $");
        self.putd(rindex.fp as i128);
        self.puts(", %rax");
        self.nl();
        self.puts("  call *%r10");
        self.nl();
        // Clean up stack arguments if any
        if slots > 0 {
            if slots > u64::MAX / 8 {
                return Err(Error::Overflow);
            }
            self.puts("  add $");
            self.putd((slots * 8) as i128);
            self.puts(", %rsp");
            self.nl();
            self.shrink(slots)?;
        }
        Ok(())
    }

    /// Generate assembly for a function call.
    fn gen_call(&mut self, env: &GenInfo, node: &Node) -> (r: Result<(), Error>)
        requires
            env.wf(),
        ensures
            gen_call(env@, old(self)@, *node) == outcome(r, final(self)@),
        decreases node, 0int,
    {
        assert(gen_call(env@, self@, *node) == gen_call_rule(env@, self@, *node));
        match &node.kind {
            NodeKind::FuncCall { callee, args, ret_buf_local } => {
                let (places, count) = env.place_args(args, *ret_buf_local);
                let Some(slots) = count else {
                    proof {
                        reveal(align_stack);
                    }
                    return Err(Error::Overflow);
                };
                let slots: u64 = self.align_stack(env, slots)?;
                // Stack arguments are pushed first and left there until end of
                // call; register arguments are then pushed temporarily, but
                // will be popped before call later
                self.push_args(env, args, &places, 0, true)?;
                self.push_args(env, args, &places, 0, false)?;
                self.push_ret_buf(env, *ret_buf_local)?;
                self.gen_expr(env, callee)?;
                self.finish_call(env, &places, slots, *ret_buf_local)?;
                self.store_returned(env, node.known_ty(), *ret_buf_local)
            },
            _ => Err(Error::Overflow),
        }
    }

    /// A local variable filled with zeros.
    fn memzero_local(&mut self, env: &GenInfo, id: usize) -> (r: Result<(), Error>)
        requires
            env.wf(),
        ensures
            memzero_local(env@, old(self)@, id) == outcome(r, final(self)@),
    {
        proof {
            reveal(memzero_local);
        }
        let offset: i64 = env.local_offset(id)?;
        let size: u64 = env.size(env.local_type(id));
        self.puts("  lea ");
        self.putd(offset as i128);
        self.puts("(%rbp), %rdi");
        self.nl();
        self.puts("  mov $");
        self.putd(size as i128);
        self.puts(", %ecx");
        self.nl();
        self.puts("  xor %eax, %eax");
        self.nl();
        self.puts("  rep stosb");
        self.nl();
        Ok(())
    }

    /// A struct or union at `%rax` returned: in registers if it is small, else in the return buffer.
    fn return_aggregate(&mut self, env: &GenInfo, ty: Type) -> (r: Result<(), Error>)
        requires
            env.wf(),
        ensures
            return_aggregate(env@, old(self)@, ty) == outcome(r, final(self)@),
    {
        proof {
            reveal(return_aggregate);
        }
        if !env.is_struct_or_union(ty) {
            return Ok(());
        }
        if env.size(ty) <= 16 {
            // Copy to registers
            let mut rindex = ArgRegIndex { fp: 0, gp: 0 };
            self.puts("  mov %rax, %rdi");
            self.nl();
            self.load_ret_chunk(env, ty, 0, &mut rindex)?;
            if env.size(ty) > 8 {
                self.load_ret_chunk(env, ty, 8, &mut rindex)?;
            }
            return Ok(());
        }
        // Copy to the return buffer
        let Some(id) = env.ret_buf_local() else {
            return Err(Error::Overflow);
        };
        let offset: i64 = env.local_offset(id)?;
        self.puts("  mov ");
        self.putd(offset as i128);
        self.puts("(%rbp), %rdi");
        self.nl();
        self.copy_bytes(env.size(ty), "%dl", "%rdi");
        self.puts("  mov %rdi, %rax");
        self.nl();
        Ok(())
    }

    /// Generate assembly for a statement.
    fn gen_stmt(&mut self, env: &GenInfo, stmt: &Stmt) -> (r: Result<(), Error>)
        requires
            env.wf(),
        ensures
            gen_stmt(env@, old(self)@, *stmt) == outcome(r, final(self)@),
        decreases stmt, 4int,
    {
        assert(gen_stmt(env@, self@, *stmt) == gen_stmt_rule(env@, self@, *stmt));
        self.gen_loc(env, stmt.span);
        match &stmt.kind {
            StmtKind::Expr(expr) => self.gen_expr(env, expr),
            StmtKind::Return(expr) => self.gen_return(env, expr),
            StmtKind::Loop { do_while, .. } => if *do_while {
                self.gen_do(env, stmt)
            } else {
                self.gen_for(env, stmt)
            },
            StmtKind::If { .. } => self.gen_if(env, stmt),
            StmtKind::Switch { .. } => self.gen_switch(env, stmt),
            StmtKind::Block(stmts) => self.gen_stmts(env, stmts),
            StmtKind::Jump { label: Some(label), .. } => {
                self.puts("  jmp .L..");
                self.putd(*label as i128);
                self.nl();
                Ok(())
            },
            StmtKind::Jump { label: None, .. } => Err(Error::Overflow),
            StmtKind::Label { label, body, .. } => {
                self.puts(".L..");
                self.putd(*label as i128);
                self.puts(":");
                self.nl();
                self.gen_stmt(env, body)
            },
            StmtKind::MemzeroLocal(id) => self.memzero_local(env, *id),
        }
    }

    /// Generate assembly for statements in order.
    fn gen_stmts(&mut self, env: &GenInfo, stmts: &StmtList) -> (r: Result<(), Error>)
        requires
            env.wf(),
        ensures
            gen_stmts(env@, old(self)@, *stmts) == outcome(r, final(self)@),
        decreases stmts, 2int,
    {
        assert(gen_stmts(env@, self@, *stmts) == gen_stmts_rule(env@, self@, *stmts));
        match stmts {
            StmtList::Nil => Ok(()),
            StmtList::Cons(stmt, tail) => {
                self.gen_stmt(env, stmt)?;
                self.gen_stmts(env, tail)
            },
        }
    }

    /// Generate assembly for a return statement.
    fn gen_return(&mut self, env: &GenInfo, expr: &Option<Node>) -> (r: Result<(), Error>)
        requires
            env.wf(),
        ensures
            gen_return(env@, old(self)@, *expr) == outcome(r, final(self)@),
        decreases expr, 2int,
    {
        assert(gen_return(env@, self@, *expr) == gen_return_rule(env@, self@, *expr));
        if let Some(expr) = expr {
            self.gen_expr(env, expr)?;
            self.return_aggregate(env, expr.known_ty())?;
        }
        self.puts("  jmp .L.return.");
        self.put_name(env, Name::Ident(env.function_name()));
        self.nl();
        Ok(())
    }

    /// Generate assembly for an optional expression.
    fn gen_opt(&mut self, env: &GenInfo, expr: &Option<Node>) -> (r: Result<(), Error>)
        requires
            env.wf(),
        ensures
            gen_opt(env@, old(self)@, *expr) == outcome(r, final(self)@),
        decreases expr, 1int,
    {
        assert(gen_opt(env@, self@, *expr) == gen_opt_rule(env@, self@, *expr));
        match expr {
            None => Ok(()),
            Some(expr) => self.gen_expr(env, expr),
        }
    }

    /// Generate assembly for an optional statement.
    fn gen_opt_stmt(&mut self, env: &GenInfo, stmt: &Option<Box<Stmt>>) -> (r: Result<(), Error>)
        requires
            env.wf(),
        ensures
            gen_opt_stmt(env@, old(self)@, *stmt) == outcome(r, final(self)@),
        decreases stmt, 1int,
    {
        assert(gen_opt_stmt(env@, self@, *stmt) == gen_opt_stmt_rule(env@, self@, *stmt));
        match stmt {
            None => Ok(()),
            Some(stmt) => self.gen_stmt(env, stmt),
        }
    }

    /// Generate assembly for the condition of a loop.
    fn gen_loop_cond(
        &mut self,
        env: &GenInfo,
        cond: &Option<Node>,
        brk_label: usize,
    ) -> (r: Result<(), Error>)
        requires
            env.wf(),
        ensures
            gen_loop_cond(env@, old(self)@, *cond, brk_label) == outcome(r, final(self)@),
        decreases cond, 1int,
    {
        assert(gen_loop_cond(
            env@,
            self@,
            *cond,
            brk_label,
        ) == gen_loop_cond_rule(env@, self@, *cond, brk_label));
        match cond {
            None => Ok(()),
            Some(cond) => {
                let ty = cond.known_ty();
                self.gen_expr(env, cond)?;
                self.compare_zero(env, ty);
                self.jump_if_zero(env, ty, ".L..", brk_label)
            },
        }
    }

    /// Generate assembly for a for-loop or while-loop.
    fn gen_for(&mut self, env: &GenInfo, stmt: &Stmt) -> (r: Result<(), Error>)
        requires
            env.wf(),
        ensures
            gen_for(env@, old(self)@, *stmt) == outcome(r, final(self)@),
        decreases stmt, 1int,
    {
        assert(gen_for(env@, self@, *stmt) == gen_for_rule(env@, self@, *stmt));
        match &stmt.kind {
            StmtKind::Loop { init, cond, inc, body, do_while: _, brk_label, cont_label } => {
                let label: usize = self.take_label()?;
                self.gen_opt_stmt(env, init)?;
                self.puts(".L.begin.");
                self.putd(label as i128);
                self.puts(":");
                self.nl();
                self.gen_loop_cond(env, cond, *brk_label)?;
                self.gen_stmt(env, body)?;
                self.puts(".L..");
                self.putd(*cont_label as i128);
                self.puts(":");
                self.nl();
                self.gen_opt(env, inc)?;
                self.puts("  jmp .L.begin.");
                self.putd(label as i128);
                self.nl();
                self.puts(".L..");
                self.putd(*brk_label as i128);
                self.puts(":");
                self.nl();
                Ok(())
            },
            _ => Err(Error::Overflow),
        }
    }

    /// Generate assembly for a do-while loop.
    fn gen_do(&mut self, env: &GenInfo, stmt: &Stmt) -> (r: Result<(), Error>)
        requires
            env.wf(),
        ensures
            gen_do(env@, old(self)@, *stmt) == outcome(r, final(self)@),
        decreases stmt, 1int,
    {
        assert(gen_do(env@, self@, *stmt) == gen_do_rule(env@, self@, *stmt));
        match &stmt.kind {
            StmtKind::Loop {
                init: _,
                cond: Some(cond),
                inc: _,
                body,
                do_while: _,
                brk_label,
                cont_label,
            } => {
                let ty = cond.known_ty();
                let label: usize = self.take_label()?;
                self.puts(".L.begin.");
                self.putd(label as i128);
                self.puts(":");
                self.nl();
                self.gen_stmt(env, body)?;
                self.puts(".L..");
                self.putd(*cont_label as i128);
                self.puts(":");
                self.nl();
                self.gen_expr(env, cond)?;
                self.compare_zero(env, ty);
                self.jump_if_nonzero(env, ty, ".L.begin.", label);
                self.puts(".L..");
                self.putd(*brk_label as i128);
                self.puts(":");
                self.nl();
                Ok(())
            },
            _ => Err(Error::Overflow),
        }
    }

    /// Generate assembly for an if statement.
    fn gen_if(&mut self, env: &GenInfo, stmt: &Stmt) -> (r: Result<(), Error>)
        requires
            env.wf(),
        ensures
            gen_if(env@, old(self)@, *stmt) == outcome(r, final(self)@),
        decreases stmt, 1int,
    {
        assert(gen_if(env@, self@, *stmt) == gen_if_rule(env@, self@, *stmt));
        match &stmt.kind {
            StmtKind::If { cond, then_branch, else_branch } => {
                let ty = cond.known_ty();
                let label: usize = self.take_label()?;
                self.gen_expr(env, cond)?;
                self.compare_zero(env, ty);
                self.jump_if_zero(env, ty, ".L.else.", label)?;
                self.gen_stmt(env, then_branch)?;
                self.puts("  jmp .L.end.");
                self.putd(label as i128);
                self.nl();
                self.puts(".L.else.");
                self.putd(label as i128);
                self.puts(":");
                self.nl();
                self.gen_opt_stmt(env, else_branch)?;
                self.puts(".L.end.");
                self.putd(label as i128);
                self.puts(":");
                self.nl();
                Ok(())
            },
            _ => Err(Error::Overflow),
        }
    }

    /// Generate the jumps to the cases of a switch.
    fn gen_cases(&mut self, cases: &CaseList, acc: &str)
        ensures
            gen_cases(old(self)@, *cases, acc) == final(self)@,
        decreases cases,
    {
        match cases {
            CaseList::Nil => {},
            CaseList::Cons(case, tail) => {
                let bits: i64 = crate::parse::eval::bits_as_signed(case.value.int_bits());
                self.puts("  cmp $");
                self.putd(bits as i128);
                self.puts(", ");
                self.puts(acc);
                self.nl();
                self.puts("  je .L..");
                self.putd(case.label as i128);
                self.nl();
                self.gen_cases(tail, acc);
            },
        }
    }

    /// Generate assembly for a switch statement.
    fn gen_switch(&mut self, env: &GenInfo, stmt: &Stmt) -> (r: Result<(), Error>)
        requires
            env.wf(),
        ensures
            gen_switch(env@, old(self)@, *stmt) == outcome(r, final(self)@),
        decreases stmt, 1int,
    {
        assert(gen_switch(env@, self@, *stmt) == gen_switch_rule(env@, self@, *stmt));
        match &stmt.kind {
            StmtKind::Switch { cond, body, cases, default, brk_label } => {
                self.gen_expr(env, cond)?;
                let width = ScalarWidth::from_promoted_binary_type(cond.known_ty(), env);
                self.gen_cases(cases, width.acc_reg());
                if let Some(label) = default {
                    self.puts("  jmp .L..");
                    self.putd(*label as i128);
                    self.nl();
                }
                self.puts("  jmp .L..");
                self.putd(*brk_label as i128);
                self.nl();
                self.gen_stmt(env, body)?;
                self.puts(".L..");
                self.putd(*brk_label as i128);
                self.puts(":");
                self.nl();
                Ok(())
            },
            _ => Err(Error::Overflow),
        }
    }

}

/// Return the alignment of a variable, which for large arrays is at least 16.
fn align_of_variable(types: &TypeStore, align: Option<u64>, ty: Type) -> (r: u64)
    ensures
        r == variable_align(types@, align, ty),
{
    let natural: u64 = types.eff_align(align, ty);
    if types.as_array(ty).is_some() && types.size(ty) >= 16 && natural < 16 {
        // Array of at least 16 bytes must be aligned to at least
        // 16-byte boundaries per AMD64 System V ABI rules
        16
    } else {
        natural
    }
}

/// Assign offsets to pass-by-stack parameters.
fn assign_param_offsets(types: &TypeStore, locals: &mut Vec<LocalVar>, params: &Vec<usize>) -> (r:
    Result<(), Error>)
    ensures
        place_params(types@, old(locals)@, params@, 0, 16, no_regs()) == (match r {
            Ok(_) => Ok::<Seq<LocalVar>, Error>(final(locals)@),
            Err(e) => Err(e),
        }),
        final(locals)@.len() == old(locals)@.len(),
{
    let mut top: u64 = 16;
    let mut rindex = ArgRegIndex { fp: 0, gp: 0 };
    let mut k: usize = 0;
    while k < params.len()
        invariant
            k <= params.len(),
            top <= i64::MAX,
            rindex.gp <= MAX_GP_ARG_REGS,
            rindex.fp <= MAX_FP_ARG_REGS,
            locals@.len() == old(locals)@.len(),
            place_params(types@, old(locals)@, params@, 0, 16, no_regs()) == place_params(
                types@,
                locals@,
                params@,
                k as int,
                top as int,
                rindex,
            ),
        decreases params.len() - k,
    {
        let id: usize = params[k];
        if id >= locals.len() {
            return Err(Error::Overflow);
        }
        let mut local = locals[id];
        let regs = arg_regs_of(types, local.ty, &mut rindex);
        if matches!(regs, ArgRegs::Stack) {
            proof {
                crate::utils::align_up_is_least_multiple(top as int, 8);
            }
            let start: u64 = crate::utils::align_up_to(top, 8);
            let size: u64 = types.size(local.ty);
            let end: u64 = match start.checked_add(size) {
                Some(end) => end,
                None => return Err(Error::Overflow),
            };
            if end > i64::MAX as u64 {
                return Err(Error::Overflow);
            }
            local.offset = start as i64;
            locals.set(id, local);
            top = end;
        }
        k += 1;
    }
    Ok(())
}

/// Assign offsets to register-passed parameters and local variables.
fn assign_local_offsets(types: &TypeStore, locals: &mut Vec<LocalVar>) -> (r: Result<u64, Error>)
    ensures
        place_locals(types@, old(locals)@, old(locals)@.len(), 0) == (match r {
            Ok(bottom) => Ok::<(Seq<LocalVar>, int), Error>((final(locals)@, bottom as int)),
            Err(e) => Err(e),
        }),
        r is Ok ==> r->Ok_0 <= i64::MAX,
{
    let mut bottom: u64 = 0;
    let mut n: usize = locals.len();
    while n > 0
        invariant
            n <= locals@.len(),
            bottom <= i64::MAX,
            place_locals(types@, old(locals)@, old(locals)@.len(), 0) == place_locals(
                types@,
                locals@,
                n as nat,
                bottom as int,
            ),
        decreases n,
    {
        let mut local = locals[n - 1];
        if local.offset == 0 {
            let align: u64 = align_of_variable(types, local.align, local.ty);
            if align == 0 {
                return Err(Error::Overflow);
            }
            let size: u64 = types.size(local.ty);
            proof {
                crate::utils::align_up_is_least_multiple(bottom + size, align as int);
            }
            let Some(sum) = bottom.checked_add(size) else {
                return Err(Error::Overflow);
            };
            let Some(end) = checked_align_up_to(sum, align) else {
                return Err(Error::Overflow);
            };
            if end > i64::MAX as u64 {
                return Err(Error::Overflow);
            }
            local.offset = 0 - end as i64;
            locals.set(n - 1, local);
            bottom = end;
        }
        n -= 1;
    }
    Ok(bottom)
}

/// Assign frame offsets to parameters and locals.
///
/// Returns the total size of the stack frame in bytes, 16-byte aligned.
pub fn assign_lvar_offsets(types: &TypeStore, locals: &mut Vec<LocalVar>, params: &Vec<usize>) -> (r:
    Result<u64, Error>)
    ensures
        frame(types@, old(locals)@, params@) == (match r {
            Ok(size) => Ok::<(Seq<LocalVar>, int), Error>((final(locals)@, size as int)),
            Err(e) => Err(e),
        }),
{
    proof {
        reveal(frame);
    }
    assign_param_offsets(types, locals, params)?;
    let bottom: u64 = assign_local_offsets(types, locals)?;
    proof {
        crate::utils::align_up_is_least_multiple(bottom as int, 16);
    }
    Ok(crate::utils::align_up_to(bottom, 16))
}

fn copy_locals(locals: &Vec<LocalVar>) -> (r: Vec<LocalVar>)
    ensures
        r@ == locals@,
{
    let mut out: Vec<LocalVar> = Vec::new();
    let mut i: usize = 0;
    while i < locals.len()
        invariant
            i <= locals.len(),
            out@ == locals@.take(i as int),
        decreases locals.len() - i,
    {
        out.push(locals[i]);
        i += 1;
        assert(locals@.take(i as int) =~= locals@.take(i - 1).push(locals@[i - 1]));
    }
    assert(locals@.take(locals@.len() as int) =~= locals@);
    out
}

impl Emitter {
    /// Store an incoming argument register to its stack slot.
    fn store_arg(&mut self, is_fp: bool, rindex: &mut ArgRegIndex, offset: i64, size: u64) -> (r:
        Result<(), Error>)
        ensures
            store_arg(old(self)@, is_fp, *old(rindex), offset as int, size) == (match r {
                Ok(_) => Ok::<(Gen, ArgRegIndex), Error>((final(self)@, *final(rindex))),
                Err(e) => Err(e),
            }),
    {
        proof {
            reveal(store_arg);
        }
        if offset as i128 + size as i128 > i64::MAX as i128 {
            return Err(Error::Overflow);
        }
        if is_fp {
            if (size != 4 && size != 8) || rindex.fp == usize::MAX {
                return Err(Error::Overflow);
            }
            self.puts("  movs");
            self.puts(fp_mnemonic_sz_from_size(size));
            self.puts(" %xmm");
            self.putd(rindex.fp as i128);
            self.puts(", ");
            self.putd(offset as i128);
            self.puts("(%rbp)");
            self.nl();
            rindex.fp += 1;
            return Ok(());
        }
        if rindex.gp >= MAX_GP_ARG_REGS {
            return Err(Error::Overflow);
        }
        if let Some(width) = ScalarWidth::from_size(size) {
            self.puts("  mov ");
            self.puts(width.gp_arg_reg(rindex.gp));
            self.puts(", ");
            self.putd(offset as i128);
            self.puts("(%rbp)");
            self.nl();
            rindex.gp += 1;
            return Ok(());
        }
        // Not trivially representable with a single instruction, so we take the
        // dumb (and inefficient) approach of storing byte by byte
        let index: usize = rindex.gp;
        let mut off: i128 = offset as i128;
        let end: i128 = offset as i128 + size as i128;
        while off < end
            invariant
                i64::MIN <= off <= end || off == offset,
                offset <= off,
                end == offset + size,
                end <= i64::MAX,
                spill_bytes(old(self)@, offset as int, end as int, index) == spill_bytes(
                    self@,
                    off as int,
                    end as int,
                    index,
                ),
            decreases end - off,
        {
            self.puts("  mov ");
            self.puts(gp_arg_reg_8(index));
            self.puts(", ");
            self.putd(off as i128);
            self.puts("(%rbp)");
            self.nl();
            self.puts("  shr $8, ");
            self.puts(gp_arg_reg_64(index));
            self.nl();
            off += 1;
        }
        rindex.gp += 1;
        Ok(())
    }

    fn store_param(&mut self, env: &GenInfo, local: LocalVar, rindex: &mut ArgRegIndex) -> (r: Result<
        (),
        Error,
    >)
        requires
            env.wf(),
        ensures
            store_param(env@, old(self)@, local, *old(rindex)) == (match r {
                Ok(_) => Ok::<(Gen, ArgRegIndex), Error>((final(self)@, *final(rindex))),
                Err(e) => Err(e),
            }),
    {
        proof {
            reveal(store_param);
        }
        if local.offset > 0 {
            return Ok(());
        }
        let size: u64 = env.size(local.ty);
        if !env.is_struct_or_union(local.ty) {
            return self.store_arg(local.ty.is_flonum(), rindex, local.offset, size);
        }
        // For struct or union arguments, bytes 0..8 and 8..16 are two
        // separate chunks that may be passed in registers; remaining
        // bytes are passed on stack so we don't care about them here
        let first: u64 = if size < 8 {
            size
        } else {
            8
        };
        self.store_arg(env.is_fp_chunk(local.ty, 0, 8), rindex, local.offset, first)?;
        if size > 8 {
            self.store_arg(
                env.is_fp_chunk(local.ty, 8, 16),
                rindex,
                local.offset + 8,
                size - 8,
            )?;
        }
        Ok(())
    }

    fn store_params(&mut self, env: &GenInfo, params: &Vec<usize>) -> (r: Result<(), Error>)
        requires
            env.wf(),
        ensures
            store_params(env@, old(self)@, params@, 0, no_regs()) == outcome(r, final(self)@),
    {
        let mut rindex = ArgRegIndex { fp: 0, gp: 0 };
        let mut k: usize = 0;
        while k < params.len()
            invariant
                env.wf(),
                k <= params.len(),
                store_params(env@, old(self)@, params@, 0, no_regs()) == store_params(
                    env@,
                    self@,
                    params@,
                    k as int,
                    rindex,
                ),
            decreases params.len() - k,
        {
            let local = env.local(params[k])?;
            self.store_param(env, local, &mut rindex)?;
            k += 1;
        }
        Ok(())
    }

    fn fill_va_area(
        &mut self,
        env: &GenInfo,
        params: &Vec<usize>,
        id: usize,
    ) -> (r: Result<(), Error>)
        requires
            env.wf(),
        ensures
            fill_va_area(env@, old(self)@, params@, id) == outcome(r, final(self)@),
    {
        proof {
            reveal(fill_va_area);
        }
        let offset: i64 = env.local_offset(id)?;
        if offset > i64::MAX - 200 || params.len() as u64 > 0xffff_ffff {
            return Err(Error::Overflow);
        }
        let fp: u64 = env.count_fp_params(params);
        let gp: u64 = params.len() as u64 - fp;
        // __va_elem
        self.puts("  movl $");
        self.putd((gp * 8) as i128);
        self.puts(", ");
        self.putd(offset as i128);
        self.puts("(%rbp)");
        self.nl();
        self.puts("  movl $");
        self.putd((fp * 8 + 48) as i128);
        self.puts(", ");
        self.putd((offset + 4) as i128);
        self.puts("(%rbp)");
        self.nl();
        self.puts("  movq %rbp, ");
        self.putd((offset + 8) as i128);
        self.puts("(%rbp)");
        self.nl();
        self.puts("  addq $16, ");
        self.putd((offset + 8) as i128);
        self.puts("(%rbp)");
        self.nl();
        self.puts("  movq %rbp, ");
        self.putd((offset + 16) as i128);
        self.puts("(%rbp)");
        self.nl();
        self.puts("  addq $");
        self.putd((offset + 24) as i128);
        self.puts(", ");
        self.putd((offset + 16) as i128);
        self.puts("(%rbp)");
        self.nl();
        // __va_elem.reg_save_area
        self.puts("  movq %rdi, ");
        self.putd((offset + 24) as i128);
        self.puts("(%rbp)");
        self.nl();
        self.puts("  movq %rsi, ");
        self.putd((offset + 32) as i128);
        self.puts("(%rbp)");
        self.nl();
        self.puts("  movq %rdx, ");
        self.putd((offset + 40) as i128);
        self.puts("(%rbp)");
        self.nl();
        self.puts("  movq %rcx, ");
        self.putd((offset + 48) as i128);
        self.puts("(%rbp)");
        self.nl();
        self.puts("  movq %r8, ");
        self.putd((offset + 56) as i128);
        self.puts("(%rbp)");
        self.nl();
        self.puts("  movq %r9, ");
        self.putd((offset + 64) as i128);
        self.puts("(%rbp)");
        self.nl();
        self.puts("  movsd %xmm0, ");
        self.putd((offset + 72) as i128);
        self.puts("(%rbp)");
        self.nl();
        self.puts("  movsd %xmm1, ");
        self.putd((offset + 80) as i128);
        self.puts("(%rbp)");
        self.nl();
        self.puts("  movsd %xmm2, ");
        self.putd((offset + 88) as i128);
        self.puts("(%rbp)");
        self.nl();
        self.puts("  movsd %xmm3, ");
        self.putd((offset + 96) as i128);
        self.puts("(%rbp)");
        self.nl();
        self.puts("  movsd %xmm4, ");
        self.putd((offset + 104) as i128);
        self.puts("(%rbp)");
        self.nl();
        self.puts("  movsd %xmm5, ");
        self.putd((offset + 112) as i128);
        self.puts("(%rbp)");
        self.nl();
        self.puts("  movsd %xmm6, ");
        self.putd((offset + 120) as i128);
        self.puts("(%rbp)");
        self.nl();
        self.puts("  movsd %xmm7, ");
        self.putd((offset + 128) as i128);
        self.puts("(%rbp)");
        self.nl();
        Ok(())
    }

    fn prologue(&mut self, env: &GenInfo, name: Symbol, is_static: bool, stack_size: u64)
        ensures
            prologue(env@, old(self)@, name, is_static, stack_size as int) == final(self)@,
    {
        proof {
            reveal(prologue);
        }
        if is_static {
            self.puts("  .local ");
            self.put_name(env, Name::Ident(name));
            self.nl();
        } else {
            self.puts("  .globl ");
            self.put_name(env, Name::Ident(name));
            self.nl();
        }
        self.puts("  .text");
        self.nl();
        self.put_name(env, Name::Ident(name));
        self.puts(":");
        self.nl();
        self.puts("  push %rbp");
        self.nl();
        self.puts("  mov %rsp, %rbp");
        self.nl();
        self.puts("  sub $");
        self.putd(stack_size as i128);
        self.puts(", %rsp");
        self.nl();
    }

    fn epilogue(&mut self, env: &GenInfo, name: Symbol)
        ensures
            epilogue(env@, old(self)@, name) == final(self)@,
    {
        proof {
            reveal(epilogue);
        }
        if env.is_main(name) {
            // Per C spec, reaching the end of the main function is equivalent
            // to returning 0
            self.puts("  mov $0, %rax");
            self.nl();
        }
        self.puts(".L.return.");
        self.put_name(env, Name::Ident(name));
        self.puts(":");
        self.nl();
        self.puts("  mov %rbp, %rsp");
        self.nl();
        self.puts("  pop %rbp");
        self.nl();
        self.puts("  ret");
        self.nl();
    }

    fn gen_bytes(&mut self, bytes: &Vec<u8>, pos: usize, end: usize) -> (r: Result<(), Error>)
        ensures
            gen_bytes(old(self)@, bytes@, pos as int, end as int) == outcome(r, final(self)@),
    {
        let mut at: usize = pos;
        while at < end
            invariant
                pos <= at,
                at <= end || at == pos,
                gen_bytes(old(self)@, bytes@, pos as int, end as int) == gen_bytes(
                    self@,
                    bytes@,
                    at as int,
                    end as int,
                ),
            decreases end - at,
        {
            if at >= bytes.len() {
                return Err(Error::Overflow);
            }
            self.puts("  .byte ");
            self.putd(bytes[at] as i128);
            self.nl();
            at += 1;
        }
        Ok(())
    }

    fn gen_reloc(&mut self, env: &GenInfo, reloc: Relocation)
        ensures
            gen_reloc(env@, old(self)@, reloc) == final(self)@,
    {
        proof {
            reveal(gen_reloc);
        }
        if reloc.addend == 0 {
            self.puts("  .quad ");
            self.put_name(env, reloc.label);
            self.nl();
        } else if reloc.addend > 0 {
            self.puts("  .quad ");
            self.put_name(env, reloc.label);
            self.puts("+");
            self.putd(reloc.addend as i128);
            self.nl();
        } else {
            self.puts("  .quad ");
            self.put_name(env, reloc.label);
            self.putd(reloc.addend as i128);
            self.nl();
        }
    }

    fn gen_data(&mut self, env: &GenInfo, data: &GlobalInitData) -> (r: Result<(), Error>)
        ensures
            gen_data(env@, old(self)@, data.bytes@, data.relocations@, 0, 0) == outcome(
                r,
                final(self)@,
            ),
    {
        let mut pos: usize = 0;
        let mut k: usize = 0;
        while k < data.relocations.len()
            invariant
                k <= data.relocations.len(),
                gen_data(env@, old(self)@, data.bytes@, data.relocations@, 0, 0) == gen_data(
                    env@,
                    self@,
                    data.bytes@,
                    data.relocations@,
                    k as int,
                    pos as int,
                ),
            decreases data.relocations.len() - k,
        {
            let reloc = data.relocations[k];
            self.gen_bytes(&data.bytes, pos, reloc.offset)?;
            if pos < reloc.offset {
                pos = reloc.offset;
            }
            if pos > usize::MAX - 8 {
                return Err(Error::Overflow);
            }
            self.gen_reloc(env, reloc);
            pos += 8;
            k += 1;
        }
        self.gen_bytes(&data.bytes, pos, data.bytes.len())
    }

    fn global_header(&mut self, env: &GenInfo, global: &GlobalVar, section: &str)
        ensures
            global_header(env@, old(self)@, global@, section) == final(self)@,
    {
        proof {
            reveal(global_header);
            reveal(GenInfo::view);
        }
        if global.is_static {
            self.puts("  .local ");
            self.put_name(env, global.name);
            self.nl();
        } else {
            self.puts("  .globl ");
            self.put_name(env, global.name);
            self.nl();
        }
        let align: u64 = align_of_variable(&env.types, global.align, global.ty);
        self.puts(section);
        self.nl();
        self.puts("  .align ");
        self.putd(align as i128);
        self.nl();
        self.put_name(env, global.name);
        self.puts(":");
        self.nl();
    }

    fn gen_global(&mut self, env: &GenInfo, global: &GlobalVar) -> (r: Result<(), Error>)
        ensures
            gen_global(env@, old(self)@, global@) == outcome(r, final(self)@),
    {
        proof {
            reveal(gen_global);
        }
        match &global.storage {
            GlobalStorage::Decl => Ok(()),
            GlobalStorage::Zero => {
                self.global_header(env, global, "  .bss");
                self.puts("  .zero ");
                self.putd(env.size(global.ty) as i128);
                self.nl();
                Ok(())
            },
            GlobalStorage::Data(data) => {
                self.global_header(env, global, "  .data");
                self.gen_data(env, data)
            },
        }
    }

    /// Generate assembly for global variables.
    fn gen_globals(&mut self, env: &GenInfo) -> (r: Result<(), Error>)
        ensures
            gen_globals(env@, old(self)@, 0) == outcome(r, final(self)@),
    {
        proof {
            reveal(GenInfo::view);
        }
        let mut k: usize = 0;
        while k < env.globals.len()
            invariant
                k <= env.globals.len(),
                env@.globals == global_views(env.globals@),
                gen_globals(env@, old(self)@, 0) == gen_globals(env@, self@, k as int),
            decreases env.globals.len() - k,
        {
            assert(env@.globals[k as int] == env.globals@[k as int]@);
            self.gen_global(env, &env.globals[k])?;
            k += 1;
        }
        Ok(())
    }

    fn gen_files(&mut self, source_map: &SourceMap)
        ensures
            gen_files(old(self)@, source_map@, 0) == final(self)@,
    {
        let mut k: usize = 0;
        while k < source_map.sources.len()
            invariant
                k <= source_map.sources.len(),
                gen_files(old(self)@, source_map@, 0) == gen_files(
                    self@,
                    source_map@,
                    k as int,
                ),
            decreases source_map.sources.len() - k,
        {
            let name = source_map.sources[k].name.as_str().as_bytes();
            assert(source_map@[k as int].name == source_map.sources@[k as int].name@);
            self.puts("  .file ");
            self.putd((k as i128 + 1) as i128);
            self.puts(" \"");
            self.putb(name);
            self.puts("\"");
            self.nl();
            k += 1;
        }
    }
}

/// A x86-64 assembly code generator.
pub struct Codegen<'a> {
    pub info: GenInfo<'a>,
    pub text: Emitter,
}

impl<'a> Codegen<'a> {
    /// Create a code generator over sources.
    pub fn new(source_map: &'a SourceMap, names: &'a Vec<Vec<u8>>, floats: &'a FloatTable) -> (r:
        Codegen<'a>)
        requires
            source_map.wf(),
        ensures
            r.info.wf(),
            r.info.source_map@ == source_map@,
            r.info.names@ == names@,
            r.info.floats@ == floats@,
            r.text@ == (Gen { out: Seq::empty(), next_label: 1, last_loc: None, depth: 0 }),
    {
        let text = Emitter { out: Vec::new(), next_label: 1, last_loc: None, depth: 0 };
        assert(text@.out =~= Seq::<u8>::empty());
        Codegen {
            info: GenInfo {
                source_map,
                names,
                floats,
                types: TypeStore::default(),
                functions: Vec::new(),
                globals: Vec::new(),
                function: FunctionState {
                    name: Symbol(0),
                    locals: Vec::new(),
                    ret_buf_local: None,
                },
            },
            text,
        }
    }

    /// Generate assembly for a function.
    fn gen_function(&mut self, function: &Function) -> (r: Result<(), Error>)
        requires
            old(self).info.wf(),
        ensures
            final(self).info.wf(),
            forall|f: FunctionView, locals: Seq<LocalVar>|
                function_env(final(self).info@, f, locals) == #[trigger] function_env(
                    old(self).info@,
                    f,
                    locals,
                ),
            gen_function(old(self).info@, old(self).text@, function@) == outcome(
                r,
                final(self).text@,
            ),
    {
        proof {
            reveal(gen_function);
            reveal(GenInfo::view);
        }
        let Some(body) = &function.body else {
            return Ok(());
        };
        let mut locals = copy_locals(&function.locals);
        let stack_size: u64 = assign_lvar_offsets(
            &self.info.types,
            &mut locals,
            &function.param_locals,
        )?;
        self.info.function = FunctionState {
            name: function.name,
            locals,
            ret_buf_local: function.ret_buf_local,
        };
        self.text.depth = 0;
        self.text.prologue(&self.info, function.name, function.is_static, stack_size);
        if let Some(id) = function.va_area_local {
            self.text.fill_va_area(&self.info, &function.param_locals, id)?;
        }
        self.text.store_params(&self.info, &function.param_locals)?;
        self.text.gen_stmt(&self.info, body)?;
        if self.text.depth != 0 {
            return Err(Error::Overflow);
        }
        self.text.epilogue(&self.info, function.name);
        Ok(())
    }

    /// Generate assembly for an entire [`Program`].
    pub fn generate(self, program: Program) -> (r: Result<Vec<u8>, Error>)
        requires
            self.info.wf(),
            self.text@ == (Gen { out: Seq::empty(), next_label: 1, last_loc: None, depth: 0 }),
        ensures
            generated(
                self.info.source_map@,
                name_views(self.info.names@),
                self.info.floats@,
                program@,
            ) == (match r {
                Ok(out) => Ok::<Gen, Error>(
                    Gen {
                        out: out@,
                        ..generated(
                            self.info.source_map@,
                            name_views(self.info.names@),
                            self.info.floats@,
                            program@,
                        )->Ok_0
                    },
                ),
                Err(e) => Err(e),
            }),
    {
        let mut this = self;
        let Program { types, functions, globals } = program;
        this.text.gen_files(this.info.source_map);
        this.info.types = types;
        this.info.types.frozen = true;
        this.info.functions = function_data_of(&functions);
        this.info.globals = globals;
        this.info.function = FunctionState {
            name: Symbol(0),
            locals: Vec::new(),
            ret_buf_local: None,
        };
        let ghost env = program_env(
            self.info.source_map@,
            name_views(self.info.names@),
            self.info.floats@,
            program@,
        );
        proof {
            reveal(GenInfo::view);
            assert(this.info.function.locals@ =~= Seq::<LocalVar>::empty());
            assert(this.info@ == env);
        }
        this.text.gen_globals(&this.info)?;
        let ghost whole = generated(
            self.info.source_map@,
            name_views(self.info.names@),
            self.info.floats@,
            program@,
        );
        let mut k: usize = 0;
        while k < functions.len()
            invariant
                this.info.wf(),
                k <= functions.len(),
                program@.functions == crate::ast::function_views(functions@),
                forall|f: FunctionView, locals: Seq<LocalVar>|
                    function_env(this.info@, f, locals) == #[trigger] function_env(env, f, locals),
                this.info@.types == env.types,
                whole == gen_functions(env, this.text@, program@.functions, k as int),
                whole == generated(
                    self.info.source_map@,
                    name_views(self.info.names@),
                    self.info.floats@,
                    program@,
                ),
            decreases functions.len() - k,
        {
            proof {
                assert(program@.functions[k as int] == functions@[k as int]@);
                same_function_text(this.info@, env, this.text@, functions@[k as int]@);
            }
            let ghost before = this.info@;
            this.gen_function(&functions[k])?;
            proof {
                let f = functions@[k as int]@;
                assert(function_env(this.info@, f, f.locals) == function_env(before, f, f.locals));
                assert(function_env(before, f, f.locals) == function_env(env, f, f.locals));
            }
            k += 1;
        }
        Ok(this.text.out)
    }
}

/// The text of a function does not depend on which function came before it.
proof fn same_function_text(a: GenView, b: GenView, g: Gen, f: FunctionView)
    requires
        forall|f: FunctionView, locals: Seq<LocalVar>|
            function_env(a, f, locals) == #[trigger] function_env(b, f, locals),
        a.types == b.types,
    ensures
        gen_function(a, g, f) == gen_function(b, g, f),
{
    reveal(gen_function);
    match frame(a.types, f.locals, f.param_locals) {
        Ok((locals, _)) => {
            assert(function_env(a, f, locals) == function_env(b, f, locals));
        },
        Err(_) => {},
    }
}

fn function_data_of(functions: &Vec<Function>) -> (r: Vec<FunctionData>)
    ensures
        r@ == function_data(crate::ast::function_views(functions@)),
{
    let ghost want = function_data(crate::ast::function_views(functions@));
    let mut out: Vec<FunctionData> = Vec::new();
    let mut i: usize = 0;
    while i < functions.len()
        invariant
            i <= functions.len(),
            want == function_data(crate::ast::function_views(functions@)),
            out@ =~= want.take(i as int),
        decreases functions.len() - i,
    {
        let function = &functions[i];
        out.push(FunctionData { name: function.name, is_defined: function.body.is_some() });
        i += 1;
        assert(out@ =~= want.take(i as int));
    }
    assert(want.take(want.len() as int) =~= want);
    out
}

} // verus!
