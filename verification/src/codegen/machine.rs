//! The part of an x86-64 processor that generated code relies on: what the
//! instructions are written like, and what they do.

use vstd::prelude::*;
use vstd::arithmetic::power2::pow2;
use crate::codegen::text::{nl, putd, puts, Gen, ScalarWidth};

verus! {

/// A general-purpose register.
pub enum Reg {
    Rax,
    Rcx,
    Rdx,
    Rsi,
    Rdi,
    R8,
    R9,
    R10,
    Rsp,
    Rbp,
}

/// The name of a register, or of its low part of the given width.
pub open spec fn reg_name(reg: Reg, width: ScalarWidth) -> &'static str {
    match width {
        ScalarWidth::Byte => match reg {
            Reg::Rax => "%al",
            Reg::Rcx => "%cl",
            Reg::Rdx => "%dl",
            Reg::Rsi => "%sil",
            Reg::Rdi => "%dil",
            Reg::R8 => "%r8b",
            Reg::R9 => "%r9b",
            Reg::R10 => "%r10b",
            Reg::Rsp => "%spl",
            Reg::Rbp => "%bpl",
        },
        ScalarWidth::Word => match reg {
            Reg::Rax => "%ax",
            Reg::Rcx => "%cx",
            Reg::Rdx => "%dx",
            Reg::Rsi => "%si",
            Reg::Rdi => "%di",
            Reg::R8 => "%r8w",
            Reg::R9 => "%r9w",
            Reg::R10 => "%r10w",
            Reg::Rsp => "%sp",
            Reg::Rbp => "%bp",
        },
        ScalarWidth::Dword => match reg {
            Reg::Rax => "%eax",
            Reg::Rcx => "%ecx",
            Reg::Rdx => "%edx",
            Reg::Rsi => "%esi",
            Reg::Rdi => "%edi",
            Reg::R8 => "%r8d",
            Reg::R9 => "%r9d",
            Reg::R10 => "%r10d",
            Reg::Rsp => "%esp",
            Reg::Rbp => "%ebp",
        },
        ScalarWidth::Qword => match reg {
            Reg::Rax => "%rax",
            Reg::Rcx => "%rcx",
            Reg::Rdx => "%rdx",
            Reg::Rsi => "%rsi",
            Reg::Rdi => "%rdi",
            Reg::R8 => "%r8",
            Reg::R9 => "%r9",
            Reg::R10 => "%r10",
            Reg::Rsp => "%rsp",
            Reg::Rbp => "%rbp",
        },
    }
}

/// What a comparison leaves behind.
pub struct Flags {
    pub zero: bool,
    pub carry: bool,
    pub sign: bool,
    pub overflow: bool,
}

/// The state of the processor, and the memory.
///
/// Registers hold their bits as numbers from 0 on, the low 64 bits in the case of
/// the XMM registers.
pub struct Machine {
    pub regs: Map<Reg, int>,
    pub xmm: Map<int, int>,
    pub mem: Map<int, u8>,
    pub flags: Flags,
}

/// The number of values that fit a width.
pub open spec fn capacity(width: ScalarWidth) -> int {
    match width {
        ScalarWidth::Byte => 0x100,
        ScalarWidth::Word => 0x1_0000,
        ScalarWidth::Dword => 0x1_0000_0000,
        ScalarWidth::Qword => 0x1_0000_0000_0000_0000,
    }
}

/// Bits of a width read as a number in two's complement.
pub open spec fn signed(bits: int, width: ScalarWidth) -> int {
    if bits >= capacity(width) / 2 {
        bits - capacity(width)
    } else {
        bits
    }
}

/// The low bits of a register.
pub open spec fn read(m: Machine, reg: Reg, width: ScalarWidth) -> int {
    m.regs[reg] % capacity(width)
}

/// A register with its low bits set. Setting the low 32 bits clears the others.
pub open spec fn write(m: Machine, reg: Reg, width: ScalarWidth, bits: int) -> Machine {
    let value = match width {
        ScalarWidth::Byte | ScalarWidth::Word => m.regs[reg] - m.regs[reg] % capacity(width) + bits,
        ScalarWidth::Dword | ScalarWidth::Qword => bits,
    };
    Machine { regs: m.regs.insert(reg, value), ..m }
}

/// Every register holds 64 bits.
pub open spec fn machine_wf(m: Machine) -> bool {
    forall|reg: Reg| 0 <= #[trigger] m.regs[reg] < 0x1_0000_0000_0000_0000
}

/// The bytes from an address on, as a number whose low bits are in the first byte.
pub open spec fn bytes_at(mem: Map<int, u8>, address: int, n: int) -> int
    decreases n,
{
    if n <= 0 {
        0
    } else {
        mem[address] + 0x100 * bytes_at(mem, address + 1, n - 1)
    }
}

/// The memory with `n` bytes of a number stored from an address on, the low bits
/// first.
pub open spec fn stored_at(mem: Map<int, u8>, address: int, n: int, bits: int) -> Map<int, u8>
    decreases n,
{
    if n <= 0 {
        mem
    } else {
        stored_at(mem.insert(address, (bits % 0x100) as u8), address + 1, n - 1, bits / 0x100)
    }
}

/// The number of bytes in a width.
pub open spec fn byte_count(width: ScalarWidth) -> int {
    match width {
        ScalarWidth::Byte => 1,
        ScalarWidth::Word => 2,
        ScalarWidth::Dword => 4,
        ScalarWidth::Qword => 8,
    }
}

/// An operation on two registers that sets the second one.
pub enum AluOp {
    Add,
    Sub,
    Imul,
    And,
    Or,
    Xor,
}

pub enum ShiftOp {
    Shl,
    Shr,
    Sar,
}

/// A condition on what was compared.
pub enum Cond {
    E,
    Ne,
    B,
    Be,
    L,
    Le,
}

/// An instruction.
pub enum Instr {
    /// The second register operated on by the first one.
    Alu(AluOp, ScalarWidth, Reg, Reg),
    /// The second register compared with the first one.
    Cmp(ScalarWidth, Reg, Reg),
    /// `%rax` compared with zero.
    CmpZero(ScalarWidth),
    /// `%al` set to whether a condition holds.
    SetCond(Cond),
    /// `%al` widened without a sign, under one of its names.
    Movzb,
    MovzxLong,
    MovzxQuad,
    /// A part of `%rax` widened, with its sign if true.
    Extend(ScalarWidth, bool),
    /// The low half of `%rax` widened to all of it.
    Movsxd,
    /// The second register set to the first one.
    Mov(ScalarWidth, Reg, Reg),
    /// The same, for whole registers and for `%eax` in one word.
    MovRaxRdi,
    MovRdiRax,
    MovEaxEax,
    /// A register cleared.
    Clear(ScalarWidth, Reg),
    /// `%rax` shifted by `%cl`.
    Shift(ShiftOp, ScalarWidth),
    /// A register shifted by 8 to the left, or to the right.
    ShlByte(Reg),
    ShrByte(Reg),
    /// The sign of `%rax` spread over `%rdx`.
    Spread(ScalarWidth),
    /// `%rdx` and `%rax` together divided by `%rdi`, with signs if true.
    Divide(ScalarWidth, bool),
    Neg,
    Not,
    /// What `%rax` points to loaded into it, with its sign if true.
    Load(ScalarWidth, bool),
    /// `%rax` stored where `%rdi` points.
    Store(ScalarWidth),
    /// A byte loaded from an offset to `%rdi`, or to `%rax`.
    LoadByteRdi(int, Reg),
    LoadByteRax(int, Reg),
    /// A byte stored at an offset to `%rbp`, or to a register.
    StoreByteRbp(Reg, int),
    StoreByte(Reg, int, Reg),
    /// An XMM register loaded from an offset to `%rdi`, or stored at one to `%rbp`;
    /// 4 or 8 bytes.
    LoadXmm(bool, int, int),
    StoreXmm(bool, int, int),
    /// A register pushed, or popped.
    PushRax,
    Pop(Reg),
    /// The address at an offset to `%rbp`.
    Lea(int),
    /// `%rdi` loaded from an offset to `%rbp`.
    LoadRdiRbp(int),
    /// `%rax` compared with a number.
    CmpNumber(int, ScalarWidth),
    /// `%rax` shifted by a number of bits.
    ShiftBy(ShiftOp, int),
    /// A part of a register stored at an offset to `%rbp`.
    StoreRbp(ScalarWidth, Reg, int),
    /// `%rax` set to 0, or to 1.
    RaxZero,
    RaxOne,
    /// `%rax` set to a number, or moved on by one.
    RaxNumber(int),
    RaxAdd(int),
}

pub open spec fn alu_name(op: AluOp) -> &'static str {
    match op {
        AluOp::Add => "  add ",
        AluOp::Sub => "  sub ",
        AluOp::Imul => "  imul ",
        AluOp::And => "  and ",
        AluOp::Or => "  or ",
        AluOp::Xor => "  xor ",
    }
}

pub open spec fn set_text(cond: Cond) -> &'static str {
    match cond {
        Cond::E => "  sete %al",
        Cond::Ne => "  setne %al",
        Cond::B => "  setb %al",
        Cond::Be => "  setbe %al",
        Cond::L => "  setl %al",
        Cond::Le => "  setle %al",
    }
}

pub open spec fn extend_text(width: ScalarWidth, with_sign: bool) -> &'static str {
    match width {
        ScalarWidth::Byte => if with_sign {
            "  movsbl %al, %eax"
        } else {
            "  movzbl %al, %eax"
        },
        _ => if with_sign {
            "  movswl %ax, %eax"
        } else {
            "  movzwl %ax, %eax"
        },
    }
}

pub open spec fn shift_name(op: ShiftOp) -> &'static str {
    match op {
        ShiftOp::Shl => "  shl %cl, ",
        ShiftOp::Shr => "  shr %cl, ",
        ShiftOp::Sar => "  sar %cl, ",
    }
}

pub open spec fn load_name(width: ScalarWidth, with_sign: bool) -> &'static str {
    match width {
        ScalarWidth::Byte => if with_sign {
            "movsbl"
        } else {
            "movzbl"
        },
        ScalarWidth::Word => if with_sign {
            "movswl"
        } else {
            "movzwl"
        },
        ScalarWidth::Dword => if with_sign {
            "movsxd"
        } else {
            "mov"
        },
        ScalarWidth::Qword => "mov",
    }
}

/// The register that a load sets: the width of what is loaded follows from it
/// where the instruction does not tell.
pub open spec fn load_target(width: ScalarWidth, with_sign: bool) -> &'static str {
    match width {
        ScalarWidth::Byte | ScalarWidth::Word => "%eax",
        ScalarWidth::Dword => if with_sign {
            "%rax"
        } else {
            "%eax"
        },
        ScalarWidth::Qword => "%rax",
    }
}

/// The text with one more instruction.
pub open spec fn put_instr(g: Gen, instr: Instr) -> Gen {
    nl(
        match instr {
            Instr::Alu(op, width, src, dst) => puts(
                puts(puts(puts(g, alu_name(op)), reg_name(src, width)), ", "),
                reg_name(dst, width),
            ),
            Instr::Cmp(width, src, dst) => puts(
                puts(puts(puts(g, "  cmp "), reg_name(src, width)), ", "),
                reg_name(dst, width),
            ),
            Instr::CmpZero(width) => puts(
                g,
                if width == ScalarWidth::Dword {
                    "  cmp $0, %eax"
                } else {
                    "  cmp $0, %rax"
                },
            ),
            Instr::SetCond(cond) => puts(g, set_text(cond)),
            Instr::Movzb => puts(g, "  movzb %al, %rax"),
            Instr::MovzxLong => puts(g, "  movzx %al, %eax"),
            Instr::MovzxQuad => puts(g, "  movzx %al, %rax"),
            Instr::Extend(width, with_sign) => puts(g, extend_text(width, with_sign)),
            Instr::Movsxd => puts(g, "  movsxd %eax, %rax"),
            Instr::Mov(width, src, dst) => puts(
                puts(puts(puts(g, "  mov "), reg_name(src, width)), ", "),
                reg_name(dst, width),
            ),
            Instr::MovRaxRdi => puts(g, "  mov %rax, %rdi"),
            Instr::MovRdiRax => puts(g, "  mov %rdi, %rax"),
            Instr::MovEaxEax => puts(g, "  mov %eax, %eax"),
            Instr::Clear(width, reg) => puts(puts(g, "  mov $0, "), reg_name(reg, width)),
            Instr::Shift(op, width) => puts(puts(g, shift_name(op)), reg_name(Reg::Rax, width)),
            Instr::ShlByte(reg) => puts(puts(g, "  shl $8, "), reg_name(reg, ScalarWidth::Qword)),
            Instr::ShrByte(reg) => puts(puts(g, "  shr $8, "), reg_name(reg, ScalarWidth::Qword)),
            Instr::Spread(width) => puts(
                puts(g, "  "),
                if width == ScalarWidth::Dword {
                    "cdq"
                } else {
                    "cqo"
                },
            ),
            Instr::Divide(width, with_sign) => puts(
                puts(
                    g,
                    if with_sign {
                        "  idiv "
                    } else {
                        "  div "
                    },
                ),
                reg_name(Reg::Rdi, width),
            ),
            Instr::Neg => puts(g, "  neg %rax"),
            Instr::Not => puts(g, "  not %rax"),
            Instr::Load(width, with_sign) => puts(
                puts(puts(puts(g, "  "), load_name(width, with_sign)), " (%rax), "),
                load_target(width, with_sign),
            ),
            Instr::Store(width) => puts(
                puts(puts(g, "  mov "), reg_name(Reg::Rax, width)),
                ", (%rdi)",
            ),
            Instr::LoadByteRdi(offset, reg) => puts(
                puts(putd(puts(g, "  mov "), offset), "(%rdi), "),
                reg_name(reg, ScalarWidth::Byte),
            ),
            Instr::LoadByteRax(offset, reg) => puts(
                puts(putd(puts(g, "  mov "), offset), "(%rax), "),
                reg_name(reg, ScalarWidth::Byte),
            ),
            Instr::StoreByteRbp(reg, offset) => puts(
                putd(
                    puts(puts(puts(g, "  mov "), reg_name(reg, ScalarWidth::Byte)), ", "),
                    offset,
                ),
                "(%rbp)",
            ),
            Instr::StoreByte(reg, offset, base) => puts(
                puts(
                    puts(
                        putd(
                            puts(puts(puts(g, "  mov "), reg_name(reg, ScalarWidth::Byte)), ", "),
                            offset,
                        ),
                        "(",
                    ),
                    reg_name(base, ScalarWidth::Qword),
                ),
                ")",
            ),
            Instr::LoadXmm(is_double, offset, reg) => putd(
                puts(
                    putd(
                        puts(
                            puts(
                                puts(g, "  movs"),
                                if is_double {
                                    "d"
                                } else {
                                    "s"
                                },
                            ),
                            " ",
                        ),
                        offset,
                    ),
                    "(%rdi), %xmm",
                ),
                reg,
            ),
            Instr::StoreXmm(is_double, reg, offset) => puts(
                putd(
                    puts(
                        putd(
                            puts(
                                puts(
                                    puts(g, "  movs"),
                                    if is_double {
                                        "d"
                                    } else {
                                        "s"
                                    },
                                ),
                                " %xmm",
                            ),
                            reg,
                        ),
                        ", ",
                    ),
                    offset,
                ),
                "(%rbp)",
            ),
            Instr::PushRax => puts(g, "  push %rax"),
            Instr::Pop(reg) => puts(puts(g, "  pop "), reg_name(reg, ScalarWidth::Qword)),
            Instr::Lea(offset) => puts(putd(puts(g, "  lea "), offset), "(%rbp), %rax"),
            Instr::LoadRdiRbp(offset) => puts(putd(puts(g, "  mov "), offset), "(%rbp), %rdi"),
            Instr::CmpNumber(n, width) => puts(
                puts(putd(puts(g, "  cmp $"), n), ", "),
                reg_name(Reg::Rax, width),
            ),
            Instr::ShiftBy(op, n) => puts(
                putd(
                    puts(
                        g,
                        match op {
                            ShiftOp::Shl => "  shl $",
                            ShiftOp::Shr => "  shr $",
                            ShiftOp::Sar => "  sar $",
                        },
                    ),
                    n,
                ),
                ", %rax",
            ),
            Instr::StoreRbp(width, reg, offset) => puts(
                putd(puts(puts(puts(g, "  mov "), reg_name(reg, width)), ", "), offset),
                "(%rbp)",
            ),
            Instr::RaxZero => puts(g, "  mov $0, %rax"),
            Instr::RaxOne => puts(g, "  mov $1, %rax"),
            Instr::RaxNumber(n) => puts(putd(puts(g, "  mov $"), n), ", %rax"),
            Instr::RaxAdd(n) => puts(putd(puts(g, "  add $"), n), ", %rax"),
        },
    )
}

/// Subtraction that wraps around.
pub open spec fn wrapped_difference(a: int, b: int, width: ScalarWidth) -> int {
    if a >= b {
        a - b
    } else {
        a - b + capacity(width)
    }
}

/// What is known after `b` was subtracted from `a` to compare them.
pub open spec fn compared(a: int, b: int, width: ScalarWidth) -> Flags {
    let difference = signed(a, width) - signed(b, width);
    Flags {
        zero: a == b,
        carry: a < b,
        sign: signed(wrapped_difference(a, b, width), width) < 0,
        overflow: difference < -(capacity(width) / 2) || difference >= capacity(width) / 2,
    }
}

pub open spec fn holds(cond: Cond, flags: Flags) -> bool {
    match cond {
        Cond::E => flags.zero,
        Cond::Ne => !flags.zero,
        Cond::B => flags.carry,
        Cond::Be => flags.carry || flags.zero,
        Cond::L => flags.sign != flags.overflow,
        Cond::Le => flags.zero || flags.sign != flags.overflow,
    }
}

/// The first operand is the register that is set.
pub open spec fn alu(op: AluOp, a: int, b: int, width: ScalarWidth) -> int {
    match op {
        AluOp::Add => (a + b) % capacity(width),
        AluOp::Sub => wrapped_difference(a, b, width),
        AluOp::Imul => (a * b) % capacity(width),
        AluOp::And => ((a as u64) & (b as u64)) as int,
        AluOp::Or => ((a as u64) | (b as u64)) as int,
        AluOp::Xor => ((a as u64) ^ (b as u64)) as int,
    }
}

pub open spec fn shifted(op: ShiftOp, a: int, n: nat, width: ScalarWidth) -> int {
    match op {
        ShiftOp::Shl => (a * pow2(n)) % capacity(width),
        ShiftOp::Shr => a / (pow2(n) as int),
        ShiftOp::Sar => (signed(a, width) / (pow2(n) as int)) % capacity(width),
    }
}

/// Division that rounds toward zero.
pub open spec fn truncated(a: int, b: int) -> int {
    if a >= 0 && b > 0 {
        a / b
    } else if a >= 0 {
        -(a / (-b))
    } else if b > 0 {
        -((-a) / b)
    } else {
        (-a) / (-b)
    }
}

/// A division: `None` if it traps, since the divisor is zero or the quotient does
/// not fit.
pub open spec fn divided(m: Machine, width: ScalarWidth, with_sign: bool) -> Option<Machine> {
    let high = read(m, Reg::Rdx, width);
    let low = read(m, Reg::Rax, width);
    let by = read(m, Reg::Rdi, width);
    let a = if with_sign {
        signed(high, width) * capacity(width) + low
    } else {
        high * capacity(width) + low
    };
    let b = if with_sign {
        signed(by, width)
    } else {
        by
    };
    let q = truncated(a, b);
    let fits = if with_sign {
        -(capacity(width) / 2) <= q < capacity(width) / 2
    } else {
        q < capacity(width)
    };
    if b == 0 || !fits {
        None
    } else {
        Some(
            write(
                write(m, Reg::Rax, width, q % capacity(width)),
                Reg::Rdx,
                width,
                (a - q * b) % capacity(width),
            ),
        )
    }
}

/// What an instruction does; `None` if it traps.
pub open spec fn step(instr: Instr, m: Machine) -> Option<Machine> {
    match instr {
        Instr::Alu(op, width, src, dst) => Some(
            write(m, dst, width, alu(op, read(m, dst, width), read(m, src, width), width)),
        ),
        Instr::Cmp(width, src, dst) => Some(
            Machine { flags: compared(read(m, dst, width), read(m, src, width), width), ..m },
        ),
        Instr::CmpZero(width) => Some(
            Machine { flags: compared(read(m, Reg::Rax, width), 0, width), ..m },
        ),
        Instr::SetCond(cond) => Some(
            write(
                m,
                Reg::Rax,
                ScalarWidth::Byte,
                if holds(cond, m.flags) {
                    1
                } else {
                    0
                },
            ),
        ),
        Instr::Movzb | Instr::MovzxQuad | Instr::MovzxLong => Some(
            write(m, Reg::Rax, ScalarWidth::Qword, read(m, Reg::Rax, ScalarWidth::Byte)),
        ),
        Instr::Extend(width, with_sign) => {
            let bits = read(m, Reg::Rax, width);
            Some(
                write(
                    m,
                    Reg::Rax,
                    ScalarWidth::Dword,
                    if with_sign && signed(bits, width) < 0 {
                        signed(bits, width) + capacity(ScalarWidth::Dword)
                    } else {
                        bits
                    },
                ),
            )
        },
        Instr::Movsxd => {
            let v = signed(read(m, Reg::Rax, ScalarWidth::Dword), ScalarWidth::Dword);
            Some(
                write(
                    m,
                    Reg::Rax,
                    ScalarWidth::Qword,
                    if v < 0 {
                        v + capacity(ScalarWidth::Qword)
                    } else {
                        v
                    },
                ),
            )
        },
        Instr::Mov(width, src, dst) => Some(write(m, dst, width, read(m, src, width))),
        Instr::MovRaxRdi => Some(write(m, Reg::Rdi, ScalarWidth::Qword, m.regs[Reg::Rax])),
        Instr::MovRdiRax => Some(write(m, Reg::Rax, ScalarWidth::Qword, m.regs[Reg::Rdi])),
        Instr::MovEaxEax => Some(
            write(m, Reg::Rax, ScalarWidth::Dword, read(m, Reg::Rax, ScalarWidth::Dword)),
        ),
        Instr::Clear(width, reg) => Some(write(m, reg, width, 0)),
        Instr::Shift(op, width) => {
            let count = read(m, Reg::Rcx, ScalarWidth::Byte) % (if width == ScalarWidth::Qword {
                64
            } else {
                32
            });
            Some(
                write(
                    m,
                    Reg::Rax,
                    width,
                    shifted(op, read(m, Reg::Rax, width), count as nat, width),
                ),
            )
        },
        Instr::ShlByte(reg) => Some(
            write(
                m,
                reg,
                ScalarWidth::Qword,
                (m.regs[reg] * 0x100) % capacity(ScalarWidth::Qword),
            ),
        ),
        Instr::ShrByte(reg) => Some(write(m, reg, ScalarWidth::Qword, m.regs[reg] / 0x100)),
        Instr::Spread(width) => Some(
            write(
                m,
                Reg::Rdx,
                width,
                if signed(read(m, Reg::Rax, width), width) < 0 {
                    capacity(width) - 1
                } else {
                    0
                },
            ),
        ),
        Instr::Divide(width, with_sign) => divided(m, width, with_sign),
        Instr::Neg => Some(
            write(
                m,
                Reg::Rax,
                ScalarWidth::Qword,
                wrapped_difference(0, m.regs[Reg::Rax], ScalarWidth::Qword),
            ),
        ),
        Instr::Not => Some(
            write(
                m,
                Reg::Rax,
                ScalarWidth::Qword,
                capacity(ScalarWidth::Qword) - 1 - m.regs[Reg::Rax],
            ),
        ),
        Instr::Load(width, with_sign) => {
            let bits = bytes_at(m.mem, m.regs[Reg::Rax], byte_count(width));
            let to = match width {
                ScalarWidth::Byte | ScalarWidth::Word => ScalarWidth::Dword,
                _ => ScalarWidth::Qword,
            };
            Some(
                write(
                    m,
                    Reg::Rax,
                    to,
                    if with_sign && signed(bits, width) < 0 {
                        signed(bits, width) + capacity(to)
                    } else {
                        bits
                    },
                ),
            )
        },
        Instr::Store(width) => Some(
            Machine {
                mem: stored_at(
                    m.mem,
                    m.regs[Reg::Rdi],
                    byte_count(width),
                    read(m, Reg::Rax, width),
                ),
                ..m
            },
        ),
        Instr::LoadByteRdi(offset, reg) => Some(
            write(m, reg, ScalarWidth::Byte, m.mem[m.regs[Reg::Rdi] + offset] as int),
        ),
        Instr::LoadByteRax(offset, reg) => Some(
            write(m, reg, ScalarWidth::Byte, m.mem[m.regs[Reg::Rax] + offset] as int),
        ),
        Instr::StoreByteRbp(reg, offset) => Some(
            Machine {
                mem: m.mem.insert(
                    m.regs[Reg::Rbp] + offset,
                    read(m, reg, ScalarWidth::Byte) as u8,
                ),
                ..m
            },
        ),
        Instr::StoreByte(reg, offset, base) => Some(
            Machine {
                mem: m.mem.insert(m.regs[base] + offset, read(m, reg, ScalarWidth::Byte) as u8),
                ..m
            },
        ),
        Instr::LoadXmm(is_double, offset, reg) => Some(
            Machine {
                xmm: m.xmm.insert(
                    reg,
                    bytes_at(
                        m.mem,
                        m.regs[Reg::Rdi] + offset,
                        if is_double {
                            8
                        } else {
                            4
                        },
                    ),
                ),
                ..m
            },
        ),
        Instr::StoreXmm(is_double, reg, offset) => Some(
            Machine {
                mem: stored_at(
                    m.mem,
                    m.regs[Reg::Rbp] + offset,
                    if is_double {
                        8
                    } else {
                        4
                    },
                    m.xmm[reg],
                ),
                ..m
            },
        ),
        Instr::PushRax => {
            let top = m.regs[Reg::Rsp] - 8;
            Some(
                Machine {
                    regs: m.regs.insert(Reg::Rsp, top),
                    mem: stored_at(m.mem, top, 8, m.regs[Reg::Rax]),
                    ..m
                },
            )
        },
        Instr::Pop(reg) => {
            let top = m.regs[Reg::Rsp];
            Some(
                Machine {
                    regs: m.regs.insert(Reg::Rsp, top + 8).insert(reg, bytes_at(m.mem, top, 8)),
                    ..m
                },
            )
        },
        Instr::Lea(offset) => Some(
            Machine { regs: m.regs.insert(Reg::Rax, m.regs[Reg::Rbp] + offset), ..m },
        ),
        Instr::CmpNumber(n, width) => Some(
            Machine {
                flags: compared(read(m, Reg::Rax, width), n % capacity(width), width),
                ..m
            },
        ),
        Instr::ShiftBy(op, n) => Some(
            write(
                m,
                Reg::Rax,
                ScalarWidth::Qword,
                shifted(op, m.regs[Reg::Rax], (n % 64) as nat, ScalarWidth::Qword),
            ),
        ),
        Instr::StoreRbp(width, reg, offset) => Some(
            Machine {
                mem: stored_at(
                    m.mem,
                    m.regs[Reg::Rbp] + offset,
                    byte_count(width),
                    read(m, reg, width),
                ),
                ..m
            },
        ),
        Instr::RaxZero => Some(write(m, Reg::Rax, ScalarWidth::Qword, 0)),
        Instr::RaxOne => Some(write(m, Reg::Rax, ScalarWidth::Qword, 1)),
        Instr::RaxNumber(n) => Some(
            write(m, Reg::Rax, ScalarWidth::Qword, n % capacity(ScalarWidth::Qword)),
        ),
        Instr::RaxAdd(n) => Some(
            write(
                m,
                Reg::Rax,
                ScalarWidth::Qword,
                (m.regs[Reg::Rax] + n) % capacity(ScalarWidth::Qword),
            ),
        ),
        Instr::LoadRdiRbp(offset) => Some(
            write(
                m,
                Reg::Rdi,
                ScalarWidth::Qword,
                bytes_at(m.mem, m.regs[Reg::Rbp] + offset, 8),
            ),
        ),
    }
}

/// The text with some code behind it.
pub open spec fn written(g: Gen, code: Seq<Instr>) -> Gen
    decreases code.len(),
{
    if code.len() == 0 {
        g
    } else {
        put_instr(written(g, code.drop_last()), code.last())
    }
}

/// What some code does; `None` if it traps.
pub open spec fn run(code: Seq<Instr>, m: Machine) -> Option<Machine>
    decreases code.len(),
{
    if code.len() == 0 {
        Some(m)
    } else {
        match run(code.drop_last(), m) {
            None => None,
            Some(m) => step(code.last(), m),
        }
    }
}

/// Code is written, and run, one instruction after the other.
pub broadcast proof fn one_more_is_written(g: Gen, code: Seq<Instr>, instr: Instr)
    ensures
        #[trigger] written(g, code.push(instr)) == put_instr(written(g, code), instr),
{
    assert(code.push(instr).drop_last() =~= code);
}

pub broadcast proof fn one_more_is_run(code: Seq<Instr>, instr: Instr, m: Machine)
    ensures
        #[trigger] run(code.push(instr), m) == (match run(code, m) {
            None => None,
            Some(m) => step(instr, m),
        }),
{
    assert(code.push(instr).drop_last() =~= code);
}

pub open spec fn no_code() -> Seq<Instr> {
    Seq::empty()
}

pub broadcast group group_code {
    one_more_is_written,
    one_more_is_run,
}

} // verus!
