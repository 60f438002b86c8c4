//! Structs and unions arrive unchanged where they are returned to.

use vstd::prelude::*;
use vstd::arithmetic::div_mod::{lemma_mod_multiples_vanish, lemma_small_mod};
use crate::codegen::machine::{
    bytes_at, no_code, one_more_is_run, one_more_is_written, read, run, step, stored_at, written,
    Instr, Machine, Reg,
};
use crate::codegen::text::{
    chunk_size, gather_bytes, load_ret_chunk, no_regs, peel_bytes, return_aggregate,
    store_ret_chunk, store_ret_chunks, ArgRegIndex, Gen, GenView, ScalarWidth,
};
use crate::types::{chunk_in_fp, is_sou_ty, size_of, Type, Types};

verus! {

/// Code behind other code is written, and run, after it.
pub proof fn code_is_joined(g: Gen, first: Seq<Instr>, second: Seq<Instr>, m: Machine)
    ensures
        written(g, first + second) == written(written(g, first), second),
        run(first + second, m) == (match run(first, m) {
            None => None,
            Some(m) => run(second, m),
        }),
    decreases second.len(),
{
    if second.len() == 0 {
        assert(first + second =~= first);
    } else {
        let rest = second.drop_last();
        code_is_joined(g, first, rest, m);
        assert((first + second).drop_last() =~= first + rest);
        assert((first + second).last() == second.last());
    }
}

/// The number of values of some bytes.
pub open spec fn bytes_capacity(n: int) -> int
    decreases n,
{
    if n <= 0 {
        1
    } else {
        0x100 * bytes_capacity(n - 1)
    }
}

proof fn bytes_are_bounded(mem: Map<int, u8>, address: int, n: int)
    ensures
        0 <= bytes_at(mem, address, n) < bytes_capacity(n),
    decreases n,
{
    if n > 0 {
        bytes_are_bounded(mem, address + 1, n - 1);
    }
}

proof fn seven_bytes_leave_room(n: int)
    requires
        0 <= n <= 7,
    ensures
        0x100 * bytes_capacity(n) <= 0x1_0000_0000_0000_0000,
    decreases 7 - n,
{
    reveal_with_fuel(bytes_capacity, 9);
}

/// The register of a chunk of the class for integers: `%rax` first, and then
/// `%rdx`.
pub open spec fn integer_reg(index: usize) -> Reg {
    if index == 0 {
        Reg::Rax
    } else {
        Reg::Rdx
    }
}

/// The code that gathers bytes `0..i` from an offset to `%rdi`.
pub open spec fn gather_code(i: int, reg: Reg, lo: int) -> Seq<Instr>
    decreases i,
{
    if i <= 0 {
        no_code()
    } else {
        no_code().push(Instr::ShlByte(reg)).push(Instr::LoadByteRdi(lo + i - 1, reg))
            + gather_code(i - 1, reg, lo)
    }
}

proof fn gathering_is_written(g: Gen, i: int, index: usize, lo: int)
    requires
        index < 2,
    ensures
        gather_bytes(g, i, index, lo) == written(g, gather_code(i, integer_reg(index), lo)),
    decreases i,
{
    if i > 0 {
        let reg = integer_reg(index);
        let i1 = Instr::ShlByte(reg);
        let i2 = Instr::LoadByteRdi(lo + i - 1, reg);
        one_more_is_written(g, no_code(), i1);
        one_more_is_written(g, no_code().push(i1), i2);
        let g1 = written(g, no_code().push(i1).push(i2));
        gathering_is_written(g1, i - 1, index, lo);
        code_is_joined(
            g,
            no_code().push(i1).push(i2),
            gather_code(i - 1, reg, lo),
            arbitrary(),
        );
    }
}

/// Whether two machines differ in one general-purpose register only.
pub open spec fn only_sets(before: Machine, after: Machine, reg: Reg) -> bool {
    &&& after.mem == before.mem
    &&& after.xmm == before.xmm
    &&& forall|other: Reg| other != reg ==> #[trigger] after.regs[other] == before.regs[other]
}

proof fn gathering_gathers(m: Machine, i: int, size: int, reg: Reg, lo: int)
    requires
        0 <= i <= size <= 8,
        reg == Reg::Rax || reg == Reg::Rdx,
        m.regs[reg] == bytes_at(m.mem, m.regs[Reg::Rdi] + lo + i, size - i),
    ensures
        run(gather_code(i, reg, lo), m) is Some,
        only_sets(m, run(gather_code(i, reg, lo), m).unwrap(), reg),
        run(gather_code(i, reg, lo), m).unwrap().regs[reg] == bytes_at(
            m.mem,
            m.regs[Reg::Rdi] + lo,
            size,
        ),
    decreases i,
{
    if i > 0 {
        let from = m.regs[Reg::Rdi] + lo;
        let v = m.regs[reg];
        let i1 = Instr::ShlByte(reg);
        let i2 = Instr::LoadByteRdi(lo + i - 1, reg);
        let c = no_code().push(i1).push(i2);
        one_more_is_run(no_code(), i1, m);
        one_more_is_run(no_code().push(i1), i2, m);
        bytes_are_bounded(m.mem, from + i, size - i);
        seven_bytes_leave_room(size - i);
        lemma_small_mod((v * 0x100) as nat, 0x1_0000_0000_0000_0000);
        lemma_mod_multiples_vanish(v, 0, 0x100);
        let m1 = step(i1, m).unwrap();
        assert(m1.regs[reg] == v * 0x100);
        let m2 = step(i2, m1).unwrap();
        assert(m2.regs[reg] == v * 0x100 + m.mem[from + i - 1]);
        assert(run(c, m) == Some(m2));
        gathering_gathers(m2, i - 1, size, reg, lo);
        code_is_joined(arbitrary(), c, gather_code(i - 1, reg, lo), m);
    }
}

/// The code that peels bytes `i..size` off a register.
pub open spec fn peel_code(i: int, size: int, reg: Reg, dst: int) -> Seq<Instr>
    decreases size - i,
{
    if i >= size {
        no_code()
    } else {
        no_code().push(Instr::StoreByteRbp(reg, dst + i)).push(Instr::ShrByte(reg)) + peel_code(
            i + 1,
            size,
            reg,
            dst,
        )
    }
}

proof fn peeling_is_written(g: Gen, i: int, size: int, index: usize, dst: int)
    requires
        index < 2,
    ensures
        peel_bytes(g, i, size, index, dst) == written(
            g,
            peel_code(i, size, integer_reg(index), dst),
        ),
    decreases size - i,
{
    if i < size {
        let reg = integer_reg(index);
        let i1 = Instr::StoreByteRbp(reg, dst + i);
        let i2 = Instr::ShrByte(reg);
        one_more_is_written(g, no_code(), i1);
        one_more_is_written(g, no_code().push(i1), i2);
        let g1 = written(g, no_code().push(i1).push(i2));
        peeling_is_written(g1, i + 1, size, index, dst);
        code_is_joined(
            g,
            no_code().push(i1).push(i2),
            peel_code(i + 1, size, reg, dst),
            arbitrary(),
        );
    }
}

/// Whether two machines hold the same in all general-purpose registers but one,
/// and in the XMM registers.
pub open spec fn keeps_others(before: Machine, after: Machine, reg: Reg) -> bool {
    &&& after.xmm == before.xmm
    &&& forall|other: Reg| other != reg ==> #[trigger] after.regs[other] == before.regs[other]
}

/// A machine after one byte was peeled off a register and stored.
pub open spec fn peeled(m: Machine, reg: Reg, at: int) -> Machine {
    Machine {
        mem: m.mem.insert(at, (m.regs[reg] % 0x100) as u8),
        regs: m.regs.insert(reg, m.regs[reg] / 0x100),
        ..m
    }
}

proof fn one_byte_is_peeled(m: Machine, i: int, reg: Reg, dst: int)
    requires
        reg == Reg::Rax || reg == Reg::Rdx,
    ensures
        run(no_code().push(Instr::StoreByteRbp(reg, dst + i)).push(Instr::ShrByte(reg)), m) == Some(
            peeled(m, reg, m.regs[Reg::Rbp] + dst + i),
        ),
{
    let i1 = Instr::StoreByteRbp(reg, dst + i);
    let i2 = Instr::ShrByte(reg);
    one_more_is_run(no_code(), i1, m);
    one_more_is_run(no_code().push(i1), i2, m);
    let m1 = step(i1, m).unwrap();
    assert(m1.regs == m.regs);
    assert(step(i2, m1) == Some(peeled(m, reg, m.regs[Reg::Rbp] + dst + i)));
}

proof fn peeling_goes_on(m: Machine, i: int, size: int, reg: Reg, dst: int)
    requires
        i < size,
        reg == Reg::Rax || reg == Reg::Rdx,
    ensures
        run(peel_code(i, size, reg, dst), m) == run(
            peel_code(i + 1, size, reg, dst),
            peeled(m, reg, m.regs[Reg::Rbp] + dst + i),
        ),
{
    let c = no_code().push(Instr::StoreByteRbp(reg, dst + i)).push(Instr::ShrByte(reg));
    one_byte_is_peeled(m, i, reg, dst);
    code_is_joined(arbitrary(), c, peel_code(i + 1, size, reg, dst), m);
}

proof fn peeling_stores(m: Machine, i: int, size: int, reg: Reg, dst: int)
    requires
        0 <= i,
        reg == Reg::Rax || reg == Reg::Rdx,
    ensures
        run(peel_code(i, size, reg, dst), m) is Some,
        run(peel_code(i, size, reg, dst), m).unwrap().mem == stored_at(
            m.mem,
            m.regs[Reg::Rbp] + dst + i,
            size - i,
            m.regs[reg],
        ),
        keeps_others(m, run(peel_code(i, size, reg, dst), m).unwrap(), reg),
    decreases size - i,
{
    if i < size {
        let at = m.regs[Reg::Rbp] + dst + i;
        let next = peeled(m, reg, at);
        peeling_goes_on(m, i, size, reg, dst);
        assert(next.regs[Reg::Rbp] == m.regs[Reg::Rbp]);
        assert(next.regs[reg] == m.regs[reg] / 0x100);
        peeling_stores(next, i + 1, size, reg, dst);
        assert(keeps_others(m, next, reg));
    }
}

/// Stored bytes are those that were read, and nothing else is changed.
proof fn stored_bytes_are_those_read(
    from: Map<int, u8>,
    a: int,
    to: Map<int, u8>,
    b: int,
    n: int,
    k: int,
)
    ensures
        0 <= k < n ==> stored_at(to, b, n, bytes_at(from, a, n))[b + k] == from[a + k],
        !(0 <= k < n) ==> stored_at(to, b, n, bytes_at(from, a, n))[b + k] == to[b + k],
    decreases n,
{
    if n > 0 {
        let rest = bytes_at(from, a + 1, n - 1);
        let v = bytes_at(from, a, n);
        assert(v == from[a] + 0x100 * rest);
        assert(v % 0x100 == from[a] && v / 0x100 == rest) by {
            lemma_mod_multiples_vanish(rest, from[a] as int, 0x100);
            lemma_small_mod(from[a] as nat, 0x100);
            vstd::arithmetic::div_mod::lemma_fundamental_div_mod(v, 0x100);
        }
        let next = to.insert(b, from[a]);
        assert(stored_at(to, b, n, v) == stored_at(next, b + 1, n - 1, rest));
        stored_bytes_are_those_read(from, a + 1, next, b + 1, n - 1, k - 1);
    }
}

/// Where a chunk of an aggregate is passed back.
pub enum Place {
    Integer(Reg),
    Xmm(int),
}

/// The registers of the calling convention: the chunks of the class for integers
/// in `%rax` and `%rdx`, and the others in `%xmm0` and `%xmm1`, each in the next
/// one of its class.
pub open spec fn first_place(types: Types, ty: Type) -> Place {
    if chunk_in_fp(types, ty, 0, 8) {
        Place::Xmm(0)
    } else {
        Place::Integer(Reg::Rax)
    }
}

pub open spec fn second_place(types: Types, ty: Type) -> Place {
    match (chunk_in_fp(types, ty, 0, 8), chunk_in_fp(types, ty, 8, 16)) {
        (false, false) => Place::Integer(Reg::Rdx),
        (true, false) => Place::Integer(Reg::Rax),
        (false, true) => Place::Xmm(0),
        (true, true) => Place::Xmm(1),
    }
}

pub open spec fn value_in(m: Machine, place: Place) -> int {
    match place {
        Place::Integer(reg) => m.regs[reg],
        Place::Xmm(k) => m.xmm[k],
    }
}

pub open spec fn give_code(place: Place, lo: int, size: int) -> Seq<Instr> {
    match place {
        Place::Integer(reg) => no_code().push(Instr::Clear(ScalarWidth::Qword, reg)) + gather_code(
            size,
            reg,
            lo,
        ),
        Place::Xmm(k) => no_code().push(Instr::LoadXmm(size != 4, lo, k)),
    }
}

pub open spec fn take_code(place: Place, dst: int, size: int) -> Seq<Instr> {
    match place {
        Place::Integer(reg) => peel_code(0, size, reg, dst),
        Place::Xmm(k) => no_code().push(Instr::StoreXmm(size != 4, k, dst)),
    }
}

pub open spec fn is_ret_place(place: Place) -> bool {
    match place {
        Place::Integer(reg) => reg == Reg::Rax || reg == Reg::Rdx,
        Place::Xmm(k) => k == 0 || k == 1,
    }
}

pub open spec fn place_of(index: ArgRegIndex, is_fp: bool) -> Place {
    if is_fp {
        Place::Xmm(index.fp as int)
    } else {
        Place::Integer(integer_reg(index.gp))
    }
}

pub open spec fn after_place(index: ArgRegIndex, is_fp: bool) -> ArgRegIndex {
    if is_fp {
        ArgRegIndex { fp: (index.fp + 1) as usize, ..index }
    } else {
        ArgRegIndex { gp: (index.gp + 1) as usize, ..index }
    }
}

proof fn chunk_is_given(env: GenView, g: Gen, ty: Type, lo: u64, index: ArgRegIndex)
    requires
        load_ret_chunk(env, g, ty, lo, index) is Ok,
        lo <= 8,
    ensures
        ({
            let is_fp = chunk_in_fp(env.types, ty, lo, (lo + 8) as u64);
            let size = chunk_size(env.types, ty, lo);
            &&& load_ret_chunk(env, g, ty, lo, index) == Ok::<
                (Gen, ArgRegIndex),
                crate::error::Error,
            >(
                (
                    written(g, give_code(place_of(index, is_fp), lo as int, size)),
                    after_place(index, is_fp),
                ),
            )
            &&& 0 <= size <= 8
            &&& is_fp ==> size == 4 || size == 8
            &&& !is_fp ==> index.gp < 2
        }),
{
    reveal(load_ret_chunk);
    let is_fp = chunk_in_fp(env.types, ty, lo, (lo + 8) as u64);
    let size = chunk_size(env.types, ty, lo);
    if is_fp {
        one_more_is_written(g, no_code(), Instr::LoadXmm(size != 4, lo as int, index.fp as int));
    } else {
        let reg = integer_reg(index.gp);
        let clear = Instr::Clear(ScalarWidth::Qword, reg);
        one_more_is_written(g, no_code(), clear);
        gathering_is_written(written(g, no_code().push(clear)), size, index.gp, lo as int);
        code_is_joined(
            g,
            no_code().push(clear),
            gather_code(size, reg, lo as int),
            arbitrary(),
        );
    }
}

proof fn chunk_is_taken(env: GenView, g: Gen, ty: Type, lo: u64, dst: i64, index: ArgRegIndex)
    requires
        store_ret_chunk(env, g, ty, lo, dst, index) is Ok,
        lo <= 8,
    ensures
        ({
            let is_fp = chunk_in_fp(env.types, ty, lo, (lo + 8) as u64);
            let size = chunk_size(env.types, ty, lo);
            store_ret_chunk(env, g, ty, lo, dst, index) == Ok::<
                (Gen, ArgRegIndex),
                crate::error::Error,
            >(
                (
                    written(g, take_code(place_of(index, is_fp), dst as int, size)),
                    after_place(index, is_fp),
                ),
            )
        }),
{
    reveal(store_ret_chunk);
    let is_fp = chunk_in_fp(env.types, ty, lo, (lo + 8) as u64);
    let size = chunk_size(env.types, ty, lo);
    if is_fp {
        one_more_is_written(
            g,
            no_code(),
            Instr::StoreXmm(size != 4, index.fp as int, dst as int),
        );
    } else {
        peeling_is_written(g, 0, size, index.gp, dst as int);
    }
}

proof fn giving_gives(m: Machine, place: Place, lo: int, size: int)
    requires
        is_ret_place(place),
        0 <= size <= 8,
        place is Xmm ==> size == 4 || size == 8,
    ensures
        ({
            let r = run(give_code(place, lo, size), m);
            &&& r is Some
            &&& value_in(r.unwrap(), place) == bytes_at(m.mem, m.regs[Reg::Rdi] + lo, size)
            &&& r.unwrap().mem == m.mem
            &&& r.unwrap().regs[Reg::Rdi] == m.regs[Reg::Rdi]
            &&& forall|other: Place|
                other != place ==> #[trigger] value_in(r.unwrap(), other) == value_in(m, other)
        }),
{
    match place {
        Place::Integer(reg) => {
            let clear = Instr::Clear(ScalarWidth::Qword, reg);
            let c = no_code().push(clear);
            one_more_is_run(no_code(), clear, m);
            let m1 = step(clear, m).unwrap();
            assert(run(c, m) == Some(m1));
            gathering_gathers(m1, size, size, reg, lo);
            code_is_joined(arbitrary(), c, gather_code(size, reg, lo), m);
            let r = run(give_code(place, lo, size), m).unwrap();
            assert forall|other: Place| other != place implies #[trigger] value_in(r, other)
                == value_in(m, other) by {
                match other {
                    Place::Integer(o) => {
                        assert(o != reg);
                        assert(r.regs[o] == m1.regs[o]);
                    },
                    Place::Xmm(_) => {},
                }
            }
        },
        Place::Xmm(k) => {
            one_more_is_run(no_code(), Instr::LoadXmm(size != 4, lo, k), m);
        },
    }
}

proof fn taking_stores(m: Machine, place: Place, dst: int, size: int)
    requires
        is_ret_place(place),
        0 <= size <= 8,
        place is Xmm ==> size == 4 || size == 8,
    ensures
        ({
            let r = run(take_code(place, dst, size), m);
            &&& r is Some
            &&& r.unwrap().mem == stored_at(
                m.mem,
                m.regs[Reg::Rbp] + dst,
                size,
                value_in(m, place),
            )
            &&& r.unwrap().regs[Reg::Rbp] == m.regs[Reg::Rbp]
            &&& forall|other: Place|
                other != place ==> #[trigger] value_in(r.unwrap(), other) == value_in(m, other)
        }),
{
    match place {
        Place::Integer(reg) => {
            peeling_stores(m, 0, size, reg, dst);
            let r = run(take_code(place, dst, size), m).unwrap();
            assert forall|other: Place| other != place implies #[trigger] value_in(r, other)
                == value_in(m, other) by {
                match other {
                    Place::Integer(o) => {
                        assert(o != reg);
                        assert(r.regs[o] == m.regs[o]);
                    },
                    Place::Xmm(_) => {},
                }
            }
        },
        Place::Xmm(k) => {
            one_more_is_run(no_code(), Instr::StoreXmm(size != 4, k, dst), m);
        },
    }
}

/// The code that returns a small aggregate.
pub open spec fn return_code(types: Types, ty: Type) -> Seq<Instr> {
    let size = size_of(types, ty) as int;
    let start = no_code().push(Instr::MovRaxRdi);
    if size <= 8 {
        start + give_code(first_place(types, ty), 0, size)
    } else {
        start + give_code(first_place(types, ty), 0, 8) + give_code(
            second_place(types, ty),
            8,
            size - 8,
        )
    }
}

/// The code that puts a small aggregate that was returned into its buffer.
pub open spec fn receive_code(types: Types, ty: Type, offset: int) -> Seq<Instr> {
    let size = size_of(types, ty) as int;
    if size <= 8 {
        take_code(first_place(types, ty), offset, size)
    } else {
        take_code(first_place(types, ty), offset, 8) + take_code(
            second_place(types, ty),
            offset + 8,
            size - 8,
        )
    }
}

proof fn returning_is_written(env: GenView, g: Gen, ty: Type)
    requires
        is_sou_ty(env.types, ty),
        size_of(env.types, ty) <= 16,
        return_aggregate(env, g, ty) is Ok,
    ensures
        return_aggregate(env, g, ty) == Ok::<Gen, crate::error::Error>(
            written(g, return_code(env.types, ty)),
        ),
        chunk_in_fp(env.types, ty, 0, 8) ==> size_of(env.types, ty) == 4 || size_of(env.types, ty)
            >= 8,
        size_of(env.types, ty) > 8 && chunk_in_fp(env.types, ty, 8, 16) ==> size_of(env.types, ty)
            == 12 || size_of(env.types, ty) == 16,
{
    reveal(return_aggregate);
    let size = size_of(env.types, ty) as int;
    let start = no_code().push(Instr::MovRaxRdi);
    one_more_is_written(g, no_code(), Instr::MovRaxRdi);
    let g1 = written(g, start);
    chunk_is_given(env, g1, ty, 0, no_regs());
    let first = give_code(first_place(env.types, ty), 0, chunk_size(env.types, ty, 0));
    code_is_joined(g, start, first, arbitrary());
    if size > 8 {
        let (g2, index) = load_ret_chunk(env, g1, ty, 0, no_regs())->Ok_0;
        chunk_is_given(env, g2, ty, 8, index);
        let second = give_code(second_place(env.types, ty), 8, size - 8);
        code_is_joined(g, start + first, second, arbitrary());
    }
}

proof fn receiving_is_written(env: GenView, g: Gen, ty: Type, offset: i64)
    requires
        size_of(env.types, ty) <= 16,
        store_ret_chunks(env, g, ty, offset) is Ok,
    ensures
        store_ret_chunks(env, g, ty, offset) == Ok::<Gen, crate::error::Error>(
            written(g, receive_code(env.types, ty, offset as int)),
        ),
{
    let size = size_of(env.types, ty) as int;
    chunk_is_taken(env, g, ty, 0, offset, no_regs());
    if size > 8 {
        let (g1, index) = store_ret_chunk(env, g, ty, 0, offset, no_regs())->Ok_0;
        chunk_is_taken(env, g1, ty, 8, (offset + 8) as i64, index);
        code_is_joined(
            g,
            take_code(first_place(env.types, ty), offset as int, 8),
            take_code(second_place(env.types, ty), offset + 8, size - 8),
            arbitrary(),
        );
    }
}

/// The chunks of an aggregate of at most 16 bytes at `%rax` are returned in the
/// registers of the calling convention: the first 8 bytes in that of the first
/// chunk, and those from byte 8 on in that of the second.
pub open spec fn is_given(types: Types, ty: Type, before: Machine, after: Machine) -> bool {
    let size = size_of(types, ty) as int;
    let from = before.regs[Reg::Rax];
    &&& value_in(after, first_place(types, ty)) == bytes_at(
        before.mem,
        from,
        if size < 8 {
            size
        } else {
            8
        },
    )
    &&& size > 8 ==> value_in(after, second_place(types, ty)) == bytes_at(
        before.mem,
        from + 8,
        size - 8,
    )
}

proof fn returning_gives(types: Types, ty: Type, m: Machine)
    requires
        size_of(types, ty) <= 16,
        chunk_in_fp(types, ty, 0, 8) ==> size_of(types, ty) == 4 || size_of(types, ty) >= 8,
        size_of(types, ty) > 8 && chunk_in_fp(types, ty, 8, 16) ==> size_of(types, ty) == 12
            || size_of(types, ty) == 16,
    ensures
        run(return_code(types, ty), m) is Some,
        is_given(types, ty, m, run(return_code(types, ty), m).unwrap()),
{
    let size = size_of(types, ty) as int;
    let start = no_code().push(Instr::MovRaxRdi);
    one_more_is_run(no_code(), Instr::MovRaxRdi, m);
    let m1 = step(Instr::MovRaxRdi, m).unwrap();
    assert(run(start, m) == Some(m1));
    let first = first_place(types, ty);
    let n = if size < 8 {
        size
    } else {
        8
    };
    giving_gives(m1, first, 0, n);
    code_is_joined(arbitrary(), start, give_code(first, 0, n), m);
    let m2 = run(start + give_code(first, 0, n), m).unwrap();
    if size > 8 {
        let second = second_place(types, ty);
        giving_gives(m2, second, 8, size - 8);
        code_is_joined(
            arbitrary(),
            start + give_code(first, 0, 8),
            give_code(second, 8, size - 8),
            m,
        );
        let m3 = run(return_code(types, ty), m).unwrap();
        assert(first != second);
        assert(value_in(m3, first) == value_in(m2, first));
    }
}

proof fn receiving_stores(types: Types, ty: Type, offset: int, before: Machine, c: Machine, k: int)
    requires
        size_of(types, ty) <= 16,
        chunk_in_fp(types, ty, 0, 8) ==> size_of(types, ty) == 4 || size_of(types, ty) >= 8,
        size_of(types, ty) > 8 && chunk_in_fp(types, ty, 8, 16) ==> size_of(types, ty) == 12
            || size_of(types, ty) == 16,
        is_given(types, ty, before, c),
    ensures
        ({
            let r = run(receive_code(types, ty, offset), c);
            let to = c.regs[Reg::Rbp] + offset;
            &&& r is Some
            &&& 0 <= k < size_of(types, ty) ==> r.unwrap().mem[to + k]
                == before.mem[before.regs[Reg::Rax] + k]
            &&& !(0 <= k < size_of(types, ty)) ==> r.unwrap().mem[to + k] == c.mem[to + k]
        }),
{
    let size = size_of(types, ty) as int;
    let from = before.regs[Reg::Rax];
    let to = c.regs[Reg::Rbp] + offset;
    let first = first_place(types, ty);
    let n = if size < 8 {
        size
    } else {
        8
    };
    taking_stores(c, first, offset, n);
    let c1 = run(take_code(first, offset, n), c).unwrap();
    stored_bytes_are_those_read(before.mem, from, c.mem, to, n, k);
    if size > 8 {
        let second = second_place(types, ty);
        assert(first != second);
        assert(value_in(c1, second) == value_in(c, second));
        taking_stores(c1, second, offset + 8, size - 8);
        code_is_joined(
            arbitrary(),
            take_code(first, offset, 8),
            take_code(second, offset + 8, size - 8),
            c,
        );
        stored_bytes_are_those_read(before.mem, from + 8, c1.mem, to + 8, size - 8, k - 8);
    }
}

/// Whether an aggregate arrives: whatever the caller does with other registers,
/// each byte that it stores in its buffer is the byte of the returned object at the
/// same offset, and no other byte is changed.
pub open spec fn arrives(
    types: Types,
    ty: Type,
    offset: int,
    before: Machine,
    returned: Machine,
    caller: Machine,
    after: Option<Machine>,
) -> bool {
    let to = caller.regs[Reg::Rbp] + offset;
    let same = caller.regs[Reg::Rax] == returned.regs[Reg::Rax] && caller.regs[Reg::Rdx]
        == returned.regs[Reg::Rdx] && caller.xmm[0] == returned.xmm[0] && caller.xmm[1]
        == returned.xmm[1];
    same ==> {
        &&& after is Some
        &&& forall|k: int|
            0 <= k < size_of(types, ty) ==> #[trigger] after.unwrap().mem[to + k]
                == before.mem[before.regs[Reg::Rax] + k]
        &&& forall|k: int|
            !(0 <= k < size_of(types, ty)) ==> #[trigger] after.unwrap().mem[to + k]
                == caller.mem[to + k]
    }
}

/// A struct or union of at most 16 bytes that a function returns arrives unchanged
/// in the buffer of the caller, by way of the registers of the calling convention.
pub proof fn returned_aggregates_arrive(
    callee: GenView,
    caller: GenView,
    g: Gen,
    h: Gen,
    ty: Type,
    offset: i64,
)
    requires
        callee.types == caller.types,
        is_sou_ty(callee.types, ty),
        size_of(callee.types, ty) <= 16,
        return_aggregate(callee, g, ty) is Ok,
        store_ret_chunks(caller, h, ty, offset) is Ok,
    ensures
        exists|give: Seq<Instr>, take: Seq<Instr>|
            {
                &&& return_aggregate(callee, g, ty)->Ok_0 == #[trigger] written(g, give)
                &&& store_ret_chunks(caller, h, ty, offset)->Ok_0 == #[trigger] written(h, take)
                &&& forall|m: Machine, c: Machine|
                    {
                        &&& (#[trigger] run(give, m)) is Some
                        &&& is_given(callee.types, ty, m, run(give, m).unwrap())
                        &&& arrives(
                            callee.types,
                            ty,
                            offset as int,
                            m,
                            run(give, m).unwrap(),
                            c,
                            #[trigger] run(take, c),
                        )
                    }
            },
{
    let types = callee.types;
    let give = return_code(types, ty);
    let take = receive_code(types, ty, offset as int);
    returning_is_written(callee, g, ty);
    receiving_is_written(caller, h, ty, offset);
    assert(return_aggregate(callee, g, ty)->Ok_0 == written(g, give));
    assert(store_ret_chunks(caller, h, ty, offset)->Ok_0 == written(h, take));
    assert forall|m: Machine, c: Machine|
        (#[trigger] run(give, m)) is Some && is_given(types, ty, m, run(give, m).unwrap())
            && arrives(
            types,
            ty,
            offset as int,
            m,
            run(give, m).unwrap(),
            c,
            #[trigger] run(take, c),
        ) by {
        returning_gives(types, ty, m);
        let r = run(give, m).unwrap();
        if c.regs[Reg::Rax] == r.regs[Reg::Rax] && c.regs[Reg::Rdx] == r.regs[Reg::Rdx] && c.xmm[0]
            == r.xmm[0] && c.xmm[1] == r.xmm[1] {
            assert(is_given(types, ty, m, c));
            let to = c.regs[Reg::Rbp] + offset;
            receiving_stores(types, ty, offset as int, m, c, 0);
            let after = run(take, c).unwrap();
            assert forall|k: int| 0 <= k < size_of(types, ty) implies #[trigger] after.mem[to + k]
                == m.mem[m.regs[Reg::Rax] + k] by {
                receiving_stores(types, ty, offset as int, m, c, k);
            }
            assert forall|k: int| !(0 <= k < size_of(types, ty)) implies #[trigger] after.mem[to
                + k] == c.mem[to + k] by {
                receiving_stores(types, ty, offset as int, m, c, k);
            }
        }
    }
}

} // verus!
