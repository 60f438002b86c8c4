//! Arguments go where the calling convention says.

use vstd::prelude::*;
use crate::ast::LocalVar;
use crate::codegen::text::{arg_regs, arg_slots, no_regs, place_params, ArgRegIndex, ArgRegs};
use crate::types::{chunk_in_fp, is_sou_ty, size_of, ty_is_flonum, Type, Types};
use crate::utils::align_up;

verus! {

/// Whether some registers are left for an argument: there are 6 for integers, and 8
/// for floating-point numbers.
pub open spec fn enough(index: ArgRegIndex, integers: int, floats: int) -> bool {
    index.gp + integers <= 6 && index.fp + floats <= 8
}

pub open spec fn moved_on(index: ArgRegIndex, integers: int, floats: int) -> ArgRegIndex {
    ArgRegIndex { gp: (index.gp + integers) as usize, fp: (index.fp + floats) as usize }
}

pub open spec fn one_if(b: bool) -> int {
    if b {
        1
    } else {
        0
    }
}

/// A number or a pointer takes one register of its class; a struct or union takes
/// one for each of its at most two chunks of 8 bytes, by their class; and a larger one
/// takes none. What does not get all its registers takes none either, and goes by the
/// stack.
pub proof fn registers_follow_the_convention(types: Types, ty: Type, index: ArgRegIndex)
    requires
        index.gp <= 6,
        index.fp <= 8,
    ensures
        ({
            let (regs, after) = arg_regs(types, ty, index);
            let size = size_of(types, ty);
            let a = chunk_in_fp(types, ty, 0, 8);
            let b = chunk_in_fp(types, ty, 8, 16);
            let f = ty_is_flonum(ty);
            &&& regs == ArgRegs::Stack ==> after == index
            &&& !is_sou_ty(types, ty) ==> if enough(index, one_if(!f), one_if(f)) {
                regs == ArgRegs::One(f) && after == moved_on(index, one_if(!f), one_if(f))
            } else {
                regs == ArgRegs::Stack
            }
            &&& is_sou_ty(types, ty) && size > 16 ==> regs == ArgRegs::Stack
            &&& is_sou_ty(types, ty) && size <= 8 ==> if enough(index, one_if(!a), one_if(a)) {
                regs == ArgRegs::One(a) && after == moved_on(index, one_if(!a), one_if(a))
            } else {
                regs == ArgRegs::Stack
            }
            &&& is_sou_ty(types, ty) && 8 < size <= 16 ==> if enough(
                index,
                one_if(!a) + one_if(!b),
                one_if(a) + one_if(b),
            ) {
                regs == ArgRegs::Two(a, b) && after == moved_on(
                    index,
                    one_if(!a) + one_if(!b),
                    one_if(a) + one_if(b),
                )
            } else {
                regs == ArgRegs::Stack
            }
        }),
{
}

/// The registers taken before argument `k`.
pub open spec fn index_at(types: Types, tys: Seq<Type>, k: int) -> ArgRegIndex
    decreases k,
{
    if k <= 0 {
        no_regs()
    } else {
        arg_regs(types, tys[k - 1], index_at(types, tys, k - 1)).1
    }
}

/// Whether argument `k` goes by the stack.
pub open spec fn by_stack(types: Types, tys: Seq<Type>, k: int) -> bool {
    arg_regs(types, tys[k], index_at(types, tys, k)).0 == ArgRegs::Stack
}

/// The slots of the stack that the arguments before `k` take.
pub open spec fn slots_before(types: Types, tys: Seq<Type>, k: int) -> int
    decreases k,
{
    if k <= 0 {
        0
    } else {
        slots_before(types, tys, k - 1) + (if by_stack(types, tys, k - 1) {
            arg_slots(types, tys[k - 1])
        } else {
            0
        })
    }
}

/// The types of some parameters.
pub open spec fn types_of(locals: Seq<LocalVar>, params: Seq<usize>) -> Seq<Type> {
    Seq::new(params.len(), |k: int| locals[params[k] as int].ty)
}

proof fn slots_are_aligned(start: int, size: int, q: int)
    requires
        start == 8 * q,
        q >= 0,
        size >= 0,
    ensures
        align_up(start, 8) == start,
        align_up(start + size, 8) == start + align_up(size, 8),
        align_up(size, 8) % 8 == 0,
        8 * (align_up(size, 8) / 8) == align_up(size, 8),
        1 <= size <= 8 ==> align_up(size, 8) == 8,
{
    let r = size % 8;
    assert(start % 8 == 0);
    assert((start + size) % 8 == r);
}

proof fn placed_from(
    types: Types,
    tys: Seq<Type>,
    locals: Seq<LocalVar>,
    params: Seq<usize>,
    k: int,
    top: int,
)
    requires
        0 <= k <= params.len(),
        tys == types_of(locals, params),
        forall|i: int| 0 <= i < params.len() ==> #[trigger] params[i] < locals.len(),
        forall|i: int, j: int| 0 <= i < j < params.len() ==> params[i] != params[j],
        forall|i: int|
            0 <= i < tys.len() && !is_sou_ty(types, #[trigger] tys[i]) ==> 1 <= size_of(
                types,
                tys[i],
            ) <= 8,
        slots_before(types, tys, k) >= 0,
        align_up(top, 8) == 16 + 8 * slots_before(types, tys, k),
    ensures
        place_params(types, locals, params, k, top, index_at(types, tys, k)) matches Ok(placed)
            ==> {
            &&& placed.len() == locals.len()
            &&& forall|j: int|
                k <= j < params.len() && by_stack(types, tys, j) ==> (
                #[trigger] placed[params[j] as int]).offset == 16 + 8 * slots_before(types, tys, j)
            &&& forall|j: int|
                0 <= j < k ==> (#[trigger] placed[params[j] as int]).offset
                    == locals[params[j] as int].offset
        },
    decreases params.len() - k,
{
    if k < params.len() {
        let local = locals[params[k] as int];
        assert(tys[k] == local.ty);
        let size = size_of(types, local.ty) as int;
        let start = align_up(top, 8);
        let q = 2 + slots_before(types, tys, k);
        slots_are_aligned(start, size, q);
        if !by_stack(types, tys, k) {
            placed_from(types, tys, locals, params, k + 1, top);
        } else if start + size <= i64::MAX {
            let next = locals.update(
                params[k] as int,
                LocalVar { offset: start as i64, ..local },
            );
            assert(types_of(next, params) =~= tys);
            placed_from(types, tys, next, params, k + 1, start + size);
            if let Ok(placed) = place_params(
                types,
                next,
                params,
                k + 1,
                start + size,
                index_at(types, tys, k + 1),
            ) {
                assert(placed[params[k] as int].offset == next[params[k] as int].offset);
                assert forall|j: int| 0 <= j < k implies (
                #[trigger] placed[params[j] as int]).offset == locals[params[j] as int].offset by {
                    assert(params[j] != params[k]);
                    assert(next[params[j] as int] == locals[params[j] as int]);
                }
            }
        }
    }
}

/// A parameter that goes by the stack lies above the frame, behind the return address
/// and the saved base pointer, and behind the slots of the arguments before it that go
/// by the stack, which the caller counts in the same way.
pub proof fn stack_parameters_lie_above_the_frame(
    types: Types,
    locals: Seq<LocalVar>,
    params: Seq<usize>,
    k: int,
)
    requires
        0 <= k < params.len(),
        forall|i: int| 0 <= i < params.len() ==> #[trigger] params[i] < locals.len(),
        forall|i: int, j: int| 0 <= i < j < params.len() ==> params[i] != params[j],
        forall|i: int|
            0 <= i < params.len() && !is_sou_ty(
                types,
                #[trigger] types_of(locals, params)[i],
            ) ==> 1 <= size_of(types, types_of(locals, params)[i]) <= 8,
        by_stack(types, types_of(locals, params), k),
    ensures
        place_params(types, locals, params, 0, 16, no_regs()) matches Ok(placed)
            ==> placed[params[k] as int].offset == 16 + 8 * slots_before(
            types,
            types_of(locals, params),
            k,
        ),
{
    let tys = types_of(locals, params);
    slots_are_aligned(16, 0, 2);
    placed_from(types, tys, locals, params, 0, 16);
}

} // verus!
