//! Evaluation of constant expressions.

use vstd::prelude::*;
use crate::ast::{node_ty, BinaryOp, EntityRef, Name, Node, NodeKind};
use crate::constexpr::{ConstValue, FloatQuery};
use crate::error::{Error, Message};
use crate::parse::infer::infer;
use crate::parse::state::{pauses, Out, Parser, ParserState};
use crate::source::SourceSpan;
use crate::types::{array_of, const_of, is_func_ty, is_ptr_ty, ArithType, ConstType, Type};

verus! {

/// The compile-time value model for global initializers.
#[derive(Clone, Copy, Debug, PartialEq, Eq, Structural)]
pub enum GlobalInitValue {
    Num(ConstValue),
    /// Relocation against the given label with the given addend/offset.
    Reloc(Name, i64),
}

/// The result of an operation that may need a floating-point result.
pub open spec fn float_result<T>(r: Result<T, FloatQuery>) -> Result<T, Error> {
    match r {
        Ok(value) => Ok(value),
        Err(query) => Err(Error::NeedsFloat(query)),
    }
}

fn float_outcome<T>(r: Result<T, FloatQuery>) -> (out: Result<T, Error>)
    ensures
        out == float_result(r),
{
    match r {
        Ok(value) => Ok(value),
        Err(query) => Err(Error::NeedsFloat(query)),
    }
}

/// The value of a binary operation on constants.
pub open spec fn fold_binary(
    st: ParserState,
    op: BinaryOp,
    l: ConstValue,
    r: ConstValue,
    ty: ConstType,
    span: SourceSpan,
) -> Result<ConstValue, Error> {
    match op {
        BinaryOp::Add => float_result(l.spec_add(r, ty, st.input.floats)),
        BinaryOp::Sub => float_result(l.spec_sub(r, ty, st.input.floats)),
        BinaryOp::Mul => float_result(l.spec_mul(r, ty, st.input.floats)),
        BinaryOp::Div => match l.spec_div(r, ty, st.input.floats) {
            Ok(Some(value)) => Ok(value),
            Ok(None) => Err(Error::Terminate(span, Message::DivisionByZero)),
            Err(query) => Err(Error::NeedsFloat(query)),
        },
        BinaryOp::Mod => match l.spec_rem(r, ty) {
            Some(value) => Ok(value),
            None => Err(Error::Terminate(span, Message::DivisionByZero)),
        },
        BinaryOp::BitAnd => Ok(l.spec_bit_and(r, ty)),
        BinaryOp::BitOr => Ok(l.spec_bit_or(r, ty)),
        BinaryOp::BitXor => Ok(l.spec_bit_xor(r, ty)),
        BinaryOp::BitLeftShift => Ok(l.spec_bit_shl(r, ty)),
        BinaryOp::BitRightShift => Ok(l.spec_bit_shr(r, ty)),
        BinaryOp::Eq => float_result(l.spec_eq(r, ty, st.input.floats)),
        BinaryOp::Ne => float_result(l.spec_ne(r, ty, st.input.floats)),
        BinaryOp::Lt => float_result(l.spec_lt(r, ty, st.input.floats)),
        BinaryOp::Le => float_result(l.spec_le(r, ty, st.input.floats)),
    }
}

/// The value of an expression that has its type.
pub open spec fn eval_typed(st: ParserState, node: Node) -> Result<ConstValue, Error>
    decreases node, 1int,
{
    match const_of(st.types, node_ty(node)) {
        None => Err(Error::Terminate(node.span, Message::NotConstant)),
        Some(ty) => eval_kind(st, node, ty),
    }
}

/// The value of an expression of the given compile-time type.
pub open spec fn eval_kind(st: ParserState, node: Node, ty: ConstType) -> Result<ConstValue, Error>
    decreases node, 0int,
{
    match node.kind {
        NodeKind::Num(value) => Ok(ConstValue::spec_int(value as int, ty)),
        NodeKind::Flonum(bits) => float_result(ConstValue::spec_float(bits, ty, st.input.floats)),
        NodeKind::Neg(expr) => match eval_typed(st, *expr) {
            Ok(value) => float_result(value.spec_neg(ty, st.input.floats)),
            Err(e) => Err(e),
        },
        NodeKind::Not(expr) => match eval_typed(st, *expr) {
            Ok(value) => float_result(value.spec_not(ty, st.input.floats)),
            Err(e) => Err(e),
        },
        NodeKind::BitNot(expr) => match eval_typed(st, *expr) {
            Ok(value) => Ok(value.spec_bit_not(ty)),
            Err(e) => Err(e),
        },
        NodeKind::Comma { lhs: _, rhs } => eval_typed(st, *rhs),
        NodeKind::LogicalAnd { lhs, rhs } => match truth(st, *lhs) {
            Ok(true) => match truth(st, *rhs) {
                Ok(b) => Ok(ConstValue::spec_bool(b, ty)),
                Err(e) => Err(e),
            },
            Ok(false) => Ok(ConstValue::spec_bool(false, ty)),
            Err(e) => Err(e),
        },
        NodeKind::LogicalOr { lhs, rhs } => match truth(st, *lhs) {
            Ok(false) => match truth(st, *rhs) {
                Ok(b) => Ok(ConstValue::spec_bool(b, ty)),
                Err(e) => Err(e),
            },
            Ok(true) => Ok(ConstValue::spec_bool(true, ty)),
            Err(e) => Err(e),
        },
        NodeKind::Binary { op, lhs, rhs } => match eval_typed(st, *lhs) {
            Ok(l) => match eval_typed(st, *rhs) {
                Ok(r) => fold_binary(st, op, l, r, ty, node.span),
                Err(e) => Err(e),
            },
            Err(e) => Err(e),
        },
        NodeKind::Conditional { cond, then_expr, else_expr } => match truth(st, *cond) {
            Ok(true) => eval_typed(st, *then_expr),
            Ok(false) => eval_typed(st, *else_expr),
            Err(e) => Err(e),
        },
        NodeKind::Cast(expr) => match eval_typed(st, *expr) {
            Ok(value) => float_result(value.spec_cast(ty, st.input.floats)),
            Err(e) => Err(e),
        },
        _ => Err(Error::Terminate(node.span, Message::NotConstant)),
    }
}

/// Whether the value of an expression compares unequal to zero.
pub open spec fn truth(st: ParserState, node: Node) -> Result<bool, Error>
    decreases node, 2int,
{
    match eval_typed(st, node) {
        Ok(value) => float_result(value.spec_truthy(st.input.floats)),
        Err(e) => Err(e),
    }
}

/// Evaluate an expression as a compile-time constant.
#[verifier::opaque]
pub open spec fn eval(st: ParserState, node: Node) -> Out<ConstValue> {
    let o = infer(st, node);
    if o.r is Err {
        o.fail()
    } else {
        Out { st: o.st, r: eval_typed(o.st, o.val()) }
    }
}

/// The bits of an integer, read in two's complement.
pub open spec fn as_signed(bits: u64) -> int {
    if bits >= 0x8000_0000_0000_0000 {
        bits - 0x1_0000_0000_0000_0000
    } else {
        bits as int
    }
}

/// The sum or difference of two global initializers.
pub open spec fn fold_address(
    st: ParserState,
    is_add: bool,
    l: GlobalInitValue,
    r: GlobalInitValue,
    ty: ConstType,
    span: SourceSpan,
) -> Result<GlobalInitValue, Error> {
    match (l, r) {
        (GlobalInitValue::Num(l), GlobalInitValue::Num(r)) => match if is_add {
            l.spec_add(r, ty, st.input.floats)
        } else {
            l.spec_sub(r, ty, st.input.floats)
        } {
            Ok(value) => Ok(GlobalInitValue::Num(value)),
            Err(query) => Err(Error::NeedsFloat(query)),
        },
        (GlobalInitValue::Reloc(label, addend), GlobalInitValue::Num(r)) => if r.ty.spec_is_flonum() {
            Err(Error::Terminate(span, Message::InvalidInitializer))
        } else if is_add {
            Ok(GlobalInitValue::Reloc(label, addend.wrapping_add(as_signed(r.spec_bits()) as i64)))
        } else {
            Ok(GlobalInitValue::Reloc(label, addend.wrapping_sub(as_signed(r.spec_bits()) as i64)))
        },
        (GlobalInitValue::Num(l), GlobalInitValue::Reloc(label, addend)) => if !is_add
            || l.ty.spec_is_flonum() {
            Err(Error::Terminate(span, Message::InvalidInitializer))
        } else {
            Ok(GlobalInitValue::Reloc(label, addend.wrapping_add(as_signed(l.spec_bits()) as i64)))
        },
        _ => Err(Error::Terminate(span, Message::InvalidInitializer)),
    }
}

pub open spec fn eval_num(st: ParserState, node: Node) -> Result<GlobalInitValue, Error> {
    match eval_typed(st, node) {
        Ok(value) => Ok(GlobalInitValue::Num(value)),
        Err(e) => Err(e),
    }
}

/// The value of a global initializer that has its type.
pub open spec fn global_value(st: ParserState, node: Node) -> Result<GlobalInitValue, Error>
    decreases node, 2int,
{
    if array_of(st.types, node_ty(node)) is Some || is_func_ty(st.types, node_ty(node)) {
        global_addr(st, node)
    } else {
        match const_of(st.types, node_ty(node)) {
            None => Err(Error::Terminate(node.span, Message::NotConstant)),
            Some(ty) => global_scalar(st, node, ty),
        }
    }
}

/// The value of a scalar global initializer of the given compile-time type.
pub open spec fn global_scalar(st: ParserState, node: Node, ty: ConstType) -> Result<
    GlobalInitValue,
    Error,
>
    decreases node, 0int,
{
    match node.kind {
        NodeKind::Binary { op, lhs, rhs } => match global_value(st, *lhs) {
            Ok(l) => match global_value(st, *rhs) {
                Ok(r) => match op {
                    BinaryOp::Add => fold_address(st, true, l, r, ty, node.span),
                    BinaryOp::Sub => fold_address(st, false, l, r, ty, node.span),
                    _ => eval_num(st, node),
                },
                Err(e) => Err(e),
            },
            Err(e) => Err(e),
        },
        NodeKind::Conditional { cond, then_expr, else_expr } => match truth(st, *cond) {
            Ok(true) => global_value(st, *then_expr),
            Ok(false) => global_value(st, *else_expr),
            Err(e) => Err(e),
        },
        NodeKind::Comma { lhs: _, rhs } => global_value(st, *rhs),
        NodeKind::Cast(expr) => match global_value(st, *expr) {
            Ok(GlobalInitValue::Num(value)) => match value.spec_cast(ty, st.input.floats) {
                Ok(value) => Ok(GlobalInitValue::Num(value)),
                Err(query) => Err(Error::NeedsFloat(query)),
            },
            Ok(GlobalInitValue::Reloc(label, addend)) => if holds_address(st, node_ty(node)) {
                Ok(GlobalInitValue::Reloc(label, addend))
            } else {
                Err(Error::Terminate(node.span, Message::InvalidInitializer))
            },
            Err(e) => Err(e),
        },
        NodeKind::Addr(expr) => global_addr(st, *expr),
        _ => eval_num(st, node),
    }
}

/// Whether a relocation can be cast to a type.
pub open spec fn holds_address(st: ParserState, ty: Type) -> bool {
    ty == Type::Arith(ArithType::Long) || ty == Type::Arith(ArithType::ULong) || is_ptr_ty(
        st.types,
        ty,
    )
}

/// The address of an expression in a global initializer.
pub open spec fn global_addr(st: ParserState, node: Node) -> Result<GlobalInitValue, Error>
    decreases node, 1int,
{
    match node.kind {
        NodeKind::Entity(EntityRef::Global(id)) => if id < st.globals.len() {
            Ok(GlobalInitValue::Reloc(st.globals[id as int].name, 0))
        } else {
            Err(Error::Terminate(node.span, Message::InvalidInitializer))
        },
        NodeKind::Entity(EntityRef::Function(id)) => if id < st.functions.len() {
            Ok(GlobalInitValue::Reloc(Name::Ident(st.functions[id as int].name), 0))
        } else {
            Err(Error::Terminate(node.span, Message::InvalidInitializer))
        },
        NodeKind::Deref(expr) => global_value(st, *expr),
        NodeKind::Member { parent, member } => match global_addr(st, *parent) {
            Ok(GlobalInitValue::Reloc(label, addend)) => if member.offset <= i64::MAX && addend
                + member.offset <= i64::MAX {
                Ok(GlobalInitValue::Reloc(label, (addend + member.offset) as i64))
            } else {
                Err(Error::Overflow)
            },
            Ok(_) => Err(Error::Terminate(node.span, Message::InvalidInitializer)),
            Err(e) => Err(e),
        },
        _ => Err(Error::Terminate(node.span, Message::InvalidInitializer)),
    }
}

/// Evaluate a global initializer.
#[verifier::opaque]
pub open spec fn eval_global_init(st: ParserState, node: Node) -> Out<GlobalInitValue> {
    let o = infer(st, node);
    if o.r is Err {
        o.fail()
    } else {
        Out { st: o.st, r: global_value(o.st, o.val()) }
    }
}

impl Parser {
    fn fold_binary(
        &self,
        op: BinaryOp,
        l: ConstValue,
        r: ConstValue,
        ty: ConstType,
        span: SourceSpan,
    ) -> (out: Result<ConstValue, Error>)
        ensures
            out == fold_binary(self@, op, l, r, ty, span),
    {
        proof {
            reveal(Parser::view);
        }
        match op {
            BinaryOp::Add => float_outcome(l.add(r, ty, &self.floats)),
            BinaryOp::Sub => float_outcome(l.sub(r, ty, &self.floats)),
            BinaryOp::Mul => float_outcome(l.mul(r, ty, &self.floats)),
            BinaryOp::Div => match l.div(r, ty, &self.floats) {
                Ok(Some(value)) => Ok(value),
                Ok(None) => Err(Error::Terminate(span, Message::DivisionByZero)),
                Err(query) => Err(Error::NeedsFloat(query)),
            },
            BinaryOp::Mod => match l.rem(r, ty) {
                Some(value) => Ok(value),
                None => Err(Error::Terminate(span, Message::DivisionByZero)),
            },
            BinaryOp::BitAnd => Ok(l.bit_and(r, ty)),
            BinaryOp::BitOr => Ok(l.bit_or(r, ty)),
            BinaryOp::BitXor => Ok(l.bit_xor(r, ty)),
            BinaryOp::BitLeftShift => Ok(l.bit_shl(r, ty)),
            BinaryOp::BitRightShift => Ok(l.bit_shr(r, ty)),
            BinaryOp::Eq => float_outcome(l.eq(r, ty, &self.floats)),
            BinaryOp::Ne => float_outcome(l.ne(r, ty, &self.floats)),
            BinaryOp::Lt => float_outcome(l.lt(r, ty, &self.floats)),
            BinaryOp::Le => float_outcome(l.le(r, ty, &self.floats)),
        }
    }

    fn truth(&self, node: &Node) -> (r: Result<bool, Error>)
        ensures
            r == truth(self@, *node),
        decreases node, 2int,
    {
        proof {
            reveal(Parser::view);
        }
        let value = self.eval_typed(node)?;
        float_outcome(value.truthy(&self.floats))
    }

    fn eval_typed(&self, node: &Node) -> (r: Result<ConstValue, Error>)
        ensures
            r == eval_typed(self@, *node),
        decreases node, 1int,
    {
        match self.to_const(node.known_ty()) {
            None => Err(Error::Terminate(node.span, Message::NotConstant)),
            Some(ty) => self.eval_kind(node, ty),
        }
    }

    fn eval_kind(&self, node: &Node, ty: ConstType) -> (r: Result<ConstValue, Error>)
        ensures
            r == eval_kind(self@, *node, ty),
        decreases node, 0int,
    {
        proof {
            reveal(Parser::view);
        }
        match &node.kind {
            NodeKind::Num(value) => Ok(ConstValue::integer(*value, ty)),
            NodeKind::Flonum(bits) => float_outcome(ConstValue::float(*bits, ty, &self.floats)),
            NodeKind::Neg(expr) => {
                let value = self.eval_typed(expr)?;
                float_outcome(value.neg(ty, &self.floats))
            },
            NodeKind::Not(expr) => {
                let value = self.eval_typed(expr)?;
                float_outcome(value.not(ty, &self.floats))
            },
            NodeKind::BitNot(expr) => {
                let value = self.eval_typed(expr)?;
                Ok(value.bit_not(ty))
            },
            NodeKind::Comma { lhs: _, rhs } => self.eval_typed(rhs),
            NodeKind::LogicalAnd { lhs, rhs } => {
                if self.truth(lhs)? {
                    let b = self.truth(rhs)?;
                    Ok(ConstValue::boolean(b, ty))
                } else {
                    Ok(ConstValue::boolean(false, ty))
                }
            },
            NodeKind::LogicalOr { lhs, rhs } => {
                if self.truth(lhs)? {
                    Ok(ConstValue::boolean(true, ty))
                } else {
                    let b = self.truth(rhs)?;
                    Ok(ConstValue::boolean(b, ty))
                }
            },
            NodeKind::Binary { op, lhs, rhs } => {
                let l = self.eval_typed(lhs)?;
                let r = self.eval_typed(rhs)?;
                self.fold_binary(*op, l, r, ty, node.span)
            },
            NodeKind::Conditional { cond, then_expr, else_expr } => {
                if self.truth(cond)? {
                    self.eval_typed(then_expr)
                } else {
                    self.eval_typed(else_expr)
                }
            },
            NodeKind::Cast(expr) => {
                let value = self.eval_typed(expr)?;
                float_outcome(value.cast(ty, &self.floats))
            },
            _ => Err(Error::Terminate(node.span, Message::NotConstant)),
        }
    }

    /// Evaluate an expression as a compile-time constant.
    ///
    /// Integer promotions and usual arithmetic conversions are lowered into
    /// explicit casts in the AST by type inference, which comes first.
    pub fn eval(&mut self, node: Node) -> (r: Result<ConstValue, Error>)
        requires
            old(self).inv(),
        ensures
            final(self).inv(),
            eval(old(self)@, node) == (Out { st: final(self)@, r }),
            pauses(old(self)@, final(self)@, true),
    {
        proof {
            reveal(eval);
        }
        let node = self.infer_type(node)?;
        self.eval_typed(&node)
    }

    fn fold_address(
        &self,
        is_add: bool,
        l: GlobalInitValue,
        r: GlobalInitValue,
        ty: ConstType,
        span: SourceSpan,
    ) -> (out: Result<GlobalInitValue, Error>)
        ensures
            out == fold_address(self@, is_add, l, r, ty, span),
    {
        proof {
            reveal(Parser::view);
        }
        match (l, r) {
            (GlobalInitValue::Num(l), GlobalInitValue::Num(r)) => {
                let sum = if is_add {
                    l.add(r, ty, &self.floats)
                } else {
                    l.sub(r, ty, &self.floats)
                };
                match sum {
                    Ok(value) => Ok(GlobalInitValue::Num(value)),
                    Err(query) => Err(Error::NeedsFloat(query)),
                }
            },
            (GlobalInitValue::Reloc(label, addend), GlobalInitValue::Num(r)) => {
                if r.ty.is_flonum() {
                    return Err(Error::Terminate(span, Message::InvalidInitializer));
                }
                let n: i64 = bits_as_signed(r.int_bits());
                if is_add {
                    Ok(GlobalInitValue::Reloc(label, addend.wrapping_add(n)))
                } else {
                    Ok(GlobalInitValue::Reloc(label, addend.wrapping_sub(n)))
                }
            },
            (GlobalInitValue::Num(l), GlobalInitValue::Reloc(label, addend)) => {
                if !is_add || l.ty.is_flonum() {
                    return Err(Error::Terminate(span, Message::InvalidInitializer));
                }
                let n: i64 = bits_as_signed(l.int_bits());
                Ok(GlobalInitValue::Reloc(label, addend.wrapping_add(n)))
            },
            _ => Err(Error::Terminate(span, Message::InvalidInitializer)),
        }
    }

    fn eval_num(&self, node: &Node) -> (r: Result<GlobalInitValue, Error>)
        ensures
            r == eval_num(self@, *node),
    {
        let value = self.eval_typed(node)?;
        Ok(GlobalInitValue::Num(value))
    }

    fn global_value(&self, node: &Node) -> (r: Result<GlobalInitValue, Error>)
        ensures
            r == global_value(self@, *node),
        decreases node, 2int,
    {
        let ty = node.known_ty();
        if self.as_array(ty).is_some() || self.is_func(ty) {
            // Arrays and functions decay to addresses in global initializers,
            // so evaluating them is evaluating their addresses rather than
            // plain integer constant evaluation
            return self.eval_global_addr(node);
        }
        match self.to_const(ty) {
            None => Err(Error::Terminate(node.span, Message::NotConstant)),
            Some(ty) => self.global_scalar(node, ty),
        }
    }

    fn global_scalar(&self, node: &Node, ty: ConstType) -> (r: Result<GlobalInitValue, Error>)
        ensures
            r == global_scalar(self@, *node, ty),
        decreases node, 0int,
    {
        match &node.kind {
            NodeKind::Binary { op, lhs, rhs } => {
                let l = self.global_value(lhs)?;
                let r = self.global_value(rhs)?;
                match op {
                    BinaryOp::Add => self.fold_address(true, l, r, ty, node.span),
                    BinaryOp::Sub => self.fold_address(false, l, r, ty, node.span),
                    _ => self.eval_num(node),
                }
            },
            NodeKind::Conditional { cond, then_expr, else_expr } => {
                if self.truth(cond)? {
                    self.global_value(then_expr)
                } else {
                    self.global_value(else_expr)
                }
            },
            NodeKind::Comma { lhs: _, rhs } => self.global_value(rhs),
            NodeKind::Cast(expr) => {
                match self.global_value(expr)? {
                    GlobalInitValue::Num(value) => {
                        proof {
                            reveal(Parser::view);
                        }
                        match value.cast(ty, &self.floats) {
                            Ok(value) => Ok(GlobalInitValue::Num(value)),
                            Err(query) => Err(Error::NeedsFloat(query)),
                        }
                    },
                    GlobalInitValue::Reloc(label, addend) => {
                        let to = node.known_ty();
                        if matches!(to, Type::Arith(ArithType::Long) | Type::Arith(ArithType::ULong))
                            || self.is_ptr(to) {
                            Ok(GlobalInitValue::Reloc(label, addend))
                        } else {
                            Err(Error::Terminate(node.span, Message::InvalidInitializer))
                        }
                    },
                }
            },
            NodeKind::Addr(expr) => self.eval_global_addr(expr),
            _ => self.eval_num(node),
        }
    }

    /// Evaluate an expression as relocatable address for a global initializer.
    fn eval_global_addr(&self, node: &Node) -> (r: Result<GlobalInitValue, Error>)
        ensures
            r == global_addr(self@, *node),
        decreases node, 1int,
    {
        match &node.kind {
            NodeKind::Entity(EntityRef::Global(id)) => {
                proof {
                    reveal(Parser::view);
                }
                if *id < self.globals.len() {
                    Ok(GlobalInitValue::Reloc(self.globals[*id].name, 0))
                } else {
                    Err(Error::Terminate(node.span, Message::InvalidInitializer))
                }
            },
            NodeKind::Entity(EntityRef::Function(id)) => {
                proof {
                    reveal(Parser::view);
                }
                if *id < self.functions.len() {
                    Ok(GlobalInitValue::Reloc(Name::Ident(self.functions[*id].name), 0))
                } else {
                    Err(Error::Terminate(node.span, Message::InvalidInitializer))
                }
            },
            NodeKind::Deref(expr) => self.global_value(expr),
            NodeKind::Member { parent, member } => match self.eval_global_addr(parent)? {
                GlobalInitValue::Reloc(label, addend) => {
                    if member.offset as u64 > i64::MAX as u64 {
                        return Err(Error::Overflow);
                    }
                    match addend.checked_add(member.offset as i64) {
                        Some(addend) => Ok(GlobalInitValue::Reloc(label, addend)),
                        None => Err(Error::Overflow),
                    }
                },
                _ => Err(Error::Terminate(node.span, Message::InvalidInitializer)),
            },
            _ => Err(Error::Terminate(node.span, Message::InvalidInitializer)),
        }
    }

    /// Evaluate a global initializer.
    ///
    /// On top of [`Parser::eval`], this further accepts "ptr+n" where "ptr" is
    /// a pointer to a global variable or function and "n" is a number.
    pub fn eval_global_init(&mut self, node: Node) -> (r: Result<GlobalInitValue, Error>)
        requires
            old(self).inv(),
        ensures
            final(self).inv(),
            eval_global_init(old(self)@, node) == (Out { st: final(self)@, r }),
            pauses(old(self)@, final(self)@, true),
    {
        proof {
            reveal(eval_global_init);
        }
        let node = self.infer_type(node)?;
        self.global_value(&node)
    }
}

/// Read the bits of an integer in two's complement.
pub(crate) fn bits_as_signed(bits: u64) -> (r: i64)
    ensures
        r == as_signed(bits),
{
    if bits >= 0x8000_0000_0000_0000 {
        (bits - 0x8000_0000_0000_0000) as i64 + i64::MIN
    } else {
        bits as i64
    }
}

} // verus!
