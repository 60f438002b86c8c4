//! The type system for expressions.

use vstd::prelude::*;
use crate::utils::{align_up, align_up_is_least_multiple, checked_align_up_to};

verus! {

/// An identifier, given by its index in the table of interned names.
#[derive(Clone, Copy, Debug, PartialEq, Eq, Structural)]
pub struct Symbol(pub usize);

/// Arithmetic types.
///
/// **Note:** This is not intended for direct use. Use [`Type`] or [`ConstType`]
/// instead.
#[derive(Clone, Copy, Debug, PartialEq, Eq, Structural)]
pub enum ArithType {
    Bool,
    Char,
    UChar,
    Short,
    UShort,
    Int,
    UInt,
    Long,
    ULong,
    Float,
    Double,
}

/// The size of an arithmetic type in bytes.
pub open spec fn arith_size(ty: ArithType) -> u64 {
    match ty {
        ArithType::Bool | ArithType::Char | ArithType::UChar => 1,
        ArithType::Short | ArithType::UShort => 2,
        ArithType::Int | ArithType::UInt | ArithType::Float => 4,
        ArithType::Long | ArithType::ULong | ArithType::Double => 8,
    }
}

pub open spec fn arith_is_signed(ty: ArithType) -> bool {
    ty == ArithType::Char || ty == ArithType::Short || ty == ArithType::Int || ty
        == ArithType::Long
}

pub open spec fn arith_is_unsigned(ty: ArithType) -> bool {
    ty == ArithType::UChar || ty == ArithType::UShort || ty == ArithType::UInt || ty
        == ArithType::ULong
}

pub open spec fn arith_is_flonum(ty: ArithType) -> bool {
    ty == ArithType::Float || ty == ArithType::Double
}

/// Integer promotion: what is narrower than `int` becomes `int`.
pub open spec fn arith_promote(ty: ArithType) -> Option<ArithType> {
    if arith_is_flonum(ty) {
        None
    } else if arith_size(ty) < 4 {
        Some(ArithType::Int)
    } else {
        Some(ty)
    }
}

/// The usual arithmetic conversions on two arithmetic types.
pub open spec fn arith_coerce(lhs: ArithType, rhs: ArithType) -> ArithType {
    if lhs == ArithType::Double || rhs == ArithType::Double {
        ArithType::Double
    } else if lhs == ArithType::Float || rhs == ArithType::Float {
        ArithType::Float
    } else {
        let l = arith_promote(lhs).unwrap();
        let r = arith_promote(rhs).unwrap();
        if arith_size(l) < arith_size(r) {
            r
        } else if arith_size(l) > arith_size(r) {
            l
        } else if arith_is_unsigned(r) {
            r
        } else {
            l
        }
    }
}

impl ArithType {
    /// Return the size of this type in bytes.
    pub fn size(self) -> (r: u64)
        ensures
            r == arith_size(self),
    {
        match self {
            ArithType::Bool | ArithType::Char | ArithType::UChar => 1,
            ArithType::Short | ArithType::UShort => 2,
            ArithType::Int | ArithType::UInt | ArithType::Float => 4,
            ArithType::Long | ArithType::ULong | ArithType::Double => 8,
        }
    }

    /// Return whether this is a signed integer type.
    pub fn is_signed(self) -> (r: bool)
        ensures
            r == arith_is_signed(self),
    {
        matches!(self, ArithType::Char | ArithType::Short | ArithType::Int | ArithType::Long)
    }

    /// Return whether this is an unsigned integer type other than `_Bool`.
    pub fn is_unsigned(self) -> (r: bool)
        ensures
            r == arith_is_unsigned(self),
    {
        matches!(self, ArithType::UChar | ArithType::UShort | ArithType::UInt | ArithType::ULong)
    }

    /// Return whether this is a floating-point type.
    pub fn is_flonum(self) -> (r: bool)
        ensures
            r == arith_is_flonum(self),
    {
        matches!(self, ArithType::Float | ArithType::Double)
    }

    /// Return the type after integer promotion, if this is an integer type.
    pub fn promote_int(self) -> (r: Option<ArithType>)
        ensures
            r == arith_promote(self),
    {
        match self {
            ArithType::Bool | ArithType::Char | ArithType::UChar | ArithType::Short
            | ArithType::UShort | ArithType::Int => Some(ArithType::Int),
            ArithType::UInt | ArithType::Long | ArithType::ULong => Some(self),
            _ => None,
        }
    }

    /// Coerce with another type via the usual arithmetic conversions.
    pub fn coerce(self, other: ArithType) -> (r: ArithType)
        ensures
            r == arith_coerce(self, other),
    {
        if matches!(self, ArithType::Double) || matches!(other, ArithType::Double) {
            return ArithType::Double;
        }
        if matches!(self, ArithType::Float) || matches!(other, ArithType::Float) {
            return ArithType::Float;
        }
        let lhs = self.promote_int().unwrap_or(self);
        let rhs = other.promote_int().unwrap_or(other);
        if lhs.size() < rhs.size() {
            return rhs;
        }
        if lhs.size() > rhs.size() {
            return lhs;
        }
        if rhs.is_unsigned() {
            rhs
        } else {
            lhs
        }
    }
}

/// The common type of two operands is the floating-point type among them, the wider
/// one of two; else the first of `unsigned long`, `long`, and `unsigned int` that is
/// among them; and else `int`.
pub proof fn arith_coerce_follows_the_ranks(lhs: ArithType, rhs: ArithType)
    ensures
        ({
            let has = |ty: ArithType| lhs == ty || rhs == ty;
            arith_coerce(lhs, rhs) == (if has(ArithType::Double) {
                ArithType::Double
            } else if has(ArithType::Float) {
                ArithType::Float
            } else if has(ArithType::ULong) {
                ArithType::ULong
            } else if has(ArithType::Long) {
                ArithType::Long
            } else if has(ArithType::UInt) {
                ArithType::UInt
            } else {
                ArithType::Int
            })
        }),
        arith_promote(lhs) == (match lhs {
            ArithType::Float | ArithType::Double => None,
            ArithType::UInt | ArithType::Long | ArithType::ULong => Some(lhs),
            _ => Some(ArithType::Int),
        }),
{
}

/// The usual arithmetic conversions do not depend on the order of the operands.
pub proof fn arith_coerce_is_commutative(lhs: ArithType, rhs: ArithType)
    ensures
        arith_coerce(lhs, rhs) == arith_coerce(rhs, lhs),
{
}

/// The usual arithmetic conversions do not depend on how three operands are
/// grouped.
pub proof fn arith_coerce_is_associative(a: ArithType, b: ArithType, c: ArithType)
    ensures
        arith_coerce(arith_coerce(a, b), c) == arith_coerce(a, arith_coerce(b, c)),
{
}

/// The common type of two operands is never narrower than either of them, and
/// is never narrower than `int`.
pub proof fn arith_coerce_does_not_narrow(lhs: ArithType, rhs: ArithType)
    ensures
        arith_size(arith_coerce(lhs, rhs)) >= 4,
        arith_is_flonum(arith_coerce(lhs, rhs)) <==> arith_is_flonum(lhs) || arith_is_flonum(rhs),
        !arith_is_flonum(lhs) && !arith_is_flonum(rhs) ==> arith_size(arith_coerce(lhs, rhs))
            >= arith_size(lhs) && arith_size(arith_coerce(lhs, rhs)) >= arith_size(rhs),
{
}

/// Expression types that can be evaluated at compile-time.
#[derive(Clone, Copy, Debug, PartialEq, Eq, Structural)]
pub enum ConstType {
    Arith(ArithType),
    Ptr,
}

impl ConstType {
    pub open spec fn spec_is_signed(self) -> bool {
        self is Arith && arith_is_signed(self->Arith_0)
    }

    pub open spec fn spec_is_flonum(self) -> bool {
        self is Arith && arith_is_flonum(self->Arith_0)
    }

    pub open spec fn spec_width(self) -> u64 {
        match self {
            ConstType::Arith(arith) => (arith_size(arith) * 8) as u64,
            ConstType::Ptr => 64,
        }
    }

    /// Return whether this is a signed integer type.
    pub fn is_signed(self) -> (r: bool)
        ensures
            r == self.spec_is_signed(),
    {
        match self {
            ConstType::Arith(arith) => arith.is_signed(),
            _ => false,
        }
    }

    /// Return whether this is an unsigned integer type.
    ///
    /// Note that `_Bool` is intentionally excluded by this method, because it
    /// does not follow the standard unsigned integer arithmetics.
    pub fn is_unsigned(self) -> (r: bool)
        ensures
            r == (self is Arith && arith_is_unsigned(self->Arith_0)),
    {
        match self {
            ConstType::Arith(arith) => arith.is_unsigned(),
            _ => false,
        }
    }

    /// Return whether this is a floating-point type.
    pub fn is_flonum(self) -> (r: bool)
        ensures
            r == self.spec_is_flonum(),
    {
        match self {
            ConstType::Arith(arith) => arith.is_flonum(),
            _ => false,
        }
    }

    /// Return the width of this type in bits.
    pub fn width(self) -> (r: u64)
        ensures
            r == self.spec_width(),
            r == 8 || r == 16 || r == 32 || r == 64,
    {
        match self {
            ConstType::Arith(arith) => arith.size() * 8,
            ConstType::Ptr => 64,
        }
    }

    /// The compile-time type that stands for a type with no stored definition.
    pub fn from_type(ty: Type) -> (r: Option<ConstType>)
        ensures
            r == (match ty {
                Type::Arith(arith) => Some(ConstType::Arith(arith)),
                Type::Enum => Some(ConstType::Arith(ArithType::Int)),
                _ => None,
            }),
    {
        match ty {
            Type::Arith(arith) => Some(ConstType::Arith(arith)),
            Type::Enum => Some(ConstType::Arith(ArithType::Int)),
            _ => None,
        }
    }
}

/// Expression types.
#[derive(Clone, Copy, Debug, PartialEq, Eq, Structural)]
pub enum Type {
    Dummy,
    Void,
    Enum,
    Arith(ArithType),
    /// A non-trivial type stored in [`TypeStore`].
    Stored(usize),
}

impl Default for Type {
    fn default() -> (r: Type)
        ensures
            r == Type::Dummy,
    {
        Type::Dummy
    }
}

/// The type with enumerations seen as `int`.
pub open spec fn enum_as_int(ty: Type) -> Type {
    if ty == Type::Enum {
        Type::Arith(ArithType::Int)
    } else {
        ty
    }
}

pub open spec fn ty_is_signed(ty: Type) -> bool {
    enum_as_int(ty) is Arith && arith_is_signed(enum_as_int(ty)->Arith_0)
}

pub open spec fn ty_is_unsigned(ty: Type) -> bool {
    ty is Arith && arith_is_unsigned(ty->Arith_0)
}

pub open spec fn ty_is_integer(ty: Type) -> bool {
    enum_as_int(ty) is Arith && !arith_is_flonum(enum_as_int(ty)->Arith_0)
}

pub open spec fn ty_is_flonum(ty: Type) -> bool {
    ty is Arith && arith_is_flonum(ty->Arith_0)
}

pub open spec fn ty_is_arith(ty: Type) -> bool {
    ty is Arith || ty is Enum
}

pub open spec fn ty_promote(ty: Type) -> Option<Type> {
    match enum_as_int(ty) {
        Type::Arith(arith) => match arith_promote(arith) {
            Some(p) => Some(Type::Arith(p)),
            None => None,
        },
        _ => None,
    }
}

pub open spec fn ty_coerce(lhs: Type, rhs: Type) -> Option<Type> {
    match (enum_as_int(lhs), enum_as_int(rhs)) {
        (Type::Arith(l), Type::Arith(r)) => Some(Type::Arith(arith_coerce(l, r))),
        _ => None,
    }
}

impl Type {
    /// Return the type with enumerations seen as `int`.
    pub fn enum_as_int(self) -> (r: Type)
        ensures
            r == enum_as_int(self),
    {
        match self {
            Type::Enum => Type::Arith(ArithType::Int),
            _ => self,
        }
    }

    /// Return whether this is a signed integer type.
    pub fn is_signed(self) -> (r: bool)
        ensures
            r == ty_is_signed(self),
    {
        match self.enum_as_int() {
            Type::Arith(arith) => arith.is_signed(),
            _ => false,
        }
    }

    /// Return whether this is an unsigned integer type.
    ///
    /// Note that `_Bool` is intentionally excluded by this method, because it
    /// does not follow the standard unsigned integer arithmetics.
    pub fn is_unsigned(self) -> (r: bool)
        ensures
            r == ty_is_unsigned(self),
    {
        match self {
            Type::Arith(arith) => arith.is_unsigned(),
            _ => false,
        }
    }

    /// Return whether this is an integer type.
    ///
    /// This covers signed, unsigned, and `_Bool`.
    pub fn is_integer(self) -> (r: bool)
        ensures
            r == ty_is_integer(self),
    {
        self.is_signed() || self.is_unsigned() || matches!(self, Type::Arith(ArithType::Bool))
    }

    /// Return whether this is a floating-point type.
    pub fn is_flonum(self) -> (r: bool)
        ensures
            r == ty_is_flonum(self),
    {
        match self {
            Type::Arith(arith) => arith.is_flonum(),
            _ => false,
        }
    }

    /// Return whether this is an arithmetic type.
    ///
    /// This covers both integer and floating-point types.
    pub fn is_arith(self) -> (r: bool)
        ensures
            r == ty_is_arith(self),
    {
        self.is_integer() || self.is_flonum()
    }

    /// Return the resulting type after integer promotion.
    ///
    /// If the type is not an integer type, this returns `None`.
    pub fn promote_int(self) -> (r: Option<Type>)
        ensures
            r == ty_promote(self),
    {
        match self.enum_as_int() {
            Type::Arith(arith) => match arith.promote_int() {
                Some(promoted) => Some(Type::Arith(promoted)),
                None => None,
            },
            _ => None,
        }
    }

    /// Coerce with another type via the usual arithmetic conversions.
    pub fn coerce(self, other: Type) -> (r: Option<Type>)
        ensures
            r == ty_coerce(self, other),
    {
        match (self.enum_as_int(), other.enum_as_int()) {
            (Type::Arith(lhs), Type::Arith(rhs)) => Some(Type::Arith(lhs.coerce(rhs))),
            _ => None,
        }
    }

    /// The type of a compile-time value of the given type.
    pub fn from_const(ty: ConstType) -> (r: Type)
        ensures
            r == const_to_type(ty),
    {
        match ty {
            ConstType::Arith(arith) => Type::Arith(arith),
            ConstType::Ptr => Type::Arith(ArithType::ULong),
        }
    }
}

pub open spec fn const_to_type(ty: ConstType) -> Type {
    match ty {
        ConstType::Arith(arith) => Type::Arith(arith),
        ConstType::Ptr => Type::Arith(ArithType::ULong),
    }
}

/// An array type.
#[derive(Clone, Copy, Debug, PartialEq, Eq, Structural)]
pub struct ArrayTypeData {
    pub base: Type,
    /// If `None`, this represents an incomplete array type.
    pub len: Option<usize>,
}

/// A function type.
#[derive(Debug)]
pub struct FuncTypeData {
    pub return_ty: Type,
    pub params: Vec<Type>,
    pub is_variadic: bool,
}

/// A member of a struct.
#[derive(Clone, Copy, Debug, PartialEq, Eq, Structural)]
pub struct Member {
    pub ty: Type,
    pub name: Symbol,
    /// Optional alignment override via "_Alignas".
    pub align: Option<u64>,
    /// The byte offset of the member in the struct.
    pub offset: usize,
    /// The bits that hold the member, if it is a bit-field.
    pub bit_field: Option<BitField>,
}

/// The place of a bit-field within the storage of its member.
#[derive(Clone, Copy, Debug, PartialEq, Eq, Structural)]
pub struct BitField {
    pub width: u32,
    pub offset: u32,
}

/// A struct or union type.
#[derive(Debug)]
pub struct StructOrUnionTypeData {
    pub is_struct: bool,
    /// If `None`, this represents an incomplete struct or union type.
    pub members: Option<Vec<Member>>,
}

/// The form of a stored type.
#[derive(Debug)]
pub enum TypeDataKind {
    Ptr(Type),
    Array(ArrayTypeData),
    Func(FuncTypeData),
    StructOrUnion(StructOrUnionTypeData),
}

/// A stored type with its size and alignment in bytes.
#[derive(Debug)]
pub struct TypeData {
    pub kind: TypeDataKind,
    pub size: u64,
    pub align: u64,
}

/// The mathematical form of [`TypeDataKind`].
pub enum TypeForm {
    Ptr(Type),
    Array(ArrayTypeData),
    Func { return_ty: Type, params: Seq<Type>, is_variadic: bool },
    StructOrUnion { is_struct: bool, members: Option<Seq<Member>> },
}

/// The mathematical form of [`TypeData`].
pub struct TypeEntry {
    pub form: TypeForm,
    pub size: u64,
    pub align: u64,
}

impl StructOrUnionTypeData {
    pub open spec fn members_view(&self) -> Option<Seq<Member>> {
        match self.members {
            Some(members) => Some(members@),
            None => None,
        }
    }
}

impl TypeDataKind {
    pub open spec fn view(&self) -> TypeForm {
        match *self {
            TypeDataKind::Ptr(base) => TypeForm::Ptr(base),
            TypeDataKind::Array(array) => TypeForm::Array(array),
            TypeDataKind::Func(func) => TypeForm::Func {
                return_ty: func.return_ty,
                params: func.params@,
                is_variadic: func.is_variadic,
            },
            TypeDataKind::StructOrUnion(sou) => TypeForm::StructOrUnion {
                is_struct: sou.is_struct,
                members: sou.members_view(),
            },
        }
    }
}

impl TypeData {
    pub open spec fn view(&self) -> TypeEntry {
        TypeEntry { form: self.kind@, size: self.size, align: self.align }
    }
}

/// The global store of non-trivial type definitions used by the parsed program.
#[derive(Debug)]
pub struct TypeStore {
    pub types: Vec<TypeData>,
    pub frozen: bool,
}

/// Stored types by index.
pub type Types = Seq<TypeEntry>;

/// Position of a type in the order in which types are built from one another.
pub open spec fn type_rank(ty: Type) -> int {
    match ty {
        Type::Stored(id) => id + 1,
        _ => 0,
    }
}

/// Pointer, array, and function types refer to types stored before them.
pub open spec fn entry_refers_back(entry: TypeEntry, id: int) -> bool {
    match entry.form {
        TypeForm::Ptr(base) => type_rank(base) <= id,
        TypeForm::Array(array) => type_rank(array.base) <= id,
        TypeForm::Func { return_ty, params, .. } => type_rank(return_ty) <= id && forall|k: int|
            0 <= k < params.len() ==> type_rank(#[trigger] params[k]) <= id,
        TypeForm::StructOrUnion { .. } => true,
    }
}

pub open spec fn types_wf(types: Types) -> bool {
    forall|id: int| 0 <= id < types.len() ==> entry_refers_back(#[trigger] types[id], id)
}

/// The stored definition of a type, if it has one.
pub open spec fn lookup(types: Types, ty: Type) -> Option<TypeEntry> {
    match ty {
        Type::Stored(id) => if id < types.len() {
            Some(types[id as int])
        } else {
            None
        },
        _ => None,
    }
}

pub open spec fn size_of(types: Types, ty: Type) -> u64 {
    match ty {
        Type::Dummy => 0,
        Type::Void => 1,
        Type::Enum => 4,
        Type::Arith(arith) => arith_size(arith),
        Type::Stored(_) => match lookup(types, ty) {
            Some(entry) => entry.size,
            None => 0,
        },
    }
}

pub open spec fn align_of(types: Types, ty: Type) -> u64 {
    match ty {
        Type::Dummy => 0,
        Type::Void => 1,
        Type::Enum => 4,
        Type::Arith(arith) => arith_size(arith),
        Type::Stored(_) => match lookup(types, ty) {
            Some(entry) => entry.align,
            None => 0,
        },
    }
}

pub open spec fn eff_align_of(types: Types, align: Option<u64>, ty: Type) -> u64 {
    match align {
        Some(align) => align,
        None => align_of(types, ty),
    }
}

pub open spec fn base_of(types: Types, ty: Type) -> Option<Type> {
    match lookup(types, ty) {
        Some(entry) => match entry.form {
            TypeForm::Ptr(base) => Some(base),
            TypeForm::Array(array) => Some(array.base),
            _ => None,
        },
        None => None,
    }
}

pub open spec fn array_of(types: Types, ty: Type) -> Option<ArrayTypeData> {
    match lookup(types, ty) {
        Some(entry) => match entry.form {
            TypeForm::Array(array) => Some(array),
            _ => None,
        },
        None => None,
    }
}

pub open spec fn is_func_ty(types: Types, ty: Type) -> bool {
    match lookup(types, ty) {
        Some(entry) => entry.form is Func,
        None => false,
    }
}

pub open spec fn is_ptr_ty(types: Types, ty: Type) -> bool {
    match lookup(types, ty) {
        Some(entry) => entry.form is Ptr,
        None => false,
    }
}

pub open spec fn is_sou_ty(types: Types, ty: Type) -> bool {
    match lookup(types, ty) {
        Some(entry) => entry.form is StructOrUnion,
        None => false,
    }
}

/// The function type of `ty`, or of what it points to if `accept_ptr`.
pub open spec fn func_of(types: Types, ty: Type, accept_ptr: bool) -> Option<TypeForm> {
    match lookup(types, ty) {
        Some(entry) => if entry.form is Func {
            Some(entry.form)
        } else if accept_ptr {
            match base_of(types, ty) {
                Some(base) => if is_func_ty(types, base) {
                    Some(lookup(types, base).unwrap().form)
                } else {
                    None
                },
                None => None,
            }
        } else {
            None
        },
        None => None,
    }
}

pub open spec fn is_incomplete_ty(types: Types, ty: Type) -> bool {
    ty == Type::Void || match lookup(types, ty) {
        Some(entry) => match entry.form {
            TypeForm::Array(array) => array.len is None,
            TypeForm::StructOrUnion { members, .. } => members is None,
            _ => false,
        },
        None => false,
    }
}

/// Whether two types are the same: pointer, array, and function types by
/// structure, all others by identity.
pub open spec fn same(types: Types, this: Type, other: Type) -> bool
    decreases type_rank(this),
{
    this == other || match (lookup(types, this), lookup(types, other)) {
        (Some(l), Some(r)) => match (l.form, r.form) {
            (TypeForm::Ptr(l), TypeForm::Ptr(r)) => type_rank(l) < type_rank(this) && same(
                types,
                l,
                r,
            ),
            (TypeForm::Array(l), TypeForm::Array(r)) => l.len == r.len && type_rank(l.base)
                < type_rank(this) && same(types, l.base, r.base),
            (
                TypeForm::Func { return_ty: lret, params: lparams, is_variadic: lvar },
                TypeForm::Func { return_ty: rret, params: rparams, is_variadic: rvar },
            ) => {
                &&& type_rank(lret) < type_rank(this)
                &&& same(types, lret, rret)
                &&& lvar == rvar
                &&& lparams.len() == rparams.len()
                &&& forall|k: int|
                    0 <= k < lparams.len() ==> type_rank(#[trigger] lparams[k]) < type_rank(this)
                        && same(types, lparams[k], rparams[k])
            },
            _ => false,
        },
        _ => false,
    }
}

/// The type of an object declared once with each type, if they agree.
pub open spec fn merged(types: Types, this: Type, other: Type) -> Option<Type> {
    if same(types, this, other) {
        Some(this)
    } else {
        match (array_of(types, this), array_of(types, other)) {
            (Some(l), Some(r)) => if !same(types, l.base, r.base) {
                None
            } else if l.len is None && r.len is Some {
                Some(other)
            } else if l.len is Some && r.len is None {
                Some(this)
            } else {
                None
            },
            _ => None,
        }
    }
}

/// A type is the same as itself.
pub proof fn same_is_reflexive(types: Types, ty: Type)
    ensures
        same(types, ty, ty),
{
}

/// Whether two types are the same does not depend on their order.
pub proof fn same_is_symmetric(types: Types, this: Type, other: Type)
    requires
        types_wf(types),
        same(types, this, other),
    ensures
        same(types, other, this),
    decreases type_rank(this),
{
    if this != other {
        let l = lookup(types, this).unwrap();
        let r = lookup(types, other).unwrap();
        assert(entry_refers_back(l, type_rank(this) - 1));
        assert(entry_refers_back(r, type_rank(other) - 1));
        match (l.form, r.form) {
            (TypeForm::Ptr(l), TypeForm::Ptr(r)) => same_is_symmetric(types, l, r),
            (TypeForm::Array(l), TypeForm::Array(r)) => same_is_symmetric(types, l.base, r.base),
            (
                TypeForm::Func { return_ty: lret, params: lparams, .. },
                TypeForm::Func { return_ty: rret, params: rparams, .. },
            ) => {
                same_is_symmetric(types, lret, rret);
                assert forall|k: int| 0 <= k < rparams.len() implies type_rank(
                    #[trigger] rparams[k],
                ) < type_rank(other) && same(types, rparams[k], lparams[k]) by {
                    assert(type_rank(lparams[k]) < type_rank(this));
                    same_is_symmetric(types, lparams[k], rparams[k]);
                }
            },
            _ => {},
        }
    }
}

/// Types that are the same as a third are the same as one another.
pub proof fn same_is_transitive(types: Types, a: Type, b: Type, c: Type)
    requires
        types_wf(types),
        same(types, a, b),
        same(types, b, c),
    ensures
        same(types, a, c),
    decreases type_rank(a),
{
    if a != b && b != c && a != c {
        let l = lookup(types, a).unwrap();
        let m = lookup(types, b).unwrap();
        let r = lookup(types, c).unwrap();
        match (l.form, m.form, r.form) {
            (TypeForm::Ptr(l), TypeForm::Ptr(m), TypeForm::Ptr(r)) => same_is_transitive(
                types,
                l,
                m,
                r,
            ),
            (TypeForm::Array(l), TypeForm::Array(m), TypeForm::Array(r)) => same_is_transitive(
                types,
                l.base,
                m.base,
                r.base,
            ),
            (
                TypeForm::Func { return_ty: lret, params: lparams, .. },
                TypeForm::Func { return_ty: mret, params: mparams, .. },
                TypeForm::Func { return_ty: rret, params: rparams, .. },
            ) => {
                same_is_transitive(types, lret, mret, rret);
                assert forall|k: int| 0 <= k < lparams.len() implies type_rank(
                    #[trigger] lparams[k],
                ) < type_rank(a) && same(types, lparams[k], rparams[k]) by {
                    assert(type_rank(mparams[k]) < type_rank(b));
                    same_is_transitive(types, lparams[k], mparams[k], rparams[k]);
                }
            },
            _ => {},
        }
    }
}

/// Merging two declarations yields a type that both agree with: it is the same
/// as either type, or it completes the array type that leaves its length open.
pub proof fn merged_agrees_with_both(types: Types, this: Type, other: Type)
    requires
        types_wf(types),
        merged(types, this, other) is Some,
    ensures
        merged(types, this, other) == Some(this) || merged(types, this, other) == Some(other),
        merged(types, merged(types, this, other).unwrap(), this) is Some,
        merged(types, merged(types, this, other).unwrap(), other) is Some,
{
    let m = merged(types, this, other).unwrap();
    same_is_reflexive(types, this);
    same_is_reflexive(types, other);
    if !same(types, this, other) {
        let l = array_of(types, this).unwrap();
        let r = array_of(types, other).unwrap();
        same_is_symmetric(types, l.base, r.base);
    }
}

/// The byte after the first `k` members of a struct, without trailing padding.
pub open spec fn members_end(types: Types, members: Seq<Member>, k: nat) -> int
    decreases k,
{
    if k == 0 {
        0
    } else {
        let last = members[k - 1];
        align_up(
            members_end(types, members, (k - 1) as nat),
            eff_align_of(types, last.align, last.ty) as int,
        ) + size_of(types, last.ty)
    }
}

/// The byte at which member `k` of a struct starts.
pub open spec fn member_start(types: Types, members: Seq<Member>, k: int) -> int {
    align_up(
        members_end(types, members, k as nat),
        eff_align_of(types, members[k].align, members[k].ty) as int,
    )
}

pub open spec fn int_max(a: int, b: int) -> int {
    if a < b {
        b
    } else {
        a
    }
}

/// The strictest alignment among the first `k` members, and 1 if none.
pub open spec fn members_align(types: Types, members: Seq<Member>, k: nat) -> int
    decreases k,
{
    if k == 0 {
        1
    } else {
        let last = members[k - 1];
        int_max(
            members_align(types, members, (k - 1) as nat),
            eff_align_of(types, last.align, last.ty) as int,
        )
    }
}

/// The largest size among the first `k` members, and 0 if none.
pub open spec fn members_max_size(types: Types, members: Seq<Member>, k: nat) -> int
    decreases k,
{
    if k == 0 {
        0
    } else {
        int_max(
            members_max_size(types, members, (k - 1) as nat),
            size_of(types, members[k - 1].ty) as int,
        )
    }
}

/// The byte after the last member, without trailing padding.
pub open spec fn content_size(types: Types, is_struct: bool, members: Seq<Member>) -> int {
    if is_struct {
        members_end(types, members, members.len())
    } else {
        members_max_size(types, members, members.len())
    }
}

/// The members with their offsets filled in.
pub open spec fn placed_members(types: Types, is_struct: bool, members: Seq<Member>) -> Seq<
    Member,
> {
    if is_struct {
        Seq::new(
            members.len(),
            |k: int|
                Member { offset: member_start(types, members, k) as usize, ..members[k] },
        )
    } else {
        members
    }
}

/// The size of a struct or union, with trailing padding.
pub open spec fn padded_size(types: Types, is_struct: bool, members: Seq<Member>) -> int {
    align_up(
        content_size(types, is_struct, members),
        members_align(types, members, members.len()),
    )
}

/// Whether member `k` of a struct is aligned and its bytes can be addressed.
pub open spec fn member_fits(types: Types, members: Seq<Member>, k: int) -> bool {
    &&& eff_align_of(types, members[k].align, members[k].ty) > 0
    &&& member_start(types, members, k) <= usize::MAX
    &&& member_start(types, members, k) + size_of(types, members[k].ty) <= u64::MAX
}

/// Whether the layout of the members can be represented at all.
pub open spec fn layout_fits(types: Types, is_struct: bool, members: Seq<Member>) -> bool {
    &&& is_struct ==> forall|k: int|
        0 <= k < members.len() ==> #[trigger] member_fits(types, members, k)
    &&& padded_size(types, is_struct, members) <= u64::MAX
}

proof fn members_end_is_increasing(types: Types, members: Seq<Member>, i: nat, j: nat)
    requires
        i <= j <= members.len(),
        forall|k: int| 0 <= k < members.len() ==> #[trigger] member_fits(types, members, k),
    ensures
        0 <= members_end(types, members, i) <= members_end(types, members, j),
    decreases j,
{
    if j > 0 {
        let last = (j - 1) as nat;
        assert(member_fits(types, members, last as int));
        members_end_is_increasing(types, members, if i < j { i } else { last }, last);
        align_up_is_least_multiple(
            members_end(types, members, last),
            eff_align_of(types, members[last as int].align, members[last as int].ty) as int,
        );
    }
}

/// In a struct, every member starts at a multiple of its alignment and after
/// the members before it, and lies within the struct, whose size is a multiple
/// of its alignment.
pub proof fn struct_members_follow_each_other(types: Types, members: Seq<Member>, i: int, k: int)
    requires
        layout_fits(types, true, members),
        0 <= i < k < members.len(),
    ensures
        ({
            let placed = placed_members(types, true, members);
            let align = eff_align_of(types, members[k].align, members[k].ty);
            &&& placed[k].offset as int % align as int == 0
            &&& placed[i].offset + size_of(types, members[i].ty) <= placed[k].offset
            &&& placed[k].offset + size_of(
                types,
                members[k].ty,
            ) <= padded_size(types, true, members)
            &&& padded_size(types, true, members) % members_align(types, members, members.len())
                == 0
        }),
{
    assert(member_fits(types, members, i));
    assert(member_fits(types, members, k));
    let n = members.len();
    members_end_is_increasing(types, members, 0, i as nat);
    members_end_is_increasing(types, members, (i + 1) as nat, k as nat);
    members_end_is_increasing(types, members, (k + 1) as nat, n);
    members_align_is_positive(types, members, n);
    align_up_is_least_multiple(
        members_end(types, members, i as nat),
        eff_align_of(types, members[i].align, members[i].ty) as int,
    );
    align_up_is_least_multiple(
        members_end(types, members, k as nat),
        eff_align_of(types, members[k].align, members[k].ty) as int,
    );
    align_up_is_least_multiple(
        members_end(types, members, n),
        members_align(types, members, n),
    );
}

proof fn members_align_is_positive(types: Types, members: Seq<Member>, k: nat)
    ensures
        members_align(types, members, k) >= 1,
    decreases k,
{
    if k > 0 {
        members_align_is_positive(types, members, (k - 1) as nat);
    }
}

proof fn members_align_is_an_upper_bound(types: Types, members: Seq<Member>, i: int, k: nat)
    requires
        0 <= i < k,
    ensures
        eff_align_of(types, members[i].align, members[i].ty) <= members_align(types, members, k),
    decreases k,
{
    if i < k - 1 {
        members_align_is_an_upper_bound(types, members, i, (k - 1) as nat);
    }
}

proof fn members_max_size_is_an_upper_bound(types: Types, members: Seq<Member>, i: int, k: nat)
    requires
        0 <= i < k,
    ensures
        size_of(types, members[i].ty) <= members_max_size(types, members, k),
    decreases k,
{
    if i < k - 1 {
        members_max_size_is_an_upper_bound(types, members, i, (k - 1) as nat);
    }
}

/// No member of a struct or union is aligned more strictly than the whole.
pub proof fn aggregate_is_aligned_for_its_members(types: Types, members: Seq<Member>, i: int)
    requires
        0 <= i < members.len(),
    ensures
        eff_align_of(types, members[i].align, members[i].ty) <= members_align(
            types,
            members,
            members.len(),
        ),
{
    members_align_is_an_upper_bound(types, members, i, members.len());
}

/// Every member of a union fits into it, and the members keep their offsets.
pub proof fn union_holds_every_member(types: Types, members: Seq<Member>, i: int)
    requires
        0 <= i < members.len(),
    ensures
        placed_members(types, false, members)[i].offset == members[i].offset,
        size_of(types, members[i].ty) <= padded_size(types, false, members),
        padded_size(types, false, members) % members_align(types, members, members.len()) == 0,
{
    members_max_size_is_an_upper_bound(types, members, i, members.len());
    members_align_is_positive(types, members, members.len());
    align_up_is_least_multiple(
        members_max_size(types, members, members.len()),
        members_align(types, members, members.len()),
    );
}

/// The store after a struct or union type has been given its members.
///
/// `None` if `ty` is no struct or union, or if the layout does not fit.
pub open spec fn completed(
    types: Types,
    is_struct: bool,
    members: Seq<Member>,
    ty: Type,
) -> Option<Types> {
    if is_sou_ty(types, ty) && layout_fits(types, is_struct, members) {
        let id = ty->Stored_0 as int;
        let was_struct = types[id].form->StructOrUnion_is_struct;
        Some(
            types.update(
                id,
                TypeEntry {
                    form: TypeForm::StructOrUnion {
                        is_struct: was_struct,
                        members: Some(placed_members(types, is_struct, members)),
                    },
                    size: padded_size(types, is_struct, members) as u64,
                    align: members_align(types, members, members.len()) as u64,
                },
            ),
        )
    } else {
        None
    }
}

/// The store with one more type.
pub open spec fn with_type(types: Types, form: TypeForm, size: u64, align: u64) -> Types {
    types.push(TypeEntry { form, size, align })
}

/// The type that the next stored definition gets.
pub open spec fn next_type(types: Types) -> Type {
    Type::Stored(types.len() as usize)
}

pub open spec fn with_ptr(types: Types, base: Type) -> Types {
    with_type(types, TypeForm::Ptr(base), 8, 8)
}

/// The size of an array of `len` elements, if it fits.
pub open spec fn array_size(types: Types, base: Type, len: Option<usize>) -> Option<u64> {
    match len {
        Some(len) => if size_of(types, base) * len <= u64::MAX {
            Some((size_of(types, base) * len) as u64)
        } else {
            None
        },
        None => Some(0),
    }
}

pub open spec fn with_array(types: Types, base: Type, len: Option<usize>) -> Types {
    with_type(
        types,
        TypeForm::Array(ArrayTypeData { base, len }),
        array_size(types, base, len).unwrap(),
        align_of(types, base),
    )
}

/// The common type of two operands, with the store that holds it.
pub open spec fn coerced(types: Types, lhs: Type, rhs: Type) -> (Types, Type) {
    if is_func_ty(types, lhs) {
        (with_ptr(types, lhs), next_type(types))
    } else if is_func_ty(types, rhs) {
        (with_ptr(types, rhs), next_type(types))
    } else if base_of(types, lhs) is Some {
        (with_ptr(types, base_of(types, lhs).unwrap()), next_type(types))
    } else if base_of(types, rhs) is Some {
        (with_ptr(types, base_of(types, rhs).unwrap()), next_type(types))
    } else {
        (
            types,
            match ty_coerce(lhs, rhs) {
                Some(ty) => ty,
                None => lhs,
            },
        )
    }
}

pub open spec fn const_of(types: Types, ty: Type) -> Option<ConstType> {
    match ty {
        Type::Arith(arith) => Some(ConstType::Arith(arith)),
        Type::Enum => Some(ConstType::Arith(ArithType::Int)),
        _ => if is_ptr_ty(types, ty) {
            Some(ConstType::Ptr)
        } else {
            None
        },
    }
}

/// Whether a value of type `ty` that starts at `offset` has a byte in `lo..hi`.
pub open spec fn overlaps(types: Types, ty: Type, lo: int, hi: int, offset: int) -> bool {
    exists|at: int| #[trigger] is_between(at, lo, hi) && is_between(
        at,
        offset,
        offset + size_of(types, ty),
    )
}

pub open spec fn is_between(at: int, lo: int, hi: int) -> bool {
    lo <= at < hi
}

/// Whether the scalars that overlap the bytes `lo..hi` are all floating-point,
/// in a value of type `ty` that starts at `offset`.
///
/// Aggregates nested deeper than `depth` count as not floating-point.
pub open spec fn fp_chunk(
    types: Types,
    ty: Type,
    lo: int,
    hi: int,
    offset: int,
    depth: nat,
) -> bool
    decreases depth,
{
    match lookup(types, ty) {
        Some(entry) => match entry.form {
            TypeForm::StructOrUnion { members, .. } => match members {
                None => false,
                Some(members) => depth > 0 && forall|k: int|
                    0 <= k < members.len() ==> fp_chunk(
                        types,
                        (#[trigger] members[k]).ty,
                        lo,
                        hi,
                        offset + members[k].offset,
                        (depth - 1) as nat,
                    ),
            },
            TypeForm::Array(array) => match array.len {
                None => false,
                Some(len) => depth > 0 && forall|i: int|
                    0 <= i < len ==> fp_chunk(
                        types,
                        array.base,
                        lo,
                        hi,
                        #[trigger] (offset + size_of(types, array.base) * i),
                        (depth - 1) as nat,
                    ),
            },
            _ => !overlaps(types, ty, lo, hi, offset),
        },
        None => !overlaps(types, ty, lo, hi, offset) || ty_is_flonum(ty),
    }
}

/// Whether a type is a struct, a union, or an array.
pub open spec fn is_aggregate_ty(types: Types, ty: Type) -> bool {
    is_sou_ty(types, ty) || array_of(types, ty) is Some
}

/// Whether the byte chunk `lo..hi` of a type is passed in an fp register: the
/// type is a floating-point type, or an aggregate whose fields in that chunk
/// all are.
pub open spec fn chunk_in_fp(types: Types, ty: Type, lo: u64, hi: u64) -> bool {
    if is_aggregate_ty(types, ty) {
        fp_chunk(types, ty, lo as int, hi as int, 0, types.len())
    } else {
        ty_is_flonum(ty)
    }
}

fn rank_below(ty: Type, bound: Type) -> (r: bool)
    ensures
        r == (type_rank(ty) < type_rank(bound)),
{
    match (ty, bound) {
        (Type::Stored(l), Type::Stored(r)) => l < r,
        (_, Type::Stored(_)) => true,
        _ => false,
    }
}

/// Copy a list of types.
pub fn copy_types(types: &Vec<Type>) -> (r: Vec<Type>)
    ensures
        r@ == types@,
{
    let mut out: Vec<Type> = Vec::new();
    let mut i: usize = 0;
    while i < types.len()
        invariant
            i <= types.len(),
            out@ == types@.take(i as int),
        decreases types.len() - i,
    {
        out.push(types[i]);
        i += 1;
        assert(types@.take(i as int) =~= types@.take(i - 1).push(types@[i - 1]));
    }
    assert(types@.take(types.len() as int) =~= types@);
    out
}

/// Copy a list of members.
pub fn copy_members(members: &Vec<Member>) -> (r: Vec<Member>)
    ensures
        r@ == members@,
{
    let mut out: Vec<Member> = Vec::new();
    let mut i: usize = 0;
    while i < members.len()
        invariant
            i <= members.len(),
            out@ == members@.take(i as int),
        decreases members.len() - i,
    {
        out.push(members[i]);
        i += 1;
        assert(members@.take(i as int) =~= members@.take(i - 1).push(members@[i - 1]));
    }
    assert(members@.take(members.len() as int) =~= members@);
    out
}

impl Default for TypeStore {
    fn default() -> (r: TypeStore)
        ensures
            r@ == Seq::<TypeEntry>::empty(),
            !r.frozen,
    {
        let r = TypeStore { types: Vec::new(), frozen: false };
        assert(r@ =~= Seq::<TypeEntry>::empty());
        r
    }
}

impl TypeStore {
    pub open spec fn view(&self) -> Types {
        Seq::new(self.types@.len(), |k: int| self.types@[k]@)
    }

    /// Return the number of stored types.
    pub fn len(&self) -> (r: usize)
        ensures
            r == self@.len(),
    {
        self.types.len()
    }

    /// Forget every type from the given index on.
    pub fn truncate(&mut self, len: usize)
        requires
            !old(self).frozen,
        ensures
            final(self)@ == old(self)@.take(if len < old(self)@.len() {
                len as int
            } else {
                old(self)@.len() as int
            }),
            !final(self).frozen,
            types_wf(old(self)@) ==> types_wf(final(self)@),
    {
        self.types.truncate(len);
        assert(self@ =~= old(self)@.take(if len < old(self)@.len() {
            len as int
        } else {
            old(self)@.len() as int
        }));
    }

    fn push(&mut self, kind: TypeDataKind, size: u64, align: u64) -> (r: Type)
        requires
            !old(self).frozen,
        ensures
            r == next_type(old(self)@),
            final(self)@ == with_type(old(self)@, kind@, size, align),
            !final(self).frozen,
    {
        let ty = Type::Stored(self.types.len());
        self.types.push(TypeData { kind, size, align });
        assert(self@ =~= with_type(old(self)@, kind@, size, align));
        ty
    }

    fn get(&self, ty: Type) -> (r: Option<&TypeData>)
        ensures
            r is Some == lookup(self@, ty) is Some,
            r is Some ==> r.unwrap()@ == lookup(self@, ty).unwrap(),
            r is Some ==> ty is Stored && ty->Stored_0 < self.types@.len() && *r.unwrap()
                == self.types@[ty->Stored_0 as int],
    {
        match ty {
            Type::Stored(id) => if id < self.types.len() {
                Some(&self.types[id])
            } else {
                None
            },
            _ => None,
        }
    }

    /// Construct a pointer type to the given base type.
    pub fn ptr(&mut self, base: Type) -> (r: Type)
        requires
            !old(self).frozen,
        ensures
            r == next_type(old(self)@),
            final(self)@ == with_ptr(old(self)@, base),
            !final(self).frozen,
            types_wf(old(self)@) && type_rank(base) <= old(self)@.len() ==> types_wf(final(self)@),
    {
        self.push(TypeDataKind::Ptr(base), 8, 8)
    }

    /// Construct a function type with the given return type and parameters.
    pub fn func(&mut self, return_ty: Type, params: Vec<Type>, is_variadic: bool) -> (r: Type)
        requires
            !old(self).frozen,
        ensures
            r == next_type(old(self)@),
            final(self)@ == with_type(
                old(self)@,
                TypeForm::Func { return_ty, params: params@, is_variadic },
                0,
                0,
            ),
            !final(self).frozen,
            types_wf(old(self)@) && type_rank(return_ty) <= old(self)@.len() && (forall|k: int|
                0 <= k < params@.len() ==> type_rank(#[trigger] params@[k]) <= old(self)@.len())
                ==> types_wf(final(self)@),
    {
        self.push(TypeDataKind::Func(FuncTypeData { return_ty, params, is_variadic }), 0, 0)
    }

    /// Construct an array type with the given element type and length.
    ///
    /// If `len` is `None`, this represents an incomplete array type. If the
    /// size of the array does not fit, nothing is stored.
    pub fn array(&mut self, base: Type, len: Option<usize>) -> (r: Option<Type>)
        requires
            !old(self).frozen,
        ensures
            array_size(old(self)@, base, len) is Some ==> r == Some(next_type(old(self)@))
                && final(self)@ == with_array(old(self)@, base, len),
            array_size(old(self)@, base, len) is None ==> r is None && final(self)@ == old(self)@,
            !final(self).frozen,
            types_wf(old(self)@) && type_rank(base) <= old(self)@.len() ==> types_wf(final(self)@),
    {
        let size: u64 = match len {
            Some(len) => match self.size(base).checked_mul(len as u64) {
                Some(size) => size,
                None => return None,
            },
            None => 0,
        };
        let align = self.align(base);
        Some(self.push(TypeDataKind::Array(ArrayTypeData { base, len }), size, align))
    }

    /// Construct a struct or union type with no members yet.
    pub fn incomplete_struct_or_union(&mut self, is_struct: bool) -> (r: Type)
        requires
            !old(self).frozen,
        ensures
            r == next_type(old(self)@),
            final(self)@ == with_type(
                old(self)@,
                TypeForm::StructOrUnion { is_struct, members: None },
                0,
                1,
            ),
            !final(self).frozen,
            types_wf(old(self)@) ==> types_wf(final(self)@),
    {
        self.push(
            TypeDataKind::StructOrUnion(StructOrUnionTypeData { is_struct, members: None }),
            0,
            1,
        )
    }

    /// Construct a struct or union type with the given members.
    ///
    /// If `members` is `None`, this represents an incomplete struct or union
    /// type. Otherwise, for a struct, the member offsets will be assigned here
    /// so they do not need to be pre-computed. If the layout does not fit, the
    /// new type stays incomplete and `None` is returned.
    pub fn struct_or_union(&mut self, is_struct: bool, members: Option<Vec<Member>>) -> (r: Option<
        Type,
    >)
        requires
            !old(self).frozen,
        ensures
            ({
                let t1 = with_type(
                    old(self)@,
                    TypeForm::StructOrUnion { is_struct, members: None },
                    0,
                    1,
                );
                let ty = next_type(old(self)@);
                match members {
                    None => r == Some(ty) && final(self)@ == t1,
                    Some(members) => match completed(t1, is_struct, members@, ty) {
                        Some(t2) => r == Some(ty) && final(self)@ == t2,
                        None => r is None && final(self)@ == t1,
                    },
                }
            }),
            !final(self).frozen,
            types_wf(old(self)@) ==> types_wf(final(self)@),
    {
        let ty = self.incomplete_struct_or_union(is_struct);
        match members {
            Some(members) => if self.complete_struct_or_union(is_struct, members, ty) {
                Some(ty)
            } else {
                None
            },
            None => Some(ty),
        }
    }

    /// Compute size and alignment of a struct or union, placing its members.
    #[verifier::loop_isolation(false)]
    fn lay_out(&self, is_struct: bool, members: &mut Vec<Member>) -> (r: Option<(u64, u64)>)
        ensures
            match r {
                Some((size, align)) => {
                    &&& layout_fits(self@, is_struct, old(members)@)
                    &&& size == padded_size(self@, is_struct, old(members)@)
                    &&& align == members_align(self@, old(members)@, old(members)@.len())
                    &&& final(members)@ == placed_members(self@, is_struct, old(members)@)
                },
                None => !layout_fits(self@, is_struct, old(members)@),
            },
    {
        let ghost given = members@;
        let ghost types = self@;
        let mut offset: u64 = 0;
        let mut align: u64 = 1;
        let mut i: usize = 0;
        if is_struct {
            while i < members.len()
                invariant
                    given == old(members)@,
                    types == self@,
                    is_struct,
                    i <= members.len(),
                    members@.len() == given.len(),
                    offset == members_end(types, given, i as nat),
                    align == members_align(types, given, i as nat),
                    align >= 1,
                    forall|k: int|
                        i <= k < given.len() ==> #[trigger] members@[k] == given[k],
                    forall|k: int|
                        0 <= k < i ==> #[trigger] members@[k] == (Member {
                            offset: member_start(types, given, k) as usize,
                            ..given[k]
                        }),
                    forall|k: int|
                        0 <= k < i ==> #[trigger] member_fits(types, given, k),
                decreases members.len() - i,
            {
                let mut member = members[i];
                let member_align: u64 = self.eff_align(member.align, member.ty);
                if member_align == 0 {
                    assert(!member_fits(types, given, i as int));
                    return None;
                }
                proof {
                    align_up_is_least_multiple(offset as int, member_align as int);
                }
                let start: u64 = match checked_align_up_to(offset, member_align) {
                    Some(start) => start,
                    None => {
                        assert(!member_fits(types, given, i as int));
                        return None;
                    },
                };
                if start > usize::MAX as u64 {
                    assert(!member_fits(types, given, i as int));
                    return None;
                }
                member.offset = start as usize;
                members.set(i, member);
                assert(member_start(types, given, i as int) == start);
                offset = match start.checked_add(self.size(member.ty)) {
                    Some(end) => end,
                    None => {
                        assert(!member_fits(types, given, i as int));
                        return None;
                    },
                };
                assert(member_fits(types, given, i as int));
                if align < member_align {
                    align = member_align;
                }
                i += 1;
            }
            assert(members@ =~= placed_members(types, is_struct, given));
        } else {
            while i < members.len()
                invariant
                    given == old(members)@,
                    members@ == given,
                    types == self@,
                    i <= members.len(),
                    offset == members_max_size(types, given, i as nat),
                    align == members_align(types, given, i as nat),
                    align >= 1,
                decreases members.len() - i,
            {
                let member = members[i];
                let size: u64 = self.size(member.ty);
                if offset < size {
                    offset = size;
                }
                let member_align: u64 = self.eff_align(member.align, member.ty);
                if align < member_align {
                    align = member_align;
                }
                i += 1;
            }
        }
        assert(i == given.len());
        assert(offset == content_size(types, is_struct, given));
        assert(members@ == placed_members(types, is_struct, given));
        match checked_align_up_to(offset, align) {
            Some(size) => Some((size, align)),
            None => None,
        }
    }

    /// Complete an existing incomplete struct or union type.
    ///
    /// Returns false, with the store unchanged, if the layout does not fit or
    /// if the type is no struct or union. See [`TypeStore::struct_or_union`]
    /// for more details.
    pub fn complete_struct_or_union(
        &mut self,
        is_struct: bool,
        members: Vec<Member>,
        ty: Type,
    ) -> (r: bool)
        requires
            !old(self).frozen,
        ensures
            match completed(old(self)@, is_struct, members@, ty) {
                Some(types) => r && final(self)@ == types,
                None => !r && final(self)@ == old(self)@,
            },
            !final(self).frozen,
            types_wf(old(self)@) ==> types_wf(final(self)@),
    {
        let mut members = members;
        if !self.is_struct_or_union(ty) {
            return false;
        }
        let Type::Stored(id) = ty else {
            return false;
        };
        let ghost given = members@;
        let Some((size, align)) = self.lay_out(is_struct, &mut members) else {
            return false;
        };
        let was_struct = match &self.types[id].kind {
            TypeDataKind::StructOrUnion(sou) => sou.is_struct,
            _ => false,
        };
        let kind = TypeDataKind::StructOrUnion(
            StructOrUnionTypeData { is_struct: was_struct, members: Some(members) },
        );
        self.types.set(id, TypeData { kind, size, align });
        assert(self@ =~= completed(old(self)@, is_struct, given, ty).unwrap());
        true
    }

    /// Return the byte alignment of the type.
    pub fn align(&self, ty: Type) -> (r: u64)
        ensures
            r == align_of(self@, ty),
    {
        match ty {
            Type::Dummy => 0,
            Type::Void => 1,
            Type::Enum => 4,
            Type::Arith(arith) => arith.size(),
            Type::Stored(_) => match self.get(ty) {
                Some(data) => data.align,
                None => 0,
            },
        }
    }

    /// Return the effective byte alignment of the type with optional override.
    pub fn eff_align(&self, align_override: Option<u64>, ty: Type) -> (r: u64)
        ensures
            r == eff_align_of(self@, align_override, ty),
    {
        match align_override {
            Some(align) => align,
            None => self.align(ty),
        }
    }

    /// Return the size of the type in bytes.
    pub fn size(&self, ty: Type) -> (r: u64)
        ensures
            r == size_of(self@, ty),
    {
        match ty {
            Type::Dummy => 0,
            Type::Void => 1,
            Type::Enum => 4,
            Type::Arith(arith) => arith.size(),
            Type::Stored(_) => match self.get(ty) {
                Some(data) => data.size,
                None => 0,
            },
        }
    }

    /// Return the base type for arrays and pointers.
    pub fn base(&self, ty: Type) -> (r: Option<Type>)
        ensures
            r == base_of(self@, ty),
    {
        match self.get(ty) {
            Some(data) => match &data.kind {
                TypeDataKind::Ptr(base) => Some(*base),
                TypeDataKind::Array(array) => Some(array.base),
                _ => None,
            },
            None => None,
        }
    }

    /// Return the array type if it is one.
    pub fn as_array(&self, ty: Type) -> (r: Option<ArrayTypeData>)
        ensures
            r == array_of(self@, ty),
    {
        match self.get(ty) {
            Some(data) => match &data.kind {
                TypeDataKind::Array(array) => Some(*array),
                _ => None,
            },
            None => None,
        }
    }

    /// Return the function type if it is one.
    ///
    /// If `accept_ptr` is true, a function pointer type is also accepted and
    /// the pointed function type is returned.
    pub fn as_func(&self, ty: Type, accept_ptr: bool) -> (r: Option<&FuncTypeData>)
        ensures
            r is Some == func_of(self@, ty, accept_ptr) is Some,
            r is Some ==> func_of(self@, ty, accept_ptr).unwrap() == (TypeForm::Func {
                return_ty: r.unwrap().return_ty,
                params: r.unwrap().params@,
                is_variadic: r.unwrap().is_variadic,
            }),
        decreases (if accept_ptr { 1int } else { 0int }),
    {
        match self.get(ty) {
            Some(data) => match &data.kind {
                TypeDataKind::Func(func) => Some(func),
                _ => if accept_ptr {
                    match self.base(ty) {
                        Some(base) => self.as_func(base, false),
                        None => None,
                    }
                } else {
                    None
                },
            },
            None => None,
        }
    }

    /// Return the struct or union type if it is one.
    pub fn as_struct_or_union(&self, ty: Type) -> (r: Option<&StructOrUnionTypeData>)
        ensures
            r is Some == is_sou_ty(self@, ty),
            r is Some ==> lookup(self@, ty).unwrap().form == (TypeForm::StructOrUnion {
                is_struct: r.unwrap().is_struct,
                members: r.unwrap().members_view(),
            }),
    {
        match self.get(ty) {
            Some(data) => match &data.kind {
                TypeDataKind::StructOrUnion(sou) => Some(sou),
                _ => None,
            },
            None => None,
        }
    }

    /// Return whether the type is a struct or union.
    pub fn is_struct_or_union(&self, ty: Type) -> (r: bool)
        ensures
            r == is_sou_ty(self@, ty),
    {
        self.as_struct_or_union(ty).is_some()
    }

    /// Return whether the type is a pointer.
    pub fn is_ptr(&self, ty: Type) -> (r: bool)
        ensures
            r == is_ptr_ty(self@, ty),
    {
        match self.get(ty) {
            Some(data) => matches!(data.kind, TypeDataKind::Ptr(_)),
            None => false,
        }
    }

    /// Return whether the type is a function.
    pub fn is_func(&self, ty: Type) -> (r: bool)
        ensures
            r == is_func_ty(self@, ty),
    {
        match self.get(ty) {
            Some(data) => matches!(data.kind, TypeDataKind::Func(_)),
            None => false,
        }
    }

    /// Return whether the type is incomplete.
    pub fn is_incomplete(&self, ty: Type) -> (r: bool)
        ensures
            r == is_incomplete_ty(self@, ty),
    {
        if ty == Type::Void {
            return true;
        }
        match self.get(ty) {
            Some(data) => match &data.kind {
                TypeDataKind::Array(array) => array.len.is_none(),
                TypeDataKind::StructOrUnion(sou) => sou.members.is_none(),
                _ => false,
            },
            None => false,
        }
    }

    /// Return whether the byte chunk `lo..hi` should be passed in fp register.
    ///
    /// A chunk is passed in a floating-point register if and only if the type
    /// is itself a floating-point type, or it is an aggregate type with all
    /// fields overlapping that byte range being floating-point types.
    pub fn is_fp_chunk(&self, ty: Type, lo: u64, hi: u64) -> (r: bool)
        ensures
            r == chunk_in_fp(self@, ty, lo, hi),
    {
        if self.as_struct_or_union(ty).is_some() || self.as_array(ty).is_some() {
            self.is_fp_chunk_at(ty, lo, hi, 0, self.types.len(), Ghost(0))
        } else {
            ty.is_flonum()
        }
    }

    /// Return whether a value of type `ty` at the given offset has a byte in
    /// `lo..hi`.
    fn overlaps_chunk(
        &self,
        ty: Type,
        lo: u64,
        hi: u64,
        offset: u64,
        Ghost(exact): Ghost<int>,
    ) -> (r: bool)
        requires
            offset == (if exact < u64::MAX {
                exact
            } else {
                u64::MAX as int
            }),
        ensures
            r == overlaps(self@, ty, lo as int, hi as int, exact),
    {
        let size: u64 = self.size(ty);
        if lo < hi && size > 0 && offset < hi && (lo < offset || size > lo - offset) {
            proof {
                let at: int = if lo < offset {
                    offset as int
                } else {
                    lo as int
                };
                assert(is_between(at, lo as int, hi as int));
            }
            true
        } else {
            false
        }
    }

    #[verifier::loop_isolation(false)]
    fn is_fp_chunk_at(
        &self,
        ty: Type,
        lo: u64,
        hi: u64,
        offset: u64,
        depth: usize,
        Ghost(exact): Ghost<int>,
    ) -> (r: bool)
        requires
            offset == (if exact < u64::MAX {
                exact
            } else {
                u64::MAX as int
            }),
        ensures
            r == fp_chunk(self@, ty, lo as int, hi as int, exact, depth as nat),
        decreases depth,
    {
        let Some(data) = self.get(ty) else {
            return !self.overlaps_chunk(ty, lo, hi, offset, Ghost(exact)) || ty.is_flonum();
        };
        match &data.kind {
            TypeDataKind::StructOrUnion(sou) => {
                let Some(members) = &sou.members else {
                    return false;
                };
                if depth == 0 {
                    return false;
                }
                let mut k: usize = 0;
                while k < members.len()
                    invariant
                        k <= members.len(),
                        depth > 0,
                        offset == (if exact < u64::MAX {
                            exact
                        } else {
                            u64::MAX as int
                        }),
                        forall|j: int|
                            0 <= j < k ==> fp_chunk(
                                self@,
                                (#[trigger] members@[j]).ty,
                                lo as int,
                                hi as int,
                                exact + members@[j].offset,
                                (depth - 1) as nat,
                            ),
                    decreases members.len() - k,
                {
                    let member = members[k];
                    let start: u64 = offset.saturating_add(member.offset as u64);
                    if !self.is_fp_chunk_at(
                        member.ty,
                        lo,
                        hi,
                        start,
                        depth - 1,
                        Ghost(exact + member.offset),
                    ) {
                        assert(!fp_chunk(
                            self@,
                            members@[k as int].ty,
                            lo as int,
                            hi as int,
                            exact + members@[k as int].offset,
                            (depth - 1) as nat,
                        ));
                        return false;
                    }
                    k += 1;
                }
                true
            },
            TypeDataKind::Array(array) => {
                let Some(len) = array.len else {
                    return false;
                };
                if depth == 0 {
                    return false;
                }
                let stride: u64 = self.size(array.base);
                let mut start: u64 = offset;
                let mut i: usize = 0;
                let ghost at = exact;
                while i < len
                    invariant
                        i <= len,
                        depth > 0,
                        stride == size_of(self@, array.base),
                        at == exact + size_of(self@, array.base) * i,
                        start == (if at < u64::MAX {
                            at
                        } else {
                            u64::MAX as int
                        }),
                        forall|j: int|
                            0 <= j < i ==> fp_chunk(
                                self@,
                                array.base,
                                lo as int,
                                hi as int,
                                #[trigger] (exact + size_of(self@, array.base) * j),
                                (depth - 1) as nat,
                            ),
                    decreases len - i,
                {
                    if !self.is_fp_chunk_at(array.base, lo, hi, start, depth - 1, Ghost(at)) {
                        assert(!fp_chunk(
                            self@,
                            array.base,
                            lo as int,
                            hi as int,
                            exact + size_of(self@, array.base) * i,
                            (depth - 1) as nat,
                        ));
                        return false;
                    }
                    proof {
                        assert(exact + stride * (i + 1) == exact + stride * i + stride)
                            by (nonlinear_arith);
                        at = at + stride;
                    }
                    start = start.saturating_add(stride);
                    i += 1;
                }
                true
            },
            _ => !self.overlaps_chunk(ty, lo, hi, offset, Ghost(exact)),
        }
    }

    /// Return whether two types are the same.
    ///
    /// - Trivial types are compared directly.
    /// - Pointer, array, and function types are compared structurally.
    /// - Struct and union types are compared based on identity. In particular,
    ///   two distinctly stored struct/union are treated as different types even
    ///   if their members are all the same.
    #[verifier::loop_isolation(false)]
    pub fn same_type(&self, this: Type, other: Type) -> (r: bool)
        ensures
            r == same(self@, this, other),
        decreases type_rank(this),
    {
        if this == other {
            return true;
        }
        let Some(left) = self.get(this) else {
            return false;
        };
        let Some(right) = self.get(other) else {
            return false;
        };
        match (&left.kind, &right.kind) {
            (TypeDataKind::Ptr(left), TypeDataKind::Ptr(right)) => rank_below(*left, this)
                && self.same_type(*left, *right),
            (TypeDataKind::Array(left), TypeDataKind::Array(right)) => {
                if left.len != right.len {
                    return false;
                }
                rank_below(left.base, this) && self.same_type(left.base, right.base)
            },
            (TypeDataKind::Func(left), TypeDataKind::Func(right)) => {
                if !rank_below(left.return_ty, this) || !self.same_type(
                    left.return_ty,
                    right.return_ty,
                ) || left.is_variadic != right.is_variadic || left.params.len()
                    != right.params.len() {
                    return false;
                }
                let mut k: usize = 0;
                while k < left.params.len()
                    invariant
                        k <= left.params.len(),
                        left.params.len() == right.params.len(),
                        forall|j: int|
                            0 <= j < k ==> type_rank(#[trigger] left.params@[j]) < type_rank(this)
                                && same(self@, left.params@[j], right.params@[j]),
                    decreases left.params.len() - k,
                {
                    if !rank_below(left.params[k], this) || !self.same_type(
                        left.params[k],
                        right.params[k],
                    ) {
                        return false;
                    }
                    k += 1;
                }
                true
            },
            _ => false,
        }
    }

    /// Merge two declarations of the same type.
    ///
    /// This method returns `None` except for the following supported cases:
    ///
    /// - The same type, which will be returned;
    /// - An incomplete array type and a complete array type with the same base,
    ///   where the complete one will be returned.
    pub fn merge(&self, this: Type, other: Type) -> (r: Option<Type>)
        ensures
            r == merged(self@, this, other),
    {
        if self.same_type(this, other) {
            return Some(this);
        }
        let Some(this_array) = self.as_array(this) else {
            return None;
        };
        let Some(other_array) = self.as_array(other) else {
            return None;
        };
        if !self.same_type(this_array.base, other_array.base) {
            return None;
        }
        match (this_array.len, other_array.len) {
            (None, Some(_)) => Some(other),
            (Some(_), None) => Some(this),
            _ => None,
        }
    }

    /// Coerce two operand types via usual arithmetic conversions.
    ///
    /// This method does not try to enforce any pointer/function compatibility
    /// rules. It is the caller's responsibility to decide that usual arithmetic
    /// conversions is the right thing to do.
    pub fn coerce(&mut self, lhs: Type, rhs: Type) -> (r: Type)
        requires
            !old(self).frozen,
        ensures
            (final(self)@, r) == coerced(old(self)@, lhs, rhs),
            !final(self).frozen,
    {
        if self.is_func(lhs) {
            return self.ptr(lhs);
        }
        if self.is_func(rhs) {
            return self.ptr(rhs);
        }
        if let Some(base) = self.base(lhs) {
            return self.ptr(base);
        }
        if let Some(base) = self.base(rhs) {
            return self.ptr(base);
        }
        match lhs.coerce(rhs) {
            Some(ty) => ty,
            None => lhs,
        }
    }

    /// Convert a [`Type`] to a [`ConstType`] if applicable.
    pub fn to_const(&self, ty: Type) -> (r: Option<ConstType>)
        ensures
            r == const_of(self@, ty),
    {
        match ConstType::from_type(ty) {
            Some(ty) => Some(ty),
            None => if self.is_ptr(ty) {
                Some(ConstType::Ptr)
            } else {
                None
            },
        }
    }
}

} // verus!
