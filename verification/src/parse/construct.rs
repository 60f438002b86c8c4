//! Construction of expressions and initializers.

use vstd::prelude::*;
use crate::ast::{
    node_ty, stmt_list, BinaryOp, EntityRef, GlobalInitData, GlobalStorage, GlobalView, Name, Node,
    NodeKind, Relocation, Stmt, StmtKind, StmtList, StorageView,
};
use crate::error::{Error, Message};
use crate::parse::eval::{eval_global_init, GlobalInitValue};
use crate::parse::infer::infer;
use crate::parse::state::{
    done, fresh_label, here, ident_at, pauses, with_global, with_local, with_types, wrong, Out,
    Parser, ParserState,
};
use crate::source::SourceSpan;
use crate::types::{
    array_of, base_of, const_of, copy_members, is_incomplete_ty, is_sou_ty, lookup, next_type,
    size_of, ty_is_arith, ty_is_integer, with_ptr, ArithType, Member, Symbol, Type, TypeForm, Types,
};

verus! {

/// A variable initializer.
#[derive(Debug)]
pub enum Initializer {
    /// The initialization expression for non-aggregate types.
    Expr(Type, Box<Node>),
    /// Nested initializers for aggregate types, e.g., array, struct.
    Aggregate(Type, InitList),
}

/// A list of initializers.
#[derive(Debug)]
pub enum InitList {
    Nil,
    Cons(Box<Initializer>, Box<InitList>),
}

/// The list with the given initializers in order.
pub open spec fn init_list(inits: Seq<Initializer>) -> InitList
    decreases inits.len(),
{
    if inits.len() == 0 {
        InitList::Nil
    } else {
        InitList::Cons(Box::new(inits[0]), Box::new(init_list(inits.drop_first())))
    }
}

impl InitList {
    /// Make a list of the given initializers.
    pub fn from_vec(inits: Vec<Initializer>) -> (r: InitList)
        ensures
            r == init_list(inits@),
    {
        let mut inits = inits;
        let ghost all = inits@;
        let mut list = InitList::Nil;
        assert(all.skip(all.len() as int) =~= Seq::<Initializer>::empty());
        while inits.len() > 0
            invariant
                inits@.len() <= all.len(),
                inits@ == all.take(inits@.len() as int),
                list == init_list(all.skip(inits@.len() as int)),
            decreases inits.len(),
        {
            let ghost n = inits@.len() as int;
            match inits.pop() {
                Some(init) => {
                    assert(all.skip(n - 1).drop_first() =~= all.skip(n));
                    assert(all.skip(n - 1)[0] == init);
                    list = InitList::Cons(Box::new(init), Box::new(list));
                    assert(inits@ =~= all.take(n - 1));
                },
                None => {},
            }
        }
        assert(all.skip(0) =~= all);
        list
    }
}

/// The type that an initializer gives its object.
pub open spec fn init_ty(init: Initializer) -> Type {
    match init {
        Initializer::Expr(ty, _) => ty,
        Initializer::Aggregate(ty, _) => ty,
    }
}

impl Initializer {
    /// Return the type that the initializer gives its object.
    pub fn ty(&self) -> (r: Type)
        ensures
            r == init_ty(*self),
    {
        match self {
            Initializer::Expr(ty, _) => *ty,
            Initializer::Aggregate(ty, _) => *ty,
        }
    }
}

/// One step in the path from a local object to a nested initializer target.
#[derive(Clone, Copy, Debug, PartialEq, Eq, Structural)]
pub enum InitializerStep {
    Index(usize),
    Member(Member),
}

pub open spec fn num_node(value: u64, ty: Type, span: SourceSpan) -> Node {
    Node { kind: NodeKind::Num(value), span, ty: Some(ty) }
}

pub open spec fn binary_node(op: BinaryOp, lhs: Node, rhs: Node, span: SourceSpan) -> Node {
    Node {
        kind: NodeKind::Binary { op, lhs: Box::new(lhs), rhs: Box::new(rhs) },
        span,
        ty: None,
    }
}

pub open spec fn assign_node(lhs: Node, rhs: Node, span: SourceSpan) -> Node {
    Node { kind: NodeKind::Assign { lhs: Box::new(lhs), rhs: Box::new(rhs) }, span, ty: None }
}

pub open spec fn comma_node(lhs: Node, rhs: Node, span: SourceSpan) -> Node {
    Node { kind: NodeKind::Comma { lhs: Box::new(lhs), rhs: Box::new(rhs) }, span, ty: None }
}

pub open spec fn deref_node(node: Node, span: SourceSpan) -> Node {
    Node { kind: NodeKind::Deref(Box::new(node)), span, ty: None }
}

pub open spec fn addr_node(node: Node, span: SourceSpan) -> Node {
    Node { kind: NodeKind::Addr(Box::new(node)), span, ty: None }
}

pub open spec fn neg_node(node: Node, span: SourceSpan) -> Node {
    Node { kind: NodeKind::Neg(Box::new(node)), span, ty: None }
}

pub open spec fn entity_node(entity: EntityRef, span: SourceSpan) -> Node {
    Node { kind: NodeKind::Entity(entity), span, ty: None }
}

pub open spec fn member_node(parent: Node, member: Member, span: SourceSpan) -> Node {
    Node { kind: NodeKind::Member { parent: Box::new(parent), member }, span, ty: None }
}

/// A number, scaled by the size of what a pointer points to.
pub open spec fn scaled(types: Types, num: Node, base: Type, span: SourceSpan) -> Node {
    binary_node(
        BinaryOp::Mul,
        num,
        num_node(size_of(types, base), Type::Arith(ArithType::Long), span),
        span,
    )
}

/// An addition with pointer scaling.
#[verifier::opaque]
pub open spec fn new_add(st: ParserState, lhs: Node, rhs: Node, span: SourceSpan) -> Out<Node> {
    let l = infer(st, lhs);
    if l.r is Err {
        l.fail()
    } else {
        let r = infer(l.st, rhs);
        if r.r is Err {
            r.fail()
        } else {
            let types = r.st.types;
            let lbase = base_of(types, node_ty(l.val()));
            let rbase = base_of(types, node_ty(r.val()));
            if ty_is_arith(node_ty(l.val())) && ty_is_arith(node_ty(r.val())) {
                done(r.st, binary_node(BinaryOp::Add, l.val(), r.val(), span))
            } else {
                match (lbase, rbase) {
                    (Some(base), None) => done(
                        r.st,
                        binary_node(
                            BinaryOp::Add,
                            l.val(),
                            scaled(types, r.val(), base, span),
                            span,
                        ),
                    ),
                    (None, Some(base)) => done(
                        r.st,
                        binary_node(
                            BinaryOp::Add,
                            r.val(),
                            scaled(types, l.val(), base, span),
                            span,
                        ),
                    ),
                    _ => wrong(r.st, span, Message::InvalidOperands),
                }
            }
        }
    }
}

/// A subtraction with pointer scaling.
#[verifier::opaque]
pub open spec fn new_sub(st: ParserState, lhs: Node, rhs: Node, span: SourceSpan) -> Out<Node> {
    let l = infer(st, lhs);
    if l.r is Err {
        l.fail()
    } else {
        let r = infer(l.st, rhs);
        if r.r is Err {
            r.fail()
        } else {
            let types = r.st.types;
            let lbase = base_of(types, node_ty(l.val()));
            let rbase = base_of(types, node_ty(r.val()));
            if ty_is_arith(node_ty(l.val())) && ty_is_arith(node_ty(r.val())) {
                done(r.st, binary_node(BinaryOp::Sub, l.val(), r.val(), span))
            } else {
                match lbase {
                    Some(base) => if ty_is_integer(node_ty(r.val())) {
                        done(
                            r.st,
                            binary_node(
                                BinaryOp::Sub,
                                l.val(),
                                scaled(types, r.val(), base, span),
                                span,
                            ),
                        )
                    } else if rbase is Some {
                        let diff = Node {
                            ty: Some(Type::Arith(ArithType::Long)),
                            ..binary_node(BinaryOp::Sub, l.val(), r.val(), span)
                        };
                        done(
                            r.st,
                            binary_node(
                                BinaryOp::Div,
                                diff,
                                num_node(
                                    size_of(types, base),
                                    Type::Arith(ArithType::Long),
                                    span,
                                ),
                                span,
                            ),
                        )
                    } else {
                        wrong(r.st, span, Message::InvalidOperands)
                    },
                    None => wrong(r.st, span, Message::InvalidOperands),
                }
            }
        }
    }
}

/// A compound assignment: `tmp = &lhs, *tmp = *tmp op rhs`.
#[verifier::opaque]
pub open spec fn new_compound_assign(st: ParserState, binary: Node, span: SourceSpan) -> Out<Node> {
    match binary.kind {
        NodeKind::Binary { op, lhs, rhs } => {
            let l = infer(st, *lhs);
            if l.r is Err {
                l.fail()
            } else {
                let r = infer(l.st, *rhs);
                if r.r is Err {
                    r.fail()
                } else {
                    let ptr = next_type(r.st.types);
                    let st1 = with_types(r.st, with_ptr(r.st.types, node_ty(l.val())));
                    let tmp = entity_node(EntityRef::Local(st1.locals.len() as usize), span);
                    let st2 = with_local(st1, None, ptr, None);
                    done(
                        st2,
                        comma_node(
                            assign_node(tmp, addr_node(l.val(), span), span),
                            assign_node(
                                deref_node(tmp, span),
                                binary_node(op, deref_node(tmp, span), r.val(), span),
                                span,
                            ),
                            span,
                        ),
                    )
                }
            }
        },
        _ => wrong(st, span, Message::InvalidOperands),
    }
}

/// A post increment `(typeof node)((node += 1) - 1)`, or a post decrement
/// `(typeof node)((node -= 1) + 1)`.
#[verifier::opaque]
pub open spec fn new_post_inc_dec(
    st: ParserState,
    node: Node,
    is_inc: bool,
    span: SourceSpan,
) -> Out<
    Node,
> {
    let o = infer(st, node);
    if o.r is Err {
        o.fail()
    } else {
        let one = num_node(1, Type::Arith(ArithType::Long), span);
        let minus_one = neg_node(one, span);
        let (addend, back) = if is_inc {
            (one, minus_one)
        } else {
            (minus_one, one)
        };
        let b = new_add(o.st, o.val(), addend, span);
        if b.r is Err {
            b.fail()
        } else {
            let a = new_compound_assign(b.st, b.val(), span);
            if a.r is Err {
                a.fail()
            } else {
                let p = new_add(a.st, a.val(), back, span);
                if p.r is Err {
                    p.fail()
                } else {
                    let i = infer(p.st, p.val());
                    if i.r is Err {
                        i.fail()
                    } else {
                        done(
                            i.st,
                            Node {
                                kind: NodeKind::Cast(Box::new(i.val())),
                                span,
                                ty: Some(node_ty(o.val())),
                            },
                        )
                    }
                }
            }
        }
    }
}

/// The first member with the given name.
pub open spec fn named_member(members: Seq<Member>, name: Symbol) -> Option<Member>
    decreases members.len(),
{
    if members.len() == 0 {
        None
    } else if members[0].name == name {
        Some(members[0])
    } else {
        named_member(members.drop_first(), name)
    }
}

/// The members of a struct or union type; none if it is incomplete.
pub open spec fn members_of(types: Types, ty: Type) -> Seq<Member> {
    match lookup(types, ty) {
        Some(entry) => match entry.form {
            TypeForm::StructOrUnion { members: Some(members), .. } => members,
            _ => Seq::empty(),
        },
        None => Seq::empty(),
    }
}

/// An access to the member that the current token names.
#[verifier::opaque]
pub open spec fn new_member_access(st: ParserState, node: Node) -> Out<Node> {
    let o = infer(st, node);
    if o.r is Err {
        o.fail()
    } else {
        let ty = node_ty(o.val());
        if is_incomplete_ty(o.st.types, ty) {
            wrong(o.st, here(o.st), Message::MemberOfIncomplete)
        } else if !is_sou_ty(o.st.types, ty) {
            wrong(o.st, here(o.st), Message::MemberOfNonAggregate)
        } else {
            match ident_at(o.st) {
                None => wrong(o.st, here(o.st), Message::NotAnIdent),
                Some(name) => match named_member(members_of(o.st.types, ty), name) {
                    None => wrong(o.st, here(o.st), Message::NoSuchMember),
                    Some(member) => done(o.st, member_node(o.val(), member, here(o.st))),
                },
            }
        }
    }
}

/// The target of a nested initializer, from step `k` of the path on.
#[verifier::opaque]
pub open spec fn path_target(
    st: ParserState,
    lhs: Node,
    path: Seq<InitializerStep>,
    k: int,
    span: SourceSpan,
) -> Out<Node>
    decreases path.len() - k,
{
    if k >= path.len() {
        done(st, lhs)
    } else {
        match path[k] {
            InitializerStep::Index(index) => {
                let index = num_node(index as u64, Type::Arith(ArithType::ULong), span);
                let o = new_add(st, lhs, index, span);
                if o.r is Err {
                    o.fail()
                } else {
                    path_target(o.st, deref_node(o.val(), span), path, k + 1, span)
                }
            },
            InitializerStep::Member(member) => path_target(
                st,
                member_node(lhs, member, span),
                path,
                k + 1,
                span,
            ),
        }
    }
}

pub open spec fn expr_stmt(node: Node, span: SourceSpan) -> Stmt {
    Stmt { kind: StmtKind::Expr(node), span }
}

/// The statements that initialize a part of a local variable.
#[verifier::opaque]
pub open spec fn local_init(
    st: ParserState,
    local: usize,
    init: Initializer,
    path: Seq<InitializerStep>,
    stmts: Seq<Stmt>,
) -> Out<Seq<Stmt>>
    decreases init,
{
    match init {
        Initializer::Expr(_, rhs) => {
            let span = rhs.span;
            let o = path_target(st, entity_node(EntityRef::Local(local), span), path, 0, span);
            if o.r is Err {
                o.fail()
            } else {
                done(o.st, stmts.push(expr_stmt(assign_node(o.val(), *rhs, span), span)))
            }
        },
        Initializer::Aggregate(ty, children) => if array_of(st.types, ty) is Some {
            local_init_elements(st, local, children, 0, path, stmts)
        } else if is_sou_ty(st.types, ty) {
            local_init_members(st, local, children, members_of(st.types, ty), 0, path, stmts)
        } else {
            done(st, stmts)
        },
    }
}

/// The statements that initialize the elements of an array from index `i` on.
#[verifier::opaque]
pub open spec fn local_init_elements(
    st: ParserState,
    local: usize,
    children: InitList,
    i: int,
    path: Seq<InitializerStep>,
    stmts: Seq<Stmt>,
) -> Out<Seq<Stmt>>
    decreases children,
{
    match children {
        InitList::Nil => done(st, stmts),
        InitList::Cons(head, tail) => if i > usize::MAX {
            Out { st, r: Err(Error::Overflow) }
        } else {
            let path1 = path.push(InitializerStep::Index(i as usize));
            let o = local_init(st, local, *head, path1, stmts);
            if o.r is Err {
                o.fail()
            } else {
                local_init_elements(o.st, local, *tail, i + 1, path, o.val())
            }
        },
    }
}

/// The statements that initialize the members of a struct from member `k` on.
#[verifier::opaque]
pub open spec fn local_init_members(
    st: ParserState,
    local: usize,
    children: InitList,
    members: Seq<Member>,
    k: int,
    path: Seq<InitializerStep>,
    stmts: Seq<Stmt>,
) -> Out<Seq<Stmt>>
    decreases children,
{
    match children {
        InitList::Nil => done(st, stmts),
        InitList::Cons(head, tail) => if k >= members.len() {
            done(st, stmts)
        } else {
            let path1 = path.push(InitializerStep::Member(members[k]));
            let o = local_init(st, local, *head, path1, stmts);
            if o.r is Err {
                o.fail()
            } else {
                local_init_members(o.st, local, *tail, members, k + 1, path, o.val())
            }
        },
    }
}

/// The statements that initialize a local variable.
#[verifier::opaque]
pub open spec fn new_local_init(
    st: ParserState,
    local: usize,
    init: Initializer,
    span: SourceSpan,
    stmts: Seq<Stmt>,
) -> Out<Seq<Stmt>> {
    let stmts = if init is Aggregate {
        stmts.push(Stmt { kind: StmtKind::MemzeroLocal(local), span })
    } else {
        stmts
    };
    local_init(st, local, init, Seq::empty(), stmts)
}

/// Static data under construction.
pub struct DataView {
    pub bytes: Seq<u8>,
    pub relocations: Seq<Relocation>,
}

/// Bytes with an integer of `size` bytes stored at `offset`, low byte first.
pub open spec fn put_bits(bytes: Seq<u8>, offset: int, size: nat, bits: u64) -> Seq<u8>
    decreases size,
{
    if size == 0 {
        bytes
    } else {
        put_bits(
            bytes.update(offset, (bits % 256) as u8),
            offset + 1,
            (size - 1) as nat,
            bits / 256,
        )
    }
}

/// The integer of `size` bytes at `offset`, low byte first.
pub open spec fn bits_at(bytes: Seq<u8>, offset: int, size: nat) -> int
    decreases size,
{
    if size == 0 {
        0
    } else {
        bytes[offset] + 256 * bits_at(bytes, offset + 1, (size - 1) as nat)
    }
}

/// What is left of an integer in `size` bytes.
pub open spec fn low_bytes(bits: int, size: nat) -> int
    decreases size,
{
    if size == 0 {
        0
    } else {
        bits % 256 + 256 * low_bytes(bits / 256, (size - 1) as nat)
    }
}

/// An integer that was stored is read back, as far as it fits, and the bytes
/// around it stay as they were.
pub proof fn stored_bits_are_read_back(bytes: Seq<u8>, offset: int, size: nat, bits: u64)
    requires
        0 <= offset,
        offset + size <= bytes.len(),
    ensures
        put_bits(bytes, offset, size, bits).len() == bytes.len(),
        bits_at(put_bits(bytes, offset, size, bits), offset, size) == low_bytes(bits as int, size),
        forall|k: int|
            0 <= k < bytes.len() && !(offset <= k < offset + size) ==> put_bits(
                bytes,
                offset,
                size,
                bits,
            )[k] == bytes[k],
    decreases size,
{
    if size > 0 {
        let next = bytes.update(offset, (bits % 256) as u8);
        let stored = put_bits(next, offset + 1, (size - 1) as nat, bits / 256);
        stored_bits_are_read_back(next, offset + 1, (size - 1) as nat, bits / 256);
        assert(put_bits(bytes, offset, size, bits) == stored);
        assert(stored[offset] == next[offset]);
        assert(bits_at(stored, offset, size) == stored[offset] + 256 * bits_at(
            stored,
            offset + 1,
            (size - 1) as nat,
        ));
        assert forall|k: int|
            0 <= k < bytes.len() && !(offset <= k < offset + size) implies #[trigger] stored[k]
            == bytes[k] by {
            assert(stored[k] == next[k]);
        }
    }
}

/// Static data with a scalar stored.
#[verifier::opaque]
pub open spec fn put_scalar(
    st: ParserState,
    ty: Type,
    value: GlobalInitValue,
    data: DataView,
    offset: usize,
    span: SourceSpan,
) -> Result<DataView, Error> {
    match value {
        GlobalInitValue::Num(value) => match const_of(st.types, ty) {
            None => Err(Error::Terminate(span, Message::NotConstant)),
            Some(const_ty) => match value.spec_cast(const_ty, st.input.floats) {
                Err(query) => Err(Error::NeedsFloat(query)),
                Ok(value) => match value.storage_bits(st.input.floats) {
                    Err(query) => Err(Error::NeedsFloat(query)),
                    Ok(bits) => if offset + size_of(st.types, ty) <= data.bytes.len() {
                        Ok(
                            DataView {
                                bytes: put_bits(
                                    data.bytes,
                                    offset as int,
                                    size_of(st.types, ty) as nat,
                                    bits,
                                ),
                                ..data
                            },
                        )
                    } else {
                        Err(Error::Overflow)
                    },
                },
            },
        },
        GlobalInitValue::Reloc(label, addend) => if size_of(st.types, ty) != 8 {
            Err(Error::Terminate(span, Message::InvalidInitializer))
        } else {
            Ok(
                DataView {
                    relocations: data.relocations.push(Relocation { offset, label, addend }),
                    ..data
                },
            )
        },
    }
}

/// Static data with an initializer stored at `offset`.
#[verifier::opaque]
pub open spec fn global_init(
    st: ParserState,
    init: Initializer,
    data: DataView,
    offset: usize,
) -> Out<DataView>
    decreases init,
{
    match init {
        Initializer::Expr(ty, rhs) => {
            let o = eval_global_init(st, *rhs);
            if o.r is Err {
                o.fail()
            } else {
                Out { st: o.st, r: put_scalar(o.st, ty, o.val(), data, offset, rhs.span) }
            }
        },
        Initializer::Aggregate(ty, children) => match array_of(st.types, ty) {
            Some(array) => global_init_elements(
                st,
                children,
                size_of(st.types, array.base) as int,
                data,
                offset as int,
            ),
            None => if is_sou_ty(st.types, ty) {
                global_init_members(st, children, members_of(st.types, ty), 0, data, offset)
            } else {
                done(st, data)
            },
        },
    }
}

/// Static data with the elements of an array stored from `offset` on.
#[verifier::opaque]
pub open spec fn global_init_elements(
    st: ParserState,
    children: InitList,
    stride: int,
    data: DataView,
    offset: int,
) -> Out<DataView>
    decreases children,
{
    match children {
        InitList::Nil => done(st, data),
        InitList::Cons(head, tail) => if offset > usize::MAX {
            Out { st, r: Err(Error::Overflow) }
        } else {
            let o = global_init(st, *head, data, offset as usize);
            if o.r is Err {
                o.fail()
            } else {
                global_init_elements(o.st, *tail, stride, o.val(), offset + stride)
            }
        },
    }
}

/// Static data with the members of a struct stored from member `k` on.
#[verifier::opaque]
pub open spec fn global_init_members(
    st: ParserState,
    children: InitList,
    members: Seq<Member>,
    k: int,
    data: DataView,
    offset: usize,
) -> Out<DataView>
    decreases children,
{
    match children {
        InitList::Nil => done(st, data),
        InitList::Cons(head, tail) => if k >= members.len() {
            done(st, data)
        } else if offset + members[k].offset > usize::MAX {
            Out { st, r: Err(Error::Overflow) }
        } else {
            let o = global_init(st, *head, data, (offset + members[k].offset) as usize);
            if o.r is Err {
                o.fail()
            } else {
                global_init_members(o.st, *tail, members, k + 1, o.val(), offset)
            }
        },
    }
}

pub open spec fn zeroed(len: nat) -> Seq<u8> {
    Seq::new(len, |k: int| 0u8)
}

/// The initialization data of a global variable.
#[verifier::opaque]
pub open spec fn new_global_init(st: ParserState, init: Initializer) -> Out<StorageView> {
    let size = size_of(st.types, init_ty(init));
    if size > usize::MAX {
        Out { st, r: Err(Error::Overflow) }
    } else {
        let data = DataView { bytes: zeroed(size as nat), relocations: Seq::empty() };
        let o = global_init(st, init, data, 0);
        if o.r is Err {
            o.fail()
        } else {
            done(
                o.st,
                StorageView::Data { bytes: o.val().bytes, relocations: o.val().relocations },
            )
        }
    }
}

proof fn global_init_keeps_the_length(
    st: ParserState,
    init: Initializer,
    data: DataView,
    offset: usize,
)
    ensures
        global_init(st, init, data, offset).r is Ok ==> global_init(
            st,
            init,
            data,
            offset,
        ).val().bytes.len() == data.bytes.len(),
    decreases init,
{
    reveal(global_init);
    reveal(global_init_elements);
    reveal(global_init_members);
    match init {
        Initializer::Expr(ty, rhs) => {
            reveal(put_scalar);
            let o = eval_global_init(st, *rhs);
            if let Ok(GlobalInitValue::Num(value)) = o.r {
                if let Some(const_ty) = const_of(o.st.types, ty) {
                    if let Ok(value) = value.spec_cast(const_ty, o.st.input.floats) {
                        if let Ok(bits) = value.storage_bits(o.st.input.floats) {
                            if offset + size_of(o.st.types, ty) <= data.bytes.len() {
                                stored_bits_are_read_back(
                                    data.bytes,
                                    offset as int,
                                    size_of(o.st.types, ty) as nat,
                                    bits,
                                );
                            }
                        }
                    }
                }
            }
        },
        Initializer::Aggregate(ty, children) => {
            if let Some(array) = array_of(st.types, ty) {
                elements_keep_the_length(
                    st,
                    children,
                    size_of(st.types, array.base) as int,
                    data,
                    offset as int,
                );
            } else {
                members_keep_the_length(
                    st,
                    children,
                    members_of(st.types, ty),
                    0,
                    data,
                    offset,
                );
            }
        },
    }
}

proof fn elements_keep_the_length(
    st: ParserState,
    children: InitList,
    stride: int,
    data: DataView,
    offset: int,
)
    ensures
        global_init_elements(st, children, stride, data, offset).r is Ok ==> global_init_elements(
            st,
            children,
            stride,
            data,
            offset,
        ).val().bytes.len() == data.bytes.len(),
    decreases children,
{
    reveal(global_init);
    reveal(global_init_elements);
    reveal(global_init_members);
    if let InitList::Cons(head, tail) = children {
        if offset <= usize::MAX {
            global_init_keeps_the_length(st, *head, data, offset as usize);
            let o = global_init(st, *head, data, offset as usize);
            if o.r is Ok {
                elements_keep_the_length(o.st, *tail, stride, o.val(), offset + stride);
            }
        }
    }
}

proof fn members_keep_the_length(
    st: ParserState,
    children: InitList,
    members: Seq<Member>,
    k: int,
    data: DataView,
    offset: usize,
)
    ensures
        global_init_members(st, children, members, k, data, offset).r is Ok ==> global_init_members(
            st,
            children,
            members,
            k,
            data,
            offset,
        ).val().bytes.len() == data.bytes.len(),
    decreases children,
{
    reveal(global_init);
    reveal(global_init_elements);
    reveal(global_init_members);
    if let InitList::Cons(head, tail) = children {
        if k < members.len() && offset + members[k].offset <= usize::MAX {
            let at = (offset + members[k].offset) as usize;
            global_init_keeps_the_length(st, *head, data, at);
            let o = global_init(st, *head, data, at);
            if o.r is Ok {
                members_keep_the_length(o.st, *tail, members, k + 1, o.val(), offset);
            }
        }
    }
}

/// The initial data of a global variable has the size of its type.
pub proof fn initial_data_fills_the_type(st: ParserState, init: Initializer)
    requires
        new_global_init(st, init).r is Ok,
    ensures
        new_global_init(st, init).val() is Data,
        new_global_init(st, init).val()->Data_bytes.len() == size_of(st.types, init_ty(init)),
{
    reveal(new_global_init);
    let data = DataView {
        bytes: zeroed(size_of(st.types, init_ty(init)) as nat),
        relocations: Seq::empty(),
    };
    global_init_keeps_the_length(st, init, data, 0);
}

/// A compound literal: a hidden global at file scope, else a statement
/// expression that initializes a temporary variable.
#[verifier::opaque]
pub open spec fn new_compound_literal(st: ParserState, init: Initializer, span: SourceSpan) -> Out<
    Node,
> {
    let ty = init_ty(init);
    if is_incomplete_ty(st.types, ty) {
        wrong(st, span, Message::CompoundLiteralIncomplete)
    } else if st.active_function is None {
        let l = fresh_label(st);
        if l.r is Err {
            l.fail()
        } else {
            let g = new_global_init(l.st, init);
            if g.r is Err {
                g.fail()
            } else {
                let id = g.st.globals.len() as usize;
                let global = GlobalView {
                    name: Name::Unique(l.val()),
                    ty,
                    align: None,
                    storage: g.val(),
                    is_static: true,
                };
                done(with_global(g.st, global), entity_node(EntityRef::Global(id), span))
            }
        }
    } else {
        let id = st.locals.len() as usize;
        let o = new_local_init(with_local(st, None, ty, None), id, init, span, Seq::empty());
        if o.r is Err {
            o.fail()
        } else {
            let last = expr_stmt(entity_node(EntityRef::Local(id), span), span);
            done(
                o.st,
                Node {
                    kind: NodeKind::StmtExpr(stmt_list(o.val().push(last))),
                    span,
                    ty: None,
                },
            )
        }
    }
}

fn zeros(len: usize) -> (r: Vec<u8>)
    ensures
        r@ == zeroed(len as nat),
{
    let mut out: Vec<u8> = Vec::new();
    let mut i: usize = 0;
    while i < len
        invariant
            i <= len,
            out@ == zeroed(i as nat),
        decreases len - i,
    {
        out.push(0);
        i += 1;
        assert(out@ =~= zeroed(i as nat));
    }
    out
}

/// Store an integer of `size` bytes at `offset`, low byte first.
fn store_bits(bytes: &mut Vec<u8>, offset: usize, size: u64, bits: u64)
    requires
        offset + size <= old(bytes)@.len(),
    ensures
        final(bytes)@ == put_bits(old(bytes)@, offset as int, size as nat, bits),
        final(bytes)@.len() == old(bytes)@.len(),
{
    let len: usize = bytes.len();
    let mut at: usize = offset;
    let mut left: u64 = size;
    let mut rest: u64 = bits;
    while left > 0
        invariant
            at + left <= bytes@.len(),
            bytes@.len() == old(bytes)@.len(),
            bytes@.len() == len,
            put_bits(old(bytes)@, offset as int, size as nat, bits) == put_bits(
                bytes@,
                at as int,
                left as nat,
                rest,
            ),
        decreases left,
    {
        bytes.set(at, (rest % 256) as u8);
        at += 1;
        left -= 1;
        rest = rest / 256;
    }
}

impl Parser {
    fn scaled(&self, num: Node, base: Type, span: SourceSpan) -> (r: Node)
        ensures
            r == scaled(self@.types, num, base, span),
    {
        let size: u64 = self.size(base);
        Node::binary(
            BinaryOp::Mul,
            num,
            Node::num(size, Type::Arith(ArithType::Long), span),
            span,
        )
    }

    /// Build an addition node with pointer scaling.
    pub fn new_add(&mut self, lhs: Node, rhs: Node, span: SourceSpan) -> (r: Result<Node, Error>)
        requires
            old(self).inv(),
        ensures
            final(self).inv(),
            new_add(old(self)@, lhs, rhs, span) == (Out { st: final(self)@, r }),
            pauses(old(self)@, final(self)@, true),
    {
        proof {
            reveal(new_add);
        }
        let lhs = self.infer_type(lhs)?;
        let rhs = self.infer_type(rhs)?;
        let lhs_ty = lhs.known_ty();
        let rhs_ty = rhs.known_ty();
        // num + num
        if lhs_ty.is_arith() && rhs_ty.is_arith() {
            return Ok(Node::binary(BinaryOp::Add, lhs, rhs, span));
        }
        match (self.base(lhs_ty), self.base(rhs_ty)) {
            // ptr + num
            (Some(base), None) => {
                let rhs = self.scaled(rhs, base, span);
                Ok(Node::binary(BinaryOp::Add, lhs, rhs, span))
            },
            // Canonicalize num + ptr to ptr + num
            (None, Some(base)) => {
                let lhs = self.scaled(lhs, base, span);
                Ok(Node::binary(BinaryOp::Add, rhs, lhs, span))
            },
            _ => Err(Error::Terminate(span, Message::InvalidOperands)),
        }
    }

    /// Build a subtraction node with pointer scaling.
    pub fn new_sub(&mut self, lhs: Node, rhs: Node, span: SourceSpan) -> (r: Result<Node, Error>)
        requires
            old(self).inv(),
        ensures
            final(self).inv(),
            new_sub(old(self)@, lhs, rhs, span) == (Out { st: final(self)@, r }),
            pauses(old(self)@, final(self)@, true),
    {
        proof {
            reveal(new_sub);
        }
        let lhs = self.infer_type(lhs)?;
        let rhs = self.infer_type(rhs)?;
        let lhs_ty = lhs.known_ty();
        let rhs_ty = rhs.known_ty();
        // num - num
        if lhs_ty.is_arith() && rhs_ty.is_arith() {
            return Ok(Node::binary(BinaryOp::Sub, lhs, rhs, span));
        }
        let Some(base) = self.base(lhs_ty) else {
            return Err(Error::Terminate(span, Message::InvalidOperands));
        };
        // ptr - num
        if rhs_ty.is_integer() {
            let rhs = self.scaled(rhs, base, span);
            return Ok(Node::binary(BinaryOp::Sub, lhs, rhs, span));
        }
        // ptr - ptr
        if self.base(rhs_ty).is_some() {
            let size: u64 = self.size(base);
            let mut diff = Node::binary(BinaryOp::Sub, lhs, rhs, span);
            diff.ty = Some(Type::Arith(ArithType::Long));
            return Ok(
                Node::binary(
                    BinaryOp::Div,
                    diff,
                    Node::num(size, Type::Arith(ArithType::Long), span),
                    span,
                ),
            );
        }
        Err(Error::Terminate(span, Message::InvalidOperands))
    }

    /// Build a compound assignment operation node.
    ///
    /// This is desugared into making a temporary pointer to `lhs`, performing
    /// the binary operation, and assigning the result back to `lhs`.
    pub fn new_compound_assign(
        &mut self,
        binary: Node,
        span: SourceSpan,
    ) -> (r: Result<Node, Error>)
        requires
            old(self).inv(),
        ensures
            final(self).inv(),
            new_compound_assign(old(self)@, binary, span) == (Out { st: final(self)@, r }),
            pauses(old(self)@, final(self)@, true),
    {
        proof {
            reveal(new_compound_assign);
        }
        match binary.kind {
            NodeKind::Binary { op, lhs, rhs } => {
                let lhs = self.infer_type(*lhs)?;
                let rhs = self.infer_type(*rhs)?;
                // (typeof lhs) *tmp;
                let ptr = self.new_ptr(lhs.known_ty());
                let tmp = EntityRef::Local(self.create_local(None, ptr, None));
                // tmp = &lhs;
                let assign1 = Node::assign(Node::entity(tmp, span), Node::addr(lhs, span), span);
                // *tmp = *tmp op rhs;
                let assign2 = Node::assign(
                    Node::deref(Node::entity(tmp, span), span),
                    Node::binary(op, Node::deref(Node::entity(tmp, span), span), rhs, span),
                    span,
                );
                // (tmp = &lhs, *tmp = *tmp op rhs)
                Ok(Node::comma(assign1, assign2, span))
            },
            _ => Err(Error::Terminate(span, Message::InvalidOperands)),
        }
    }

    /// Build a post increment/decrement node.
    ///
    /// Post increment is desugared into `(typeof node)((node += 1) - 1)`, and
    /// post decrement is desugared into `(typeof node)((node -= 1) + 1)`.
    pub fn new_post_inc_dec(&mut self, node: Node, is_inc: bool, span: SourceSpan) -> (r: Result<
        Node,
        Error,
    >)
        requires
            old(self).inv(),
        ensures
            final(self).inv(),
            new_post_inc_dec(old(self)@, node, is_inc, span) == (Out { st: final(self)@, r }),
            pauses(old(self)@, final(self)@, true),
    {
        proof {
            reveal(new_post_inc_dec);
        }
        let node = self.infer_type(node)?;
        let ty = node.known_ty();
        let one = Node::num(1, Type::Arith(ArithType::Long), span);
        let minus_one = Node::neg(Node::num(1, Type::Arith(ArithType::Long), span), span);
        let (addend, back) = if is_inc {
            (one, minus_one)
        } else {
            (minus_one, one)
        };
        // node += addend
        let binary = self.new_add(node, addend, span)?;
        let assign = self.new_compound_assign(binary, span)?;
        // (node += addend) - addend
        let post = self.new_add(assign, back, span)?;
        let post = self.infer_type(post)?;
        // (typeof node)((node += addend) - addend) (or reverse)
        Ok(Node::cast(post, ty, span))
    }

    /// Copy the members of a struct or union type; none if it is incomplete.
    pub fn members(&self, ty: Type) -> (r: Vec<Member>)
        ensures
            r@ == members_of(self@.types, ty),
    {
        proof {
            reveal(Parser::view);
        }
        match self.types.as_struct_or_union(ty) {
            Some(sou) => match &sou.members {
                Some(members) => copy_members(members),
                None => Vec::new(),
            },
            None => Vec::new(),
        }
    }

    /// Build a member access node for the given node.
    pub fn new_member_access(&mut self, node: Node) -> (r: Result<Node, Error>)
        requires
            old(self).inv(),
        ensures
            final(self).inv(),
            new_member_access(old(self)@, node) == (Out { st: final(self)@, r }),
            pauses(old(self)@, final(self)@, true),
            r is Ok ==> ident_at(final(self)@) is Some,
    {
        proof {
            reveal(new_member_access);
        }
        let node = self.infer_type(node)?;
        let ty = node.known_ty();
        if self.is_incomplete(ty) {
            return Err(self.error_current(Message::MemberOfIncomplete));
        }
        if !self.is_struct_or_union(ty) {
            return Err(self.error_current(Message::MemberOfNonAggregate));
        }
        let Some(name) = self.ident() else {
            return Err(self.error_current(Message::NotAnIdent));
        };
        let members = self.members(ty);
        let span = self.here();
        match find_member(&members, name) {
            Some(member) => Ok(Node::member(node, member, span)),
            None => Err(Error::Terminate(span, Message::NoSuchMember)),
        }
    }

    fn path_target(
        &mut self,
        local_id: usize,
        path: &Vec<InitializerStep>,
        span: SourceSpan,
    ) -> (r: Result<Node, Error>)
        requires
            old(self).inv(),
        ensures
            final(self).inv(),
            path_target(
                old(self)@,
                entity_node(EntityRef::Local(local_id), span),
                path@,
                0,
                span,
            ) == (Out { st: final(self)@, r }),
            pauses(old(self)@, final(self)@, true),
    {
        let mut lhs = Node::entity(EntityRef::Local(local_id), span);
        let ghost first = lhs;
        let mut k: usize = 0;
        while k < path.len()
            invariant
                self.inv(),
                k <= path.len(),
                first == entity_node(EntityRef::Local(local_id), span),
                pauses(old(self)@, self@, true),
                path_target(old(self)@, first, path@, 0, span) == path_target(
                    self@,
                    lhs,
                    path@,
                    k as int,
                    span,
                ),
            decreases path.len() - k,
        {
            proof {
                reveal(path_target);
            }
            match path[k] {
                InitializerStep::Index(index) => {
                    let index = Node::num(index as u64, Type::Arith(ArithType::ULong), span);
                    let sum = self.new_add(lhs, index, span)?;
                    lhs = Node::deref(sum, span);
                },
                InitializerStep::Member(member) => {
                    lhs = Node::member(lhs, member, span);
                },
            }
            k += 1;
        }
        proof {
            reveal(path_target);
        }
        Ok(lhs)
    }

    fn new_local_init2(
        &mut self,
        local_id: usize,
        init: Initializer,
        path: &mut Vec<InitializerStep>,
        stmts: &mut Vec<Stmt>,
    ) -> (r: Result<(), Error>)
        requires
            old(self).inv(),
        ensures
            final(self).inv(),
            local_init(old(self)@, local_id, init, old(path)@, old(stmts)@) == (Out {
                st: final(self)@,
                r: match r {
                    Ok(_) => Ok(final(stmts)@),
                    Err(e) => Err(e),
                },
            }),
            r is Ok ==> final(path)@ == old(path)@,
            pauses(old(self)@, final(self)@, true),
        decreases init,
    {
        proof {
            reveal(local_init);
            reveal(local_init_elements);
            reveal(local_init_members);
        }
        match init {
            Initializer::Expr(_, rhs) => {
                let span = rhs.span;
                let lhs = self.path_target(local_id, path, span)?;
                stmts.push(Stmt::expr(Node::assign(lhs, *rhs, span), span));
                Ok(())
            },
            Initializer::Aggregate(ty, children) => {
                if self.as_array(ty).is_some() {
                    self.local_init_elements(local_id, children, Some(0), path, stmts, Ghost(0))
                } else if self.is_struct_or_union(ty) {
                    let members = self.members(ty);
                    self.local_init_members(local_id, children, &members, 0, path, stmts)
                } else {
                    Ok(())
                }
            },
        }
    }

    fn local_init_elements(
        &mut self,
        local_id: usize,
        children: InitList,
        i: Option<usize>,
        path: &mut Vec<InitializerStep>,
        stmts: &mut Vec<Stmt>,
        Ghost(index): Ghost<int>,
    ) -> (r: Result<(), Error>)
        requires
            old(self).inv(),
            0 <= index,
            i == (if index <= usize::MAX {
                Some(index as usize)
            } else {
                None
            }),
        ensures
            final(self).inv(),
            local_init_elements(old(self)@, local_id, children, index, old(path)@, old(stmts)@)
                == (Out {
                st: final(self)@,
                r: match r {
                    Ok(_) => Ok(final(stmts)@),
                    Err(e) => Err(e),
                },
            }),
            r is Ok ==> final(path)@ == old(path)@,
            pauses(old(self)@, final(self)@, true),
        decreases children,
    {
        proof {
            reveal(local_init);
            reveal(local_init_elements);
            reveal(local_init_members);
        }
        match children {
            InitList::Nil => Ok(()),
            InitList::Cons(head, tail) => {
                let Some(i) = i else {
                    return Err(Error::Overflow);
                };
                path.push(InitializerStep::Index(i));
                self.new_local_init2(local_id, *head, path, stmts)?;
                let _ = path.pop();
                assert(path@ =~= old(path)@);
                self.local_init_elements(
                    local_id,
                    *tail,
                    i.checked_add(1),
                    path,
                    stmts,
                    Ghost(index + 1),
                )
            },
        }
    }

    fn local_init_members(
        &mut self,
        local_id: usize,
        children: InitList,
        members: &Vec<Member>,
        k: usize,
        path: &mut Vec<InitializerStep>,
        stmts: &mut Vec<Stmt>,
    ) -> (r: Result<(), Error>)
        requires
            old(self).inv(),
            k <= members@.len(),
        ensures
            final(self).inv(),
            local_init_members(
                old(self)@,
                local_id,
                children,
                members@,
                k as int,
                old(path)@,
                old(stmts)@,
            ) == (Out {
                st: final(self)@,
                r: match r {
                    Ok(_) => Ok(final(stmts)@),
                    Err(e) => Err(e),
                },
            }),
            r is Ok ==> final(path)@ == old(path)@,
            pauses(old(self)@, final(self)@, true),
        decreases children,
    {
        proof {
            reveal(local_init);
            reveal(local_init_elements);
            reveal(local_init_members);
        }
        match children {
            InitList::Nil => Ok(()),
            InitList::Cons(head, tail) => {
                if k >= members.len() {
                    return Ok(());
                }
                path.push(InitializerStep::Member(members[k]));
                self.new_local_init2(local_id, *head, path, stmts)?;
                let _ = path.pop();
                assert(path@ =~= old(path)@);
                self.local_init_members(local_id, *tail, members, k + 1, path, stmts)
            },
        }
    }

    /// Lower a local variable initializer.
    ///
    /// This pushes into `stmts` the assignment statements for the explicit
    /// initializer pieces.
    pub fn new_local_init(
        &mut self,
        local_id: usize,
        init: Initializer,
        span: SourceSpan,
        stmts: &mut Vec<Stmt>,
    ) -> (r: Result<(), Error>)
        requires
            old(self).inv(),
        ensures
            final(self).inv(),
            new_local_init(old(self)@, local_id, init, span, old(stmts)@) == (Out {
                st: final(self)@,
                r: match r {
                    Ok(_) => Ok(final(stmts)@),
                    Err(e) => Err(e),
                },
            }),
            pauses(old(self)@, final(self)@, true),
    {
        proof {
            reveal(new_local_init);
        }
        if matches!(init, Initializer::Aggregate(_, _)) {
            stmts.push(Stmt::memzero_local(local_id, span));
        }
        let mut path: Vec<InitializerStep> = Vec::new();
        self.new_local_init2(local_id, init, &mut path, stmts)
    }

    fn put_scalar(
        &self,
        ty: Type,
        value: GlobalInitValue,
        data: &mut GlobalInitData,
        offset: usize,
        span: SourceSpan,
    ) -> (r: Result<(), Error>)
        ensures
            put_scalar(self@, ty, value, data_view(*old(data)), offset, span) == (match r {
                Ok(_) => Ok::<DataView, Error>(data_view(*final(data))),
                Err(e) => Err(e),
            }),
    {
        proof {
            reveal(put_scalar);
        }
        proof {
            reveal(Parser::view);
        }
        match value {
            GlobalInitValue::Num(value) => {
                let Some(const_ty) = self.to_const(ty) else {
                    return Err(Error::Terminate(span, Message::NotConstant));
                };
                let value = match value.cast(const_ty, &self.floats) {
                    Ok(value) => value,
                    Err(query) => return Err(Error::NeedsFloat(query)),
                };
                let bits: u64 = match value.bits(&self.floats) {
                    Ok(bits) => bits,
                    Err(query) => return Err(Error::NeedsFloat(query)),
                };
                let size: u64 = self.size(ty);
                let len: usize = data.bytes.len();
                if offset > len || size > (len - offset) as u64 {
                    return Err(Error::Overflow);
                }
                store_bits(&mut data.bytes, offset, size, bits);
                Ok(())
            },
            GlobalInitValue::Reloc(label, addend) => {
                if self.size(ty) != 8 {
                    // Global relocations are emitted as ".quad" so they must
                    // occpy one pointer-sized slot
                    return Err(Error::Terminate(span, Message::InvalidInitializer));
                }
                data.relocations.push(Relocation { offset, label, addend });
                Ok(())
            },
        }
    }

    fn new_global_init2(&mut self, init: Initializer, data: &mut GlobalInitData, offset: usize) -> (r:
        Result<(), Error>)
        requires
            old(self).inv(),
        ensures
            final(self).inv(),
            global_init(old(self)@, init, data_view(*old(data)), offset) == (Out {
                st: final(self)@,
                r: match r {
                    Ok(_) => Ok(data_view(*final(data))),
                    Err(e) => Err(e),
                },
            }),
            pauses(old(self)@, final(self)@, true),
        decreases init,
    {
        proof {
            reveal(global_init);
            reveal(global_init_elements);
            reveal(global_init_members);
        }
        match init {
            Initializer::Expr(ty, rhs) => {
                let span = rhs.span;
                let value = self.eval_global_init(*rhs)?;
                self.put_scalar(ty, value, data, offset, span)
            },
            Initializer::Aggregate(ty, children) => {
                if let Some(array) = self.as_array(ty) {
                    let stride: u64 = self.size(array.base);
                    self.global_init_elements(
                        children,
                        stride,
                        data,
                        Some(offset),
                        Ghost(offset as int),
                    )
                } else if self.is_struct_or_union(ty) {
                    let members = self.members(ty);
                    self.global_init_members(children, &members, 0, data, offset)
                } else {
                    Ok(())
                }
            },
        }
    }

    fn global_init_elements(
        &mut self,
        children: InitList,
        stride: u64,
        data: &mut GlobalInitData,
        offset: Option<usize>,
        Ghost(exact): Ghost<int>,
    ) -> (r: Result<(), Error>)
        requires
            old(self).inv(),
            0 <= exact,
            offset == (if exact <= usize::MAX {
                Some(exact as usize)
            } else {
                None
            }),
        ensures
            final(self).inv(),
            global_init_elements(
                old(self)@,
                children,
                stride as int,
                data_view(*old(data)),
                exact,
            ) == (Out {
                st: final(self)@,
                r: match r {
                    Ok(_) => Ok(data_view(*final(data))),
                    Err(e) => Err(e),
                },
            }),
            pauses(old(self)@, final(self)@, true),
        decreases children,
    {
        proof {
            reveal(global_init);
            reveal(global_init_elements);
            reveal(global_init_members);
        }
        match children {
            InitList::Nil => Ok(()),
            InitList::Cons(head, tail) => {
                let Some(offset) = offset else {
                    return Err(Error::Overflow);
                };
                self.new_global_init2(*head, data, offset)?;
                let next: Option<usize> = if stride <= usize::MAX as u64 {
                    offset.checked_add(stride as usize)
                } else {
                    None
                };
                self.global_init_elements(*tail, stride, data, next, Ghost(exact + stride))
            },
        }
    }

    fn global_init_members(
        &mut self,
        children: InitList,
        members: &Vec<Member>,
        k: usize,
        data: &mut GlobalInitData,
        offset: usize,
    ) -> (r: Result<(), Error>)
        requires
            old(self).inv(),
            k <= members@.len(),
        ensures
            final(self).inv(),
            global_init_members(
                old(self)@,
                children,
                members@,
                k as int,
                data_view(*old(data)),
                offset,
            ) == (Out {
                st: final(self)@,
                r: match r {
                    Ok(_) => Ok(data_view(*final(data))),
                    Err(e) => Err(e),
                },
            }),
            pauses(old(self)@, final(self)@, true),
        decreases children,
    {
        proof {
            reveal(global_init);
            reveal(global_init_elements);
            reveal(global_init_members);
        }
        match children {
            InitList::Nil => Ok(()),
            InitList::Cons(head, tail) => {
                if k >= members.len() {
                    return Ok(());
                }
                let Some(at) = offset.checked_add(members[k].offset) else {
                    return Err(Error::Overflow);
                };
                self.new_global_init2(*head, data, at)?;
                self.global_init_members(*tail, members, k + 1, data, offset)
            },
        }
    }

    /// Write the initialization data of a global variable initializer.
    pub fn new_global_init(&mut self, init: Initializer) -> (r: Result<GlobalStorage, Error>)
        requires
            old(self).inv(),
        ensures
            final(self).inv(),
            new_global_init(old(self)@, init) == (Out {
                st: final(self)@,
                r: match r {
                    Ok(storage) => Ok(storage@),
                    Err(e) => Err(e),
                },
            }),
            pauses(old(self)@, final(self)@, true),
    {
        proof {
            reveal(new_global_init);
        }
        let size: u64 = self.size(init.ty());
        if size > usize::MAX as u64 {
            return Err(Error::Overflow);
        }
        let mut data = GlobalInitData { bytes: zeros(size as usize), relocations: Vec::new() };
        self.new_global_init2(init, &mut data, 0)?;
        Ok(GlobalStorage::Data(data))
    }

    /// Build a compound literal expression node.
    ///
    /// Inside a function, this is desugared into a statement expression, which
    /// makes a temporary variable, initializes it, and use it as the result.
    /// Otherwise (at file scope), this is desugared into an initialized hidden
    /// global object.
    pub fn new_compound_literal(&mut self, init: Initializer, span: SourceSpan) -> (r: Result<
        Node,
        Error,
    >)
        requires
            old(self).inv(),
        ensures
            final(self).inv(),
            new_compound_literal(old(self)@, init, span) == (Out { st: final(self)@, r }),
            pauses(old(self)@, final(self)@, true),
    {
        proof {
            reveal(new_compound_literal);
        }
        let ty = init.ty();
        if self.is_incomplete(ty) {
            return Err(Error::Terminate(span, Message::CompoundLiteralIncomplete));
        }
        if !self.in_function() {
            let label: usize = self.unique_label()?;
            let storage = self.new_global_init(init)?;
            let id: usize = self.create_global(Name::Unique(label), ty, None, storage, true);
            return Ok(Node::entity(EntityRef::Global(id), span));
        }
        let id: usize = self.create_local(None, ty, None);
        let mut stmts: Vec<Stmt> = Vec::new();
        self.new_local_init(id, init, span, &mut stmts)?;
        stmts.push(Stmt::expr(Node::entity(EntityRef::Local(id), span), span));
        Ok(Node::stmt_expr(StmtList::from_vec(stmts), span))
    }

    /// Return whether a function is being parsed.
    pub fn in_function(&self) -> (r: bool)
        ensures
            r == (self@.active_function is Some),
    {
        proof {
            reveal(Parser::view);
        }
        self.active_function.is_some()
    }
}

pub open spec fn data_view(data: GlobalInitData) -> DataView {
    DataView { bytes: data.bytes@, relocations: data.relocations@ }
}

/// Find the first member with the given name.
fn find_member(members: &Vec<Member>, name: Symbol) -> (r: Option<Member>)
    ensures
        r == named_member(members@, name),
{
    let mut i: usize = 0;
    assert(members@.skip(0) =~= members@);
    while i < members.len()
        invariant
            i <= members.len(),
            named_member(members@, name) == named_member(members@.skip(i as int), name),
        decreases members.len() - i,
    {
        assert(members@.skip(i as int).drop_first() =~= members@.skip(i + 1));
        if members[i].name == name {
            return Some(members[i]);
        }
        i += 1;
    }
    None
}

} // verus!
