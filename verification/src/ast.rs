//! AST node definitions.

use vstd::prelude::*;
use crate::constexpr::ConstValue;
use crate::source::SourceSpan;
use crate::types::{Member, Symbol, Type, TypeStore, Types};

verus! {

/// The name of a global object or function.
#[derive(Clone, Copy, Debug, PartialEq, Eq, Structural)]
pub enum Name {
    /// A name from the source code.
    Ident(Symbol),
    /// A hidden name, made from a unique number.
    Unique(usize),
}

/// The parsed program.
#[derive(Debug)]
pub struct Program {
    pub types: TypeStore,
    pub functions: Vec<Function>,
    pub globals: Vec<GlobalVar>,
}

/// A function declaration or definition in [`Program`].
#[derive(Debug)]
pub struct Function {
    pub name: Symbol,
    pub ty: Type,
    /// The function body.
    ///
    /// If this is `Some`, then this is a function definition. Otherwise, this
    /// is a function declaration.
    pub body: Option<Stmt>,
    /// Parameter local IDs in declaration order.
    pub param_locals: Vec<usize>,
    /// The hidden local that receives an aggregate return value.
    pub ret_buf_local: Option<usize>,
    /// The hidden `__va_area__` local for variadic functions.
    pub va_area_local: Option<usize>,
    /// The local variable table used by the function.
    pub locals: Vec<LocalVar>,
    pub is_static: bool,
    pub noreturn: bool,
}

/// The mathematical form of [`Function`].
pub struct FunctionView {
    pub name: Symbol,
    pub ty: Type,
    pub body: Option<Stmt>,
    pub param_locals: Seq<usize>,
    pub ret_buf_local: Option<usize>,
    pub va_area_local: Option<usize>,
    pub locals: Seq<LocalVar>,
    pub is_static: bool,
    pub noreturn: bool,
}

impl Function {
    pub open spec fn view(&self) -> FunctionView {
        FunctionView {
            name: self.name,
            ty: self.ty,
            body: self.body,
            param_locals: self.param_locals@,
            ret_buf_local: self.ret_buf_local,
            va_area_local: self.va_area_local,
            locals: self.locals@,
            is_static: self.is_static,
            noreturn: self.noreturn,
        }
    }
}

/// A relocation inside statically initialized global data.
#[derive(Clone, Copy, Debug, PartialEq, Eq, Structural)]
pub struct Relocation {
    pub offset: usize,
    pub label: Name,
    pub addend: i64,
}

/// Static initialization data of a global variable.
#[derive(Debug)]
pub struct GlobalInitData {
    pub bytes: Vec<u8>,
    pub relocations: Vec<Relocation>,
}

/// Storage state of a global variable.
#[derive(Debug)]
pub enum GlobalStorage {
    /// Declaration only, no storage.
    Decl,
    /// Zero-initialized storage.
    Zero,
    /// Explicit static intialization data.
    Data(GlobalInitData),
}

/// The mathematical form of [`GlobalStorage`].
pub enum StorageView {
    Decl,
    Zero,
    Data { bytes: Seq<u8>, relocations: Seq<Relocation> },
}

/// The storage of an object that is declared once with each storage state.
///
/// `None` if both declarations initialize the object.
pub open spec fn merged_storage(this: StorageView, other: StorageView) -> Option<StorageView> {
    match (this, other) {
        (StorageView::Data { .. }, StorageView::Data { .. }) => None,
        (StorageView::Data { .. }, _) => Some(this),
        (_, StorageView::Data { .. }) => Some(other),
        (StorageView::Zero, _) => Some(this),
        (_, StorageView::Zero) => Some(other),
        _ => Some(this),
    }
}

/// The outcome of merging storage does not depend on the order of declaration.
pub proof fn merged_storage_is_commutative(this: StorageView, other: StorageView)
    ensures
        merged_storage(this, other) == merged_storage(other, this),
{
}

impl GlobalStorage {
    pub open spec fn view(&self) -> StorageView {
        match *self {
            GlobalStorage::Decl => StorageView::Decl,
            GlobalStorage::Zero => StorageView::Zero,
            GlobalStorage::Data(data) => StorageView::Data {
                bytes: data.bytes@,
                relocations: data.relocations@,
            },
        }
    }

    /// Return how much the state says about the storage.
    pub fn rank(&self) -> (r: u8)
        ensures
            r == (match self@ {
                StorageView::Decl => 0u8,
                StorageView::Zero => 1u8,
                StorageView::Data { .. } => 2u8,
            }),
    {
        match self {
            GlobalStorage::Decl => 0,
            GlobalStorage::Zero => 1,
            GlobalStorage::Data(_) => 2,
        }
    }

    /// Merge another state into this one.
    ///
    /// This returns true if there is a redefinition error.
    pub fn merge(&mut self, other: GlobalStorage) -> (r: bool)
        ensures
            match merged_storage(old(self)@, other@) {
                Some(storage) => !r && final(self)@ == storage,
                None => r && final(self)@ == old(self)@,
            },
    {
        if matches!(self, GlobalStorage::Data(_)) && matches!(other, GlobalStorage::Data(_)) {
            return true;
        }
        if other.rank() > self.rank() {
            *self = other;
        }
        false
    }
}

/// A global variable defined in [`Program`].
#[derive(Debug)]
pub struct GlobalVar {
    pub name: Name,
    pub ty: Type,
    /// Optional alignment override via "_Alignas".
    pub align: Option<u64>,
    pub storage: GlobalStorage,
    pub is_static: bool,
}

/// The mathematical form of [`GlobalVar`].
pub struct GlobalView {
    pub name: Name,
    pub ty: Type,
    pub align: Option<u64>,
    pub storage: StorageView,
    pub is_static: bool,
}

impl GlobalVar {
    pub open spec fn view(&self) -> GlobalView {
        GlobalView {
            name: self.name,
            ty: self.ty,
            align: self.align,
            storage: self.storage@,
            is_static: self.is_static,
        }
    }
}

/// The functions of a list, each in its mathematical form.
pub open spec fn function_views(functions: Seq<Function>) -> Seq<FunctionView> {
    Seq::new(functions.len(), |k: int| functions[k]@)
}

/// The global variables of a list, each in its mathematical form.
pub open spec fn global_views(globals: Seq<GlobalVar>) -> Seq<GlobalView> {
    Seq::new(globals.len(), |k: int| globals[k]@)
}

/// The mathematical form of [`Program`].
pub struct ProgramView {
    pub types: Types,
    pub functions: Seq<FunctionView>,
    pub globals: Seq<GlobalView>,
}

impl Program {
    pub open spec fn view(&self) -> ProgramView {
        ProgramView {
            types: self.types@,
            functions: function_views(self.functions@),
            globals: global_views(self.globals@),
        }
    }
}

/// A local variable stored in a function's stack frame.
#[derive(Clone, Copy, Debug, PartialEq, Eq, Structural)]
pub struct LocalVar {
    pub ty: Type,
    /// Optional alignment override via "_Alignas".
    pub align: Option<u64>,
    /// The offset of the variable from the base pointer (RBP) in bytes.
    pub offset: i64,
}

/// Reference to a named entity expression.
#[derive(Clone, Copy, Debug, PartialEq, Eq, Structural)]
pub enum EntityRef {
    /// A local variable, identified by its index in the function's local
    /// variable table [`Function::locals`].
    Local(usize),
    /// A global variable, identified by its index in the program's global
    /// variable table [`Program::globals`].
    Global(usize),
    /// A function, identified by its index in the program's function table
    /// [`Program::functions`].
    Function(usize),
}

/// Binary operators.
#[derive(Clone, Copy, Debug, PartialEq, Eq, Structural)]
pub enum BinaryOp {
    Add,
    Sub,
    Mul,
    Div,
    Mod,
    BitAnd,
    BitOr,
    BitXor,
    BitLeftShift,
    BitRightShift,
    Eq,
    Ne,
    Lt,
    Le,
}

/// An AST node representing an expression.
#[derive(Debug)]
pub struct Node {
    pub kind: NodeKind,
    /// Where the expression stands in the source code.
    pub span: SourceSpan,
    /// The type computed for this expression.
    ///
    /// This is `Option` because it is not set during parsing, but only during
    /// type checking.
    pub ty: Option<Type>,
}

/// The specific expression form carried by [`Node`].
#[derive(Debug)]
pub enum NodeKind {
    /// A dummy node, used as temporary placeholders.
    Dummy,
    /// A numeric literal.
    Num(u64),
    /// A floating-point literal, given by the bits of a double.
    Flonum(u64),
    /// A function call.
    FuncCall { callee: Box<Node>, args: NodeList, ret_buf_local: Option<usize> },
    /// An address-of expression "&".
    Addr(Box<Node>),
    /// A pointer dereference "*".
    Deref(Box<Node>),
    /// A unary negation operation "-".
    Neg(Box<Node>),
    /// A unary not operation "!".
    Not(Box<Node>),
    /// A unary bit-not operation "~".
    BitNot(Box<Node>),
    /// A reference to a named entity.
    ///
    /// Locals, globals, and functions are represented separately in
    /// [`Program`], but expression resolution can refer to any of them through
    /// this enum.
    Entity(EntityRef),
    /// An assignment.
    Assign { lhs: Box<Node>, rhs: Box<Node> },
    /// A comma operator for generalized lvalues as in GNU C Extension.
    Comma { lhs: Box<Node>, rhs: Box<Node> },
    /// A logical and operation "&&".
    LogicalAnd { lhs: Box<Node>, rhs: Box<Node> },
    /// A logical or operation "||".
    LogicalOr { lhs: Box<Node>, rhs: Box<Node> },
    /// A binary operation.
    Binary { op: BinaryOp, lhs: Box<Node>, rhs: Box<Node> },
    /// A conditional operator "?".
    Conditional { cond: Box<Node>, then_expr: Box<Node>, else_expr: Box<Node> },
    /// A struct member.
    Member { parent: Box<Node>, member: Member },
    /// A statement expression as in GNU C Extension.
    StmtExpr(StmtList),
    /// A type cast.
    Cast(Box<Node>),
}

/// A list of expressions.
#[derive(Debug)]
pub enum NodeList {
    Nil,
    Cons(Box<Node>, Box<NodeList>),
}

/// A list of statements.
#[derive(Debug)]
pub enum StmtList {
    Nil,
    Cons(Box<Stmt>, Box<StmtList>),
}

/// The list with the given expressions in order.
pub open spec fn node_list(nodes: Seq<Node>) -> NodeList
    decreases nodes.len(),
{
    if nodes.len() == 0 {
        NodeList::Nil
    } else {
        NodeList::Cons(Box::new(nodes[0]), Box::new(node_list(nodes.drop_first())))
    }
}

/// The list with the given statements in order.
pub open spec fn stmt_list(stmts: Seq<Stmt>) -> StmtList
    decreases stmts.len(),
{
    if stmts.len() == 0 {
        StmtList::Nil
    } else {
        StmtList::Cons(Box::new(stmts[0]), Box::new(stmt_list(stmts.drop_first())))
    }
}

/// The list with the given switch cases in order.
pub open spec fn case_list(cases: Seq<CaseLabel>) -> CaseList
    decreases cases.len(),
{
    if cases.len() == 0 {
        CaseList::Nil
    } else {
        CaseList::Cons(cases[0], Box::new(case_list(cases.drop_first())))
    }
}

impl NodeList {
    /// The number of expressions in the list.
    pub open spec fn spec_len(&self) -> nat
        decreases self,
    {
        match self {
            NodeList::Nil => 0,
            NodeList::Cons(_, tail) => 1 + tail.spec_len(),
        }
    }

    /// Make a list of the given expressions.
    pub fn from_vec(nodes: Vec<Node>) -> (r: NodeList)
        ensures
            r == node_list(nodes@),
    {
        let mut nodes = nodes;
        let ghost all = nodes@;
        let mut list = NodeList::Nil;
        assert(all.skip(all.len() as int) =~= Seq::<Node>::empty());
        while nodes.len() > 0
            invariant
                nodes@.len() <= all.len(),
                nodes@ == all.take(nodes@.len() as int),
                list == node_list(all.skip(nodes@.len() as int)),
            decreases nodes.len(),
        {
            let ghost n = nodes@.len() as int;
            match nodes.pop() {
                Some(node) => {
                    assert(all.skip(n - 1).drop_first() =~= all.skip(n));
                    assert(all.skip(n - 1)[0] == node);
                    list = NodeList::Cons(Box::new(node), Box::new(list));
                    assert(nodes@ =~= all.take(n - 1));
                },
                None => {},
            }
        }
        assert(all.skip(0) =~= all);
        list
    }
}

impl StmtList {
    /// Make a list of the given statements.
    pub fn from_vec(stmts: Vec<Stmt>) -> (r: StmtList)
        ensures
            r == stmt_list(stmts@),
    {
        let mut stmts = stmts;
        let ghost all = stmts@;
        let mut list = StmtList::Nil;
        assert(all.skip(all.len() as int) =~= Seq::<Stmt>::empty());
        while stmts.len() > 0
            invariant
                stmts@.len() <= all.len(),
                stmts@ == all.take(stmts@.len() as int),
                list == stmt_list(all.skip(stmts@.len() as int)),
            decreases stmts.len(),
        {
            let ghost n = stmts@.len() as int;
            match stmts.pop() {
                Some(stmt) => {
                    assert(all.skip(n - 1).drop_first() =~= all.skip(n));
                    assert(all.skip(n - 1)[0] == stmt);
                    list = StmtList::Cons(Box::new(stmt), Box::new(list));
                    assert(stmts@ =~= all.take(n - 1));
                },
                None => {},
            }
        }
        assert(all.skip(0) =~= all);
        list
    }
}

impl CaseList {
    /// Make a list of the given switch cases.
    pub fn from_vec(cases: &Vec<CaseLabel>) -> (r: CaseList)
        ensures
            r == case_list(cases@),
    {
        let ghost all = cases@;
        let mut list = CaseList::Nil;
        let mut i: usize = cases.len();
        assert(all.skip(all.len() as int) =~= Seq::<CaseLabel>::empty());
        while i > 0
            invariant
                i <= cases.len(),
                all == cases@,
                list == case_list(all.skip(i as int)),
            decreases i,
        {
            i -= 1;
            assert(all.skip(i as int).drop_first() =~= all.skip(i + 1));
            list = CaseList::Cons(cases[i], Box::new(list));
        }
        assert(all.skip(0) =~= all);
        list
    }
}

/// An AST node representing a statement.
#[derive(Debug)]
pub struct Stmt {
    pub kind: StmtKind,
    /// Where the statement stands in the source code.
    pub span: SourceSpan,
}

/// A case within a switch: its value and the number of its label.
#[derive(Clone, Copy, Debug, PartialEq, Eq, Structural)]
pub struct CaseLabel {
    pub value: ConstValue,
    pub label: usize,
}

/// A list of switch cases.
#[derive(Debug)]
pub enum CaseList {
    Nil,
    Cons(CaseLabel, Box<CaseList>),
}

/// The specific statement form carried by [`Stmt`].
///
/// Labels in assembly are given by their unique numbers.
#[allow(inconsistent_fields)]
#[derive(Debug)]
pub enum StmtKind {
    /// An expression statement.
    Expr(Node),
    /// A return statement.
    Return(Option<Node>),
    /// A loop statement.
    Loop {
        /// Initialization statement, only used optionally for for-loops.
        init: Option<Box<Stmt>>,
        /// Loop condition, optional for for-loops.
        cond: Option<Node>,
        /// Loop increment, only used optionally for for-loops.
        inc: Option<Node>,
        /// Loop body.
        body: Box<Stmt>,
        /// Whether this is a do-while loop.
        do_while: bool,
        brk_label: usize,
        cont_label: usize,
    },
    /// An if-else statement.
    If { cond: Node, then_branch: Box<Stmt>, else_branch: Option<Box<Stmt>> },
    /// A switch statement as in switch-case.
    Switch {
        cond: Node,
        body: Box<Stmt>,
        /// The cases within this switch.
        cases: CaseList,
        /// The default case label within this switch.
        default: Option<usize>,
        brk_label: usize,
    },
    /// A block statement.
    Block(StmtList),
    /// A jump statement, like goto, break, and continue.
    Jump {
        /// The target label in assembly.
        ///
        /// This must be set before codegen, and is `Option` because goto
        /// statements cannot be resolved upon creation.
        label: Option<usize>,
        /// The label name to jump to, used by goto.
        label_name: Option<Symbol>,
    },
    /// A label statement, including case and default as in switch-case.
    Label {
        /// The label in assembly.
        label: usize,
        body: Box<Stmt>,
        /// The label name, used by actual label statement.
        name: Option<Symbol>,
    },
    /// Zero-fill a local variable, given its ID.
    MemzeroLocal(usize),
}

/// The type of a node, and the dummy type as long as it has none.
pub open spec fn node_ty(node: Node) -> Type {
    match node.ty {
        Some(ty) => ty,
        None => Type::Dummy,
    }
}

impl Node {
    /// Construct a numeric literal node.
    pub fn num(value: u64, ty: Type, span: SourceSpan) -> (r: Node)
        ensures
            r == (Node { kind: NodeKind::Num(value), span, ty: Some(ty) }),
    {
        Node { kind: NodeKind::Num(value), span, ty: Some(ty) }
    }

    /// Construct a floating-point literal node.
    pub fn flonum(bits: u64, ty: Type, span: SourceSpan) -> (r: Node)
        ensures
            r == (Node { kind: NodeKind::Flonum(bits), span, ty: Some(ty) }),
    {
        Node { kind: NodeKind::Flonum(bits), span, ty: Some(ty) }
    }

    /// Construct a function call node.
    pub fn func_call(callee: Node, args: NodeList, return_ty: Type, span: SourceSpan) -> (r: Node)
        ensures
            r == (Node {
                kind: NodeKind::FuncCall { callee: Box::new(callee), args, ret_buf_local: None },
                span,
                ty: Some(return_ty),
            }),
    {
        Node {
            kind: NodeKind::FuncCall { callee: Box::new(callee), args, ret_buf_local: None },
            span,
            ty: Some(return_ty),
        }
    }

    /// Construct an address-of node.
    pub fn addr(node: Node, span: SourceSpan) -> (r: Node)
        ensures
            r == (Node { kind: NodeKind::Addr(Box::new(node)), span, ty: None }),
    {
        Node { kind: NodeKind::Addr(Box::new(node)), span, ty: None }
    }

    /// Construct a dereference node.
    pub fn deref(node: Node, span: SourceSpan) -> (r: Node)
        ensures
            r == (Node { kind: NodeKind::Deref(Box::new(node)), span, ty: None }),
    {
        Node { kind: NodeKind::Deref(Box::new(node)), span, ty: None }
    }

    /// Construct a unary negation node.
    pub fn neg(node: Node, span: SourceSpan) -> (r: Node)
        ensures
            r == (Node { kind: NodeKind::Neg(Box::new(node)), span, ty: None }),
    {
        Node { kind: NodeKind::Neg(Box::new(node)), span, ty: None }
    }

    /// Construct a unary not node.
    pub fn not(node: Node, span: SourceSpan) -> (r: Node)
        ensures
            r == (Node { kind: NodeKind::Not(Box::new(node)), span, ty: None }),
    {
        Node { kind: NodeKind::Not(Box::new(node)), span, ty: None }
    }

    /// Construct a unary bit-not node.
    pub fn bit_not(node: Node, span: SourceSpan) -> (r: Node)
        ensures
            r == (Node { kind: NodeKind::BitNot(Box::new(node)), span, ty: None }),
    {
        Node { kind: NodeKind::BitNot(Box::new(node)), span, ty: None }
    }

    /// Construct an entity-reference node.
    pub fn entity(entity: EntityRef, span: SourceSpan) -> (r: Node)
        ensures
            r == (Node { kind: NodeKind::Entity(entity), span, ty: None }),
    {
        Node { kind: NodeKind::Entity(entity), span, ty: None }
    }

    /// Construct an assignment node.
    pub fn assign(lhs: Node, rhs: Node, span: SourceSpan) -> (r: Node)
        ensures
            r == (Node {
                kind: NodeKind::Assign { lhs: Box::new(lhs), rhs: Box::new(rhs) },
                span,
                ty: None,
            }),
    {
        Node { kind: NodeKind::Assign { lhs: Box::new(lhs), rhs: Box::new(rhs) }, span, ty: None }
    }

    /// Construct a comma operator node.
    pub fn comma(lhs: Node, rhs: Node, span: SourceSpan) -> (r: Node)
        ensures
            r == (Node {
                kind: NodeKind::Comma { lhs: Box::new(lhs), rhs: Box::new(rhs) },
                span,
                ty: None,
            }),
    {
        Node { kind: NodeKind::Comma { lhs: Box::new(lhs), rhs: Box::new(rhs) }, span, ty: None }
    }

    /// Construct a logical and node.
    pub fn logical_and(lhs: Node, rhs: Node, span: SourceSpan) -> (r: Node)
        ensures
            r == (Node {
                kind: NodeKind::LogicalAnd { lhs: Box::new(lhs), rhs: Box::new(rhs) },
                span,
                ty: None,
            }),
    {
        Node {
            kind: NodeKind::LogicalAnd { lhs: Box::new(lhs), rhs: Box::new(rhs) },
            span,
            ty: None,
        }
    }

    /// Construct a logical or node.
    pub fn logical_or(lhs: Node, rhs: Node, span: SourceSpan) -> (r: Node)
        ensures
            r == (Node {
                kind: NodeKind::LogicalOr { lhs: Box::new(lhs), rhs: Box::new(rhs) },
                span,
                ty: None,
            }),
    {
        Node {
            kind: NodeKind::LogicalOr { lhs: Box::new(lhs), rhs: Box::new(rhs) },
            span,
            ty: None,
        }
    }

    /// Construct a binary AST node.
    pub fn binary(op: BinaryOp, lhs: Node, rhs: Node, span: SourceSpan) -> (r: Node)
        ensures
            r == (Node {
                kind: NodeKind::Binary { op, lhs: Box::new(lhs), rhs: Box::new(rhs) },
                span,
                ty: None,
            }),
    {
        Node {
            kind: NodeKind::Binary { op, lhs: Box::new(lhs), rhs: Box::new(rhs) },
            span,
            ty: None,
        }
    }

    /// Construct a conditional node.
    pub fn conditional(cond: Node, then_expr: Node, else_expr: Node, span: SourceSpan) -> (r: Node)
        ensures
            r == (Node {
                kind: NodeKind::Conditional {
                    cond: Box::new(cond),
                    then_expr: Box::new(then_expr),
                    else_expr: Box::new(else_expr),
                },
                span,
                ty: None,
            }),
    {
        Node {
            kind: NodeKind::Conditional {
                cond: Box::new(cond),
                then_expr: Box::new(then_expr),
                else_expr: Box::new(else_expr),
            },
            span,
            ty: None,
        }
    }

    /// Construct a struct member access node.
    pub fn member(parent: Node, member: Member, span: SourceSpan) -> (r: Node)
        ensures
            r == (Node { kind: NodeKind::Member { parent: Box::new(parent), member }, span, ty: None }),
    {
        Node { kind: NodeKind::Member { parent: Box::new(parent), member }, span, ty: None }
    }

    /// Construct a statement expression node.
    pub fn stmt_expr(stmts: StmtList, span: SourceSpan) -> (r: Node)
        ensures
            r == (Node { kind: NodeKind::StmtExpr(stmts), span, ty: None }),
    {
        Node { kind: NodeKind::StmtExpr(stmts), span, ty: None }
    }

    /// Construct a type cast node.
    pub fn cast(expr: Node, ty: Type, span: SourceSpan) -> (r: Node)
        ensures
            r == (Node { kind: NodeKind::Cast(Box::new(expr)), span, ty: Some(ty) }),
    {
        Node { kind: NodeKind::Cast(Box::new(expr)), span, ty: Some(ty) }
    }

    /// Get the type of this node, expecting it to be set.
    pub fn expect_ty(&self) -> (r: Type)
        requires
            self.ty is Some,
        ensures
            r == node_ty(*self),
    {
        self.ty.unwrap()
    }

    /// Get the type of this node, and the dummy type if it is not set.
    pub fn known_ty(&self) -> (r: Type)
        ensures
            r == node_ty(*self),
    {
        match self.ty {
            Some(ty) => ty,
            None => Type::Dummy,
        }
    }
}

impl Stmt {
    /// Construct an expression statement.
    pub fn expr(expr: Node, span: SourceSpan) -> (r: Stmt)
        ensures
            r == (Stmt { kind: StmtKind::Expr(expr), span }),
    {
        Stmt { kind: StmtKind::Expr(expr), span }
    }

    /// Construct a return statement.
    pub fn return_(expr: Option<Node>, span: SourceSpan) -> (r: Stmt)
        ensures
            r == (Stmt { kind: StmtKind::Return(expr), span }),
    {
        Stmt { kind: StmtKind::Return(expr), span }
    }

    /// Construct a block statement.
    pub fn block(stmts: StmtList, span: SourceSpan) -> (r: Stmt)
        ensures
            r == (Stmt { kind: StmtKind::Block(stmts), span }),
    {
        Stmt { kind: StmtKind::Block(stmts), span }
    }

    /// Construct a for-loop statement.
    pub fn for_(
        init: Stmt,
        cond: Option<Node>,
        inc: Option<Node>,
        body: Stmt,
        brk_label: usize,
        cont_label: usize,
        span: SourceSpan,
    ) -> (r: Stmt)
        ensures
            r == (Stmt {
                kind: StmtKind::Loop {
                    init: Some(Box::new(init)),
                    cond,
                    inc,
                    body: Box::new(body),
                    do_while: false,
                    brk_label,
                    cont_label,
                },
                span,
            }),
    {
        Stmt {
            kind: StmtKind::Loop {
                init: Some(Box::new(init)),
                cond,
                inc,
                body: Box::new(body),
                do_while: false,
                brk_label,
                cont_label,
            },
            span,
        }
    }

    /// Construct a while-loop or do-while statement.
    pub fn while_(
        cond: Node,
        body: Stmt,
        do_while: bool,
        brk_label: usize,
        cont_label: usize,
        span: SourceSpan,
    ) -> (r: Stmt)
        ensures
            r == (Stmt {
                kind: StmtKind::Loop {
                    init: None,
                    cond: Some(cond),
                    inc: None,
                    body: Box::new(body),
                    do_while,
                    brk_label,
                    cont_label,
                },
                span,
            }),
    {
        Stmt {
            kind: StmtKind::Loop {
                init: None,
                cond: Some(cond),
                inc: None,
                body: Box::new(body),
                do_while,
                brk_label,
                cont_label,
            },
            span,
        }
    }

    /// Construct a conditional statement.
    pub fn if_(
        cond: Node,
        then_branch: Stmt,
        else_branch: Option<Box<Stmt>>,
        span: SourceSpan,
    ) -> (r: Stmt)
        ensures
            r == (Stmt {
                kind: StmtKind::If { cond, then_branch: Box::new(then_branch), else_branch },
                span,
            }),
    {
        Stmt { kind: StmtKind::If { cond, then_branch: Box::new(then_branch), else_branch }, span }
    }

    /// Construct a switch statement.
    pub fn switch(
        cond: Node,
        body: Stmt,
        cases: CaseList,
        default: Option<usize>,
        brk_label: usize,
        span: SourceSpan,
    ) -> (r: Stmt)
        ensures
            r == (Stmt {
                kind: StmtKind::Switch { cond, body: Box::new(body), cases, default, brk_label },
                span,
            }),
    {
        Stmt {
            kind: StmtKind::Switch { cond, body: Box::new(body), cases, default, brk_label },
            span,
        }
    }

    /// Construct a goto statement.
    pub fn goto(label_name: Symbol, span: SourceSpan) -> (r: Stmt)
        ensures
            r == (Stmt { kind: StmtKind::Jump { label: None, label_name: Some(label_name) }, span }),
    {
        Stmt { kind: StmtKind::Jump { label: None, label_name: Some(label_name) }, span }
    }

    /// Construct a break/continue statement.
    pub fn jump(label: usize, span: SourceSpan) -> (r: Stmt)
        ensures
            r == (Stmt { kind: StmtKind::Jump { label: Some(label), label_name: None }, span }),
    {
        Stmt { kind: StmtKind::Jump { label: Some(label), label_name: None }, span }
    }

    /// Construct a label statement.
    pub fn label(label: usize, body: Stmt, name: Symbol, span: SourceSpan) -> (r: Stmt)
        ensures
            r == (Stmt { kind: StmtKind::Label { label, body: Box::new(body), name: Some(name) }, span }),
    {
        Stmt { kind: StmtKind::Label { label, body: Box::new(body), name: Some(name) }, span }
    }

    /// Construct a case statement.
    pub fn case(label: usize, body: Stmt, span: SourceSpan) -> (r: Stmt)
        ensures
            r == (Stmt { kind: StmtKind::Label { label, body: Box::new(body), name: None }, span }),
    {
        Stmt { kind: StmtKind::Label { label, body: Box::new(body), name: None }, span }
    }

    /// Construct a statement that zero-fills a local variable.
    pub fn memzero_local(local_id: usize, span: SourceSpan) -> (r: Stmt)
        ensures
            r == (Stmt { kind: StmtKind::MemzeroLocal(local_id), span }),
    {
        Stmt { kind: StmtKind::MemzeroLocal(local_id), span }
    }
}

} // verus!
