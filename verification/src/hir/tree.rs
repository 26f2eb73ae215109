//! The nodes of the high-level IR, and the mathematical trees they stand for.

use crate::ast::{BinaryOperator, Span, StructRepr, TypeIntrinsicKind, UnaryOperator};
use crate::hir::symbols::SymbolId;
use crate::hir::types::{EnumId, EnumRepr, StructId, Type};
use vstd::prelude::*;

verus! {

#[derive(Debug, Clone, Copy, PartialEq, Eq, Structural, Hash)]
pub struct FunctionId(pub u32);

#[derive(Debug, Clone, Copy, PartialEq, Eq, Structural, Hash)]
pub struct LocalId(pub u32);

/// Index of an [`Expression`] within the type-checking results of its body
#[derive(Debug, Clone, Copy, PartialEq, Eq, Structural, Hash)]
pub struct ExprId(pub u32);

/// Size and alignment of a nominal type, cached once all types are collected
#[derive(Debug, Clone, Copy, PartialEq, Eq, Structural)]
pub struct Layout {
    pub size: u32,
    pub align: u32,
    pub contains_float: bool,
}

impl Layout {
    #[verifier::allow_in_spec]
    pub fn new(size: u32, align: u32, contains_float: bool) -> Layout
        returns
            (Layout { size, align, contains_float }),
    {
        Layout { size, align, contains_float }
    }

    #[verifier::allow_in_spec]
    pub fn contains_float(self) -> bool
        returns
            self.contains_float,
    {
        self.contains_float
    }
}

impl Default for Layout {
    fn default() -> (layout: Layout)
        ensures
            layout == Layout::new(0, 1, false),
    {
        Layout::new(0, 1, false)
    }
}

#[derive(Debug, Clone, Copy, PartialEq)]
pub struct StructField {
    pub name: SymbolId,
    pub typ: Type,
    /// Byte offset within the owning struct, filled by layout computation
    pub offset: u32,
}

#[derive(Debug, Clone, Copy, PartialEq)]
pub struct Struct<'hir> {
    pub id: StructId,
    pub name: SymbolId,
    pub decl_span: Span,
    /// Fields in source declaration order
    pub fields: &'hir [StructField],
    pub repr: StructRepr,
    pub layout: Layout,
    /// Declared generic parameter names of an open instance, for display
    pub generics: &'hir [SymbolId],
}

#[derive(Debug, Clone, Copy, PartialEq)]
pub struct EnumVariant {
    pub name: SymbolId,
    pub value: i64,
    pub payload: Option<Type>,
}

#[derive(Debug, Clone, Copy, PartialEq)]
pub struct Enum<'hir> {
    pub id: EnumId,
    pub name: SymbolId,
    pub decl_span: Span,
    pub variants: &'hir [EnumVariant],
    pub repr: EnumRepr,
    pub layout: Layout,
    /// Byte offset of a variant payload past the discriminant tag
    pub payload_offset: u32,
    pub generics: &'hir [SymbolId],
}

/// A fixed-size array type `[element; len]`
#[derive(Debug, Clone, Copy, PartialEq, Eq, Structural, Hash)]
pub struct ArrayType {
    pub element: Type,
    pub len: u32,
}

#[derive(Debug, Clone, Copy, PartialEq, Eq, Structural)]
pub enum Literal {
    /// Unit value `()`, the zero-sized type
    Unit,
    Int(i64),
    /// By the bits of its value
    Float(u64),
    Bool(bool),
    Char(char),
    Str(SymbolId),
}

#[derive(Debug, Clone, Copy, PartialEq, Eq, Structural)]
pub enum Intrinsic {
    PrintLn,
    Print,
    Syscall,
    Len,
    WrappingAdd,
    WrappingSub,
    WrappingMul,
}

#[derive(Debug, Clone, Copy, PartialEq, Eq, Structural)]
pub enum SyscallCode {
    Write,
    Exit,
}

#[derive(Debug, Clone, Copy, PartialEq, Eq, Structural)]
pub struct Method {
    pub receiver: Type,
    pub name: SymbolId,
    pub mutable: bool,
}

#[derive(Debug, Clone, Copy, PartialEq, Eq, Structural)]
pub enum FunctionKind {
    Free,
    Method(Method),
    Intrinsic(Intrinsic),
}

#[derive(Debug, Clone, Copy, PartialEq, Eq, Structural)]
pub struct Parameter {
    pub id: LocalId,
    pub name: SymbolId,
    pub mutable: bool,
    pub typ: Type,
}

#[derive(Debug, Clone, Copy, PartialEq, Eq, Structural)]
pub struct Local {
    pub id: LocalId,
    pub name: SymbolId,
    pub typ: Type,
    pub decl_span: Span,
    pub mutable: bool,
}

/// What a call expression resolved to.
#[derive(Debug, Clone, Copy, PartialEq, Eq, Structural)]
pub enum Res {
    /// A free function, method, or operator-overload target
    Function(FunctionId),
    /// An enum variant constructor (e.g. `Optional::Some(x)`)
    Variant { id: EnumId, index: usize },
}

/// What type checking found out about one expression.
#[derive(Debug, Clone, Copy, PartialEq)]
pub struct Node<'hir> {
    pub typ: Type,
    /// What the call at this node resolved to
    pub def: Option<Res>,
    /// Generic arguments applied at this node
    pub args: Option<&'hir [Type]>,
    /// The constant this node is a use of
    pub const_use: Option<SymbolId>,
}

/// Type-checking results for a body, indexed by [`ExprId`]
#[derive(Debug, Clone, Copy, PartialEq)]
pub struct TypeckResults<'hir> {
    pub nodes: &'hir [Node<'hir>],
}

/// An expression node. It carries no type: types live in [`TypeckResults`]
#[derive(Debug, Clone, Copy, PartialEq)]
pub struct Expression<'hir> {
    pub id: ExprId,
    pub kind: ExpressionKind<'hir>,
    pub span: Span,
}

#[derive(Debug, Clone, Copy, PartialEq)]
pub enum ExpressionKind<'hir> {
    /// An inline literal value
    Literal(Literal),
    Local(LocalId),
    /// A unary operation (e.g. `!x`)
    Unary { operator: UnaryOperator, expr: &'hir Expression<'hir> },
    /// A binary operation (e.g. `a * b`)
    Binary {
        operator: BinaryOperator,
        left: &'hir Expression<'hir>,
        right: &'hir Expression<'hir>,
    },
    /// An access of a named field on a struct
    Field { base: &'hir Expression<'hir>, field: SymbolId },
    /// An assignment (e.g. `a = f()`)
    Assign { target: &'hir Expression<'hir>, value: &'hir Expression<'hir> },
    /// A struct literal (e.g. `A { x: 1, y: 2 }`)
    Struct { id: StructId, fields: &'hir Vec<(SymbolId, &'hir Expression<'hir>)> },
    /// An array literal (e.g. `[1, 2, 3]`)
    Array { elements: &'hir Vec<&'hir Expression<'hir>> },
    /// An array repeat literal (e.g. `[0; 3]`)
    ArrayRepeat { value: &'hir Expression<'hir>, count: u32 },
    /// An index access (e.g. `a[i]`) into an array or slice
    Index { base: &'hir Expression<'hir>, index: &'hir Expression<'hir> },
    /// A path referencing an item, e.g. the name of a called function
    Path(SymbolId),
    /// A use of a named constant, whose value has its own [`ExprId`] space
    Const(&'hir Constant<'hir>),
    /// A function call, whose target is in [`TypeckResults`]
    Call { callee: &'hir Expression<'hir>, args: &'hir Vec<&'hir Expression<'hir>> },
    /// A method call (e.g. `x.foo(a, b)`), whose target is in [`TypeckResults`]
    MethodCall {
        name: SymbolId,
        receiver: &'hir Expression<'hir>,
        args: &'hir Vec<&'hir Expression<'hir>>,
    },
    Syscall { code: SyscallCode, args: &'hir Vec<&'hir Expression<'hir>> },
    IntrinsicCall { intrinsic: Intrinsic, args: &'hir Vec<&'hir Expression<'hir>> },
    TypeIntrinsic { kind: TypeIntrinsicKind, typ: Type },
    /// A cast (e.g. `x as i64`)
    Cast { from: &'hir Expression<'hir>, to: Type },
    /// A `match` block
    Match { scrutinee: &'hir Expression<'hir>, arms: &'hir Vec<Arm<'hir>> },
}

#[derive(Debug, Clone, Copy, PartialEq)]
pub struct Arm<'hir> {
    pub pattern: &'hir Pattern<'hir>,
    pub guard: Option<&'hir Expression<'hir>>,
    pub body: &'hir Expression<'hir>,
    pub span: Span,
}

#[derive(Debug, Clone, Copy, PartialEq)]
pub struct Pattern<'hir> {
    pub kind: PatternKind<'hir>,
    pub span: Span,
}

#[derive(Debug, Clone, Copy, PartialEq)]
pub enum PatternKind<'hir> {
    /// Wildcard `_`, matches anything, binds nothing
    Wildcard,
    /// Binds the matched value to a local (e.g. `x` in `match v { x => ... }`)
    Binding(LocalId),
    /// Enum variant pattern (e.g. `Some(x)`)
    Variant { id: EnumId, variant_idx: usize, sub: Option<&'hir Pattern<'hir>> },
    /// Or-pattern `A | B | C`
    Or(&'hir Vec<Pattern<'hir>>),
    /// Literal value
    Literal(Literal),
}

#[derive(Debug, Clone, Copy, PartialEq)]
pub struct Block<'hir> {
    pub statements: &'hir Vec<Statement<'hir>>,
    pub span: Span,
}

#[derive(Debug, Clone, Copy, PartialEq)]
pub enum Statement<'hir> {
    LetInit { id: LocalId, init: &'hir Expression<'hir> },
    LetUninit { id: LocalId },
    Expr(&'hir Expression<'hir>),
    Return(Option<&'hir Expression<'hir>>),
    If {
        condition: &'hir Expression<'hir>,
        then_block: Block<'hir>,
        else_block: Option<Block<'hir>>,
    },
    While { condition: &'hir Expression<'hir>, body: Block<'hir> },
    Loop { kind: LoopKind<'hir>, body: Block<'hir> },
    Break,
    Continue,
    Block(Block<'hir>),
}

/// A resolved loop header
#[derive(Debug, Clone, Copy, PartialEq)]
pub enum LoopKind<'hir> {
    Infinite,
    Range {
        binding: Option<LocalId>,
        start: &'hir Expression<'hir>,
        end: &'hir Expression<'hir>,
        inclusive: bool,
    },
    Iterable { binding: LocalId, iterable: &'hir Expression<'hir> },
}

#[derive(Debug, Clone, Copy, PartialEq)]
pub struct Constant<'hir> {
    pub name: SymbolId,
    pub typ: Type,
    pub value: &'hir Expression<'hir>,
    pub typeck: TypeckResults<'hir>,
    pub is_pub: bool,
    pub decl_span: Span,
}

#[derive(Debug, Clone, Copy, PartialEq)]
pub struct Function<'hir> {
    pub id: FunctionId,
    pub name: SymbolId,
    pub decl_span: Span,
    pub kind: FunctionKind,
    pub params: &'hir [Parameter],
    pub locals: &'hir [Local],
    pub return_type: Type,
    pub is_const: bool,
    pub is_pub: bool,
    pub inline: bool,
    pub typeck: TypeckResults<'hir>,
    pub body: Block<'hir>,
    /// Declared generic parameter names of an open instance, for display
    pub generics: &'hir [SymbolId],
}

/// The tree an [`Expression`] stands for.
pub ghost struct ExprTree<'hir> {
    pub id: ExprId,
    pub kind: KindTree<'hir>,
    pub span: Span,
}

pub ghost enum KindTree<'hir> {
    Literal(Literal),
    Local(LocalId),
    Unary { operator: UnaryOperator, expr: Box<ExprTree<'hir>> },
    Binary { operator: BinaryOperator, left: Box<ExprTree<'hir>>, right: Box<ExprTree<'hir>> },
    Field { base: Box<ExprTree<'hir>>, field: SymbolId },
    Assign { target: Box<ExprTree<'hir>>, value: Box<ExprTree<'hir>> },
    Struct { id: StructId, fields: Seq<(SymbolId, ExprTree<'hir>)> },
    Array { elements: Seq<ExprTree<'hir>> },
    ArrayRepeat { value: Box<ExprTree<'hir>>, count: u32 },
    Index { base: Box<ExprTree<'hir>>, index: Box<ExprTree<'hir>> },
    Path(SymbolId),
    Const(Box<ConstTree<'hir>>),
    Call { callee: Box<ExprTree<'hir>>, args: Seq<ExprTree<'hir>> },
    MethodCall { name: SymbolId, receiver: Box<ExprTree<'hir>>, args: Seq<ExprTree<'hir>> },
    Syscall { code: SyscallCode, args: Seq<ExprTree<'hir>> },
    IntrinsicCall { intrinsic: Intrinsic, args: Seq<ExprTree<'hir>> },
    TypeIntrinsic { kind: TypeIntrinsicKind, typ: Type },
    Cast { from: Box<ExprTree<'hir>>, to: Type },
    Match { scrutinee: Box<ExprTree<'hir>>, arms: Seq<ArmTree<'hir>> },
}

pub ghost struct ConstTree<'hir> {
    pub name: SymbolId,
    pub typ: Type,
    pub value: ExprTree<'hir>,
    pub typeck: TypeckResults<'hir>,
    pub is_pub: bool,
    pub decl_span: Span,
}

pub ghost struct ArmTree<'hir> {
    pub pattern: PatternTree,
    pub guard: Option<ExprTree<'hir>>,
    pub body: ExprTree<'hir>,
    pub span: Span,
}

pub ghost struct PatternTree {
    pub kind: PatternKindTree,
    pub span: Span,
}

pub ghost enum PatternKindTree {
    Wildcard,
    Binding(LocalId),
    Variant { id: EnumId, variant_idx: usize, sub: Option<Box<PatternTree>> },
    Or(Seq<PatternTree>),
    Literal(Literal),
}

pub ghost struct BlockTree<'hir> {
    pub statements: Seq<StatementTree<'hir>>,
    pub span: Span,
}

pub ghost enum StatementTree<'hir> {
    LetInit { id: LocalId, init: ExprTree<'hir> },
    LetUninit { id: LocalId },
    Expr(ExprTree<'hir>),
    Return(Option<ExprTree<'hir>>),
    If {
        condition: ExprTree<'hir>,
        then_block: BlockTree<'hir>,
        else_block: Option<BlockTree<'hir>>,
    },
    While { condition: ExprTree<'hir>, body: BlockTree<'hir> },
    Loop { kind: LoopTree<'hir>, body: BlockTree<'hir> },
    Break,
    Continue,
    Block(BlockTree<'hir>),
}

pub ghost enum LoopTree<'hir> {
    Infinite,
    Range {
        binding: Option<LocalId>,
        start: ExprTree<'hir>,
        end: ExprTree<'hir>,
        inclusive: bool,
    },
    Iterable { binding: LocalId, iterable: ExprTree<'hir> },
}

pub ghost struct FunctionTree<'hir> {
    pub id: FunctionId,
    pub name: SymbolId,
    pub decl_span: Span,
    pub kind: FunctionKind,
    pub params: Seq<Parameter>,
    pub locals: Seq<Local>,
    pub return_type: Type,
    pub is_const: bool,
    pub is_pub: bool,
    pub inline: bool,
    pub nodes: Seq<Node<'hir>>,
    pub body: BlockTree<'hir>,
    pub generics: Seq<SymbolId>,
}

impl<'hir> View for Expression<'hir> {
    type V = ExprTree<'hir>;

    open spec fn view(&self) -> ExprTree<'hir> {
        expr_tree(*self)
    }
}

/// The tree of an expression.
pub open spec fn expr_tree<'hir>(e: Expression<'hir>) -> ExprTree<'hir>
    decreases e, 1nat,
{
    ExprTree { id: e.id, kind: kind_tree(e.kind), span: e.span }
}

/// The tree of an expression's kind.
pub open spec fn kind_tree<'hir>(kind: ExpressionKind<'hir>) -> KindTree<'hir>
    decreases kind, 0nat,
{
    match kind {
        ExpressionKind::Literal(literal) => KindTree::Literal(literal),
        ExpressionKind::Local(id) => KindTree::Local(id),
        ExpressionKind::Unary { operator, expr } =>
            KindTree::Unary { operator, expr: Box::new(expr_tree(*expr)) },
        ExpressionKind::Binary { operator, left, right } => KindTree::Binary {
            operator,
            left: Box::new(expr_tree(*left)),
            right: Box::new(expr_tree(*right)),
        },
        ExpressionKind::Field { base, field } =>
            KindTree::Field { base: Box::new(expr_tree(*base)), field },
        ExpressionKind::Assign { target, value } => KindTree::Assign {
            target: Box::new(expr_tree(*target)),
            value: Box::new(expr_tree(*value)),
        },
        ExpressionKind::Struct { id, fields } =>
            KindTree::Struct { id, fields: field_trees(fields@) },
        ExpressionKind::Array { elements } =>
            KindTree::Array { elements: expr_trees(elements@) },
        ExpressionKind::ArrayRepeat { value, count } =>
            KindTree::ArrayRepeat { value: Box::new(expr_tree(*value)), count },
        ExpressionKind::Index { base, index } =>
            KindTree::Index { base: Box::new(expr_tree(*base)), index: Box::new(expr_tree(*index)) },
        ExpressionKind::Path(symbol) => KindTree::Path(symbol),
        ExpressionKind::Const(constant) => KindTree::Const(Box::new(const_tree(*constant))),
        ExpressionKind::Call { callee, args } =>
            KindTree::Call { callee: Box::new(expr_tree(*callee)), args: expr_trees(args@) },
        ExpressionKind::MethodCall { name, receiver, args } => KindTree::MethodCall {
            name,
            receiver: Box::new(expr_tree(*receiver)),
            args: expr_trees(args@),
        },
        ExpressionKind::Syscall { code, args } =>
            KindTree::Syscall { code, args: expr_trees(args@) },
        ExpressionKind::IntrinsicCall { intrinsic, args } =>
            KindTree::IntrinsicCall { intrinsic, args: expr_trees(args@) },
        ExpressionKind::TypeIntrinsic { kind, typ } => KindTree::TypeIntrinsic { kind, typ },
        ExpressionKind::Cast { from, to } =>
            KindTree::Cast { from: Box::new(expr_tree(*from)), to },
        ExpressionKind::Match { scrutinee, arms } =>
            KindTree::Match { scrutinee: Box::new(expr_tree(*scrutinee)), arms: arm_trees(arms@) },
    }
}

pub open spec fn expr_trees<'hir>(items: Seq<&'hir Expression<'hir>>) -> Seq<ExprTree<'hir>>
    decreases items, 2nat,
{
    Seq::new(
        items.len(),
        |i: int|
            if 0 <= i < items.len() {
                expr_tree(*items[i])
            } else {
                arbitrary()
            },
    )
}

pub open spec fn field_trees<'hir>(
    items: Seq<(SymbolId, &'hir Expression<'hir>)>,
) -> Seq<(SymbolId, ExprTree<'hir>)>
    decreases items, 2nat,
{
    Seq::new(
        items.len(),
        |i: int|
            if 0 <= i < items.len() {
                (items[i].0, expr_tree(*items[i].1))
            } else {
                arbitrary()
            },
    )
}

pub open spec fn arm_tree<'hir>(arm: Arm<'hir>) -> ArmTree<'hir>
    decreases arm, 1nat,
{
    ArmTree {
        pattern: pattern_tree(*arm.pattern),
        guard: match arm.guard {
            Some(guard) => Some(expr_tree(*guard)),
            None => None,
        },
        body: expr_tree(*arm.body),
        span: arm.span,
    }
}

pub open spec fn arm_trees<'hir>(items: Seq<Arm<'hir>>) -> Seq<ArmTree<'hir>>
    decreases items, 2nat,
{
    Seq::new(
        items.len(),
        |i: int|
            if 0 <= i < items.len() {
                arm_tree(items[i])
            } else {
                arbitrary()
            },
    )
}

pub open spec fn const_tree<'hir>(constant: Constant<'hir>) -> ConstTree<'hir>
    decreases constant, 1nat,
{
    ConstTree {
        name: constant.name,
        typ: constant.typ,
        value: expr_tree(*constant.value),
        typeck: constant.typeck,
        is_pub: constant.is_pub,
        decl_span: constant.decl_span,
    }
}

pub open spec fn pattern_tree(pattern: Pattern) -> PatternTree
    decreases pattern, 1nat,
{
    PatternTree { kind: pattern_kind_tree(pattern.kind), span: pattern.span }
}

pub open spec fn pattern_kind_tree(kind: PatternKind) -> PatternKindTree
    decreases kind, 0nat,
{
    match kind {
        PatternKind::Wildcard => PatternKindTree::Wildcard,
        PatternKind::Binding(id) => PatternKindTree::Binding(id),
        PatternKind::Variant { id, variant_idx, sub } => PatternKindTree::Variant {
            id,
            variant_idx,
            sub: match sub {
                Some(sub) => Some(Box::new(pattern_tree(*sub))),
                None => None,
            },
        },
        PatternKind::Or(items) => PatternKindTree::Or(pattern_trees(items@)),
        PatternKind::Literal(literal) => PatternKindTree::Literal(literal),
    }
}

pub open spec fn pattern_trees(items: Seq<Pattern>) -> Seq<PatternTree>
    decreases items, 2nat,
{
    Seq::new(
        items.len(),
        |i: int|
            if 0 <= i < items.len() {
                pattern_tree(items[i])
            } else {
                arbitrary()
            },
    )
}

pub open spec fn block_tree<'hir>(block: Block<'hir>) -> BlockTree<'hir>
    decreases block, 1nat,
{
    BlockTree { statements: statement_trees(block.statements@), span: block.span }
}

pub open spec fn statement_trees<'hir>(items: Seq<Statement<'hir>>) -> Seq<StatementTree<'hir>>
    decreases items, 2nat,
{
    Seq::new(
        items.len(),
        |i: int|
            if 0 <= i < items.len() {
                statement_tree(items[i])
            } else {
                arbitrary()
            },
    )
}

pub open spec fn statement_tree<'hir>(statement: Statement<'hir>) -> StatementTree<'hir>
    decreases statement, 0nat,
{
    match statement {
        Statement::LetInit { id, init } => StatementTree::LetInit { id, init: expr_tree(*init) },
        Statement::LetUninit { id } => StatementTree::LetUninit { id },
        Statement::Expr(expr) => StatementTree::Expr(expr_tree(*expr)),
        Statement::Return(value) => StatementTree::Return(
            match value {
                Some(value) => Some(expr_tree(*value)),
                None => None,
            },
        ),
        Statement::If { condition, then_block, else_block } => StatementTree::If {
            condition: expr_tree(*condition),
            then_block: block_tree(then_block),
            else_block: match else_block {
                Some(block) => Some(block_tree(block)),
                None => None,
            },
        },
        Statement::While { condition, body } =>
            StatementTree::While { condition: expr_tree(*condition), body: block_tree(body) },
        Statement::Loop { kind, body } =>
            StatementTree::Loop { kind: loop_tree(kind), body: block_tree(body) },
        Statement::Break => StatementTree::Break,
        Statement::Continue => StatementTree::Continue,
        Statement::Block(block) => StatementTree::Block(block_tree(block)),
    }
}

pub open spec fn loop_tree<'hir>(kind: LoopKind<'hir>) -> LoopTree<'hir> {
    match kind {
        LoopKind::Infinite => LoopTree::Infinite,
        LoopKind::Range { binding, start, end, inclusive } => LoopTree::Range {
            binding,
            start: expr_tree(*start),
            end: expr_tree(*end),
            inclusive,
        },
        LoopKind::Iterable { binding, iterable } =>
            LoopTree::Iterable { binding, iterable: expr_tree(*iterable) },
    }
}

impl<'hir> View for Function<'hir> {
    type V = FunctionTree<'hir>;

    open spec fn view(&self) -> FunctionTree<'hir> {
        FunctionTree {
            id: self.id,
            name: self.name,
            decl_span: self.decl_span,
            kind: self.kind,
            params: self.params@,
            locals: self.locals@,
            return_type: self.return_type,
            is_const: self.is_const,
            is_pub: self.is_pub,
            inline: self.inline,
            nodes: self.typeck.nodes@,
            body: block_tree(self.body),
            generics: self.generics@,
        }
    }
}

impl<'hir> TypeckResults<'hir> {
    /// The type of an expression.
    pub fn type_of(&self, id: ExprId) -> (typ: Type)
        requires
            id.0 < self.nodes@.len(),
        ensures
            typ == self.nodes@[id.0 as int].typ,
    {
        self.nodes[id.0 as usize].typ
    }

    /// What is known of an expression, if it belongs to this body.
    pub open spec fn node_spec(self, id: ExprId) -> Option<Node<'hir>> {
        if id.0 < self.nodes@.len() {
            Some(self.nodes@[id.0 as int])
        } else {
            None
        }
    }

    pub fn node(&self, id: ExprId) -> (node: Option<Node<'hir>>)
        ensures
            node == self.node_spec(id),
    {
        let index: usize = id.0 as usize;
        if index < self.nodes.len() {
            Some(self.nodes[index])
        } else {
            None
        }
    }

    /// What the call at a node resolved to.
    pub fn type_dependent_def(&self, id: ExprId) -> (def: Option<Res>)
        ensures
            def == (match self.node_spec(id) {
                Some(node) => node.def,
                None => None,
            }),
    {
        match self.node(id) {
            Some(node) => node.def,
            None => None,
        }
    }

    /// The generic arguments applied at a node.
    pub fn node_args(&self, id: ExprId) -> (args: Option<&'hir [Type]>)
        ensures
            args == (match self.node_spec(id) {
                Some(node) => node.args,
                None => None,
            }),
    {
        match self.node(id) {
            Some(node) => node.args,
            None => None,
        }
    }

    /// The constant a node is a use of.
    pub fn const_use(&self, id: ExprId) -> (name: Option<SymbolId>)
        ensures
            name == (match self.node_spec(id) {
                Some(node) => node.const_use,
                None => None,
            }),
    {
        match self.node(id) {
            Some(node) => node.const_use,
            None => None,
        }
    }
}

impl Intrinsic {
    /// The arithmetic operation a wrapping intrinsic stands for.
    #[verifier::allow_in_spec]
    pub fn binary_operator(self) -> Option<BinaryOperator>
        returns
            (match self {
                Intrinsic::WrappingAdd => Some(BinaryOperator::Add),
                Intrinsic::WrappingSub => Some(BinaryOperator::Sub),
                Intrinsic::WrappingMul => Some(BinaryOperator::Mul),
                _ => None,
            }),
    {
        match self {
            Intrinsic::WrappingAdd => Some(BinaryOperator::Add),
            Intrinsic::WrappingSub => Some(BinaryOperator::Sub),
            Intrinsic::WrappingMul => Some(BinaryOperator::Mul),
            _ => None,
        }
    }

    #[verifier::allow_in_spec]
    pub fn is_wrapping(self) -> bool
        returns
            self.binary_operator() is Some,
    {
        self.binary_operator().is_some()
    }
}

impl FunctionKind {
    #[verifier::allow_in_spec]
    pub fn intrinsic(&self) -> Option<Intrinsic>
        returns
            (match *self {
                FunctionKind::Intrinsic(intrinsic) => Some(intrinsic),
                _ => None,
            }),
    {
        match *self {
            FunctionKind::Intrinsic(intrinsic) => Some(intrinsic),
            _ => None,
        }
    }
}

impl Res {
    /// The function, if it is one.
    #[verifier::allow_in_spec]
    pub fn function(self) -> Option<FunctionId>
        returns
            (match self {
                Res::Function(id) => Some(id),
                _ => None,
            }),
    {
        match self {
            Res::Function(id) => Some(id),
            Res::Variant { .. } => None,
        }
    }
}

impl<'hir> From<i64> for ExpressionKind<'hir> {
    fn from(value: i64) -> (kind: Self) {
        ExpressionKind::Literal(Literal::Int(value))
    }
}

impl<'hir> vstd::std_specs::convert::FromSpecImpl<i64> for ExpressionKind<'hir> {
    open spec fn obeys_from_spec() -> bool {
        true
    }

    open spec fn from_spec(value: i64) -> Self {
        ExpressionKind::Literal(Literal::Int(value))
    }
}

impl<'hir> From<char> for ExpressionKind<'hir> {
    fn from(value: char) -> (kind: Self) {
        ExpressionKind::Literal(Literal::Char(value))
    }
}

impl<'hir> vstd::std_specs::convert::FromSpecImpl<char> for ExpressionKind<'hir> {
    open spec fn obeys_from_spec() -> bool {
        true
    }

    open spec fn from_spec(value: char) -> Self {
        ExpressionKind::Literal(Literal::Char(value))
    }
}

impl<'hir> From<bool> for ExpressionKind<'hir> {
    fn from(value: bool) -> (kind: Self) {
        ExpressionKind::Literal(Literal::Bool(value))
    }
}

impl<'hir> vstd::std_specs::convert::FromSpecImpl<bool> for ExpressionKind<'hir> {
    open spec fn obeys_from_spec() -> bool {
        true
    }

    open spec fn from_spec(value: bool) -> Self {
        ExpressionKind::Literal(Literal::Bool(value))
    }
}

} // verus!
