//! The parsed program: what the parser hands to semantic analysis.
//!
//! All nodes live in an arena, so every one of them can be copied freely.

use crate::text::text_eq;
use vstd::prelude::*;

verus! {

/// A range of bytes in the source text.
#[derive(Debug, Clone, Copy, PartialEq, Eq, Structural, Hash)]
pub struct Span {
    pub start: u32,
    pub end: u32,
}

/// A value together with where it stands in the source.
#[derive(Debug, Clone, Copy)]
pub struct Spanned<T> {
    pub value: T,
    pub span: Span,
}

/// The span of what the program text does not contain.
pub open spec fn no_span() -> Span {
    Span { start: 0, end: 0 }
}

impl Span {
    pub fn new(start: u32, end: u32) -> (span: Span)
        ensures
            span == (Span { start, end }),
    {
        Span { start, end }
    }
}

impl Default for Span {
    fn default() -> (span: Span)
        ensures
            span == no_span(),
    {
        Span { start: 0, end: 0 }
    }
}

/// A type annotation.
#[derive(Debug, Clone, Copy)]
pub enum Type<'s> {
    I8,
    U8,
    I16,
    U16,
    I32,
    U32,
    I64,
    U64,
    F32,
    F64,
    Bool,
    Uptr,
    Iptr,
    Char,
    Str,
    String,
    Unit,
    Never,
    SelfType,
    RefSelf,
    Named(&'s str),
    Ref(&'s Type<'s>, bool),
    Array(&'s Type<'s>, u64),
    Slice(&'s Type<'s>, bool),
    Generic(&'s str, &'s Vec<Spanned<Type<'s>>>),
}

#[derive(Debug, Clone, Copy, PartialEq, Eq, Structural)]
pub enum UnaryOperator {
    Neg,
    Not,
    Deref,
    Ref,
    RefMut,
}

#[derive(Debug, Clone, Copy, PartialEq, Eq, Structural)]
pub enum BinaryOperator {
    Add,
    Sub,
    Mul,
    Div,
    Eq,
    Ne,
    Lt,
    LtEq,
    Gt,
    GtEq,
    And,
    Or,
    BitAnd,
    BitOr,
    BitXor,
    Shl,
    Shr,
}

/// A compile-time question about a type.
#[derive(Debug, Clone, Copy, PartialEq, Eq, Structural)]
pub enum TypeIntrinsicKind {
    SizeOf,
    AlignOf,
}

#[derive(Debug, Clone, Copy)]
pub struct FieldInit<'s> {
    pub name: &'s str,
    pub value: Expression<'s>,
    pub span: Span,
}

#[derive(Debug, Clone, Copy)]
pub struct QualifiedName<'s> {
    pub qualifier: &'s str,
    pub name: &'s str,
    pub span: Span,
}

#[derive(Debug, Clone, Copy)]
pub struct Unary<'s> {
    pub operator: UnaryOperator,
    pub expr: &'s Expression<'s>,
    pub span: Span,
}

#[derive(Debug, Clone, Copy)]
pub struct Binary<'s> {
    pub left: &'s Expression<'s>,
    pub operator: BinaryOperator,
    pub right: &'s Expression<'s>,
    pub span: Span,
}

#[derive(Debug, Clone, Copy)]
pub struct Assignment<'s> {
    pub target: &'s Expression<'s>,
    pub value: &'s Expression<'s>,
    pub span: Span,
}

#[derive(Debug, Clone, Copy)]
pub struct Cast<'s> {
    pub expr: &'s Expression<'s>,
    pub target_type: Spanned<Type<'s>>,
    pub span: Span,
}

#[derive(Debug, Clone, Copy)]
pub struct StructLiteral<'s> {
    pub name: &'s str,
    pub fields: &'s Vec<FieldInit<'s>>,
    pub type_args: &'s Vec<Spanned<Type<'s>>>,
    pub span: Span,
}

#[derive(Debug, Clone, Copy)]
pub struct FieldAccess<'s> {
    pub expr: &'s Expression<'s>,
    pub field: &'s str,
    pub span: Span,
}

#[derive(Debug, Clone, Copy)]
pub struct ArrayLiteral<'s> {
    pub elements: &'s Vec<Expression<'s>>,
    pub span: Span,
}

#[derive(Debug, Clone, Copy)]
pub struct ArrayRepeat<'s> {
    pub value: &'s Expression<'s>,
    pub count: u64,
    pub span: Span,
}

#[derive(Debug, Clone, Copy)]
pub struct IndexAccess<'s> {
    pub base: &'s Expression<'s>,
    pub index: &'s Expression<'s>,
    pub span: Span,
}

#[derive(Debug, Clone, Copy)]
pub struct Call<'s> {
    pub callee: &'s Expression<'s>,
    pub args: &'s Vec<Expression<'s>>,
    pub type_args: &'s Vec<Spanned<Type<'s>>>,
    pub span: Span,
}

#[derive(Debug, Clone, Copy)]
pub struct QualifiedCall<'s> {
    pub qualifier: &'s str,
    pub name: &'s str,
    pub args: &'s Vec<Expression<'s>>,
    pub type_args: &'s Vec<Spanned<Type<'s>>>,
    pub span: Span,
}

#[derive(Debug, Clone, Copy)]
pub struct TypeIntrinsic<'s> {
    pub kind: TypeIntrinsicKind,
    pub qualifier: Option<&'s str>,
    pub typ: Spanned<Type<'s>>,
    pub span: Span,
}

#[derive(Debug, Clone, Copy)]
pub enum Expression<'s> {
    Integer(i64, Span),
    /// A floating-point literal, by the bits of its value
    Float(u64, Span),
    String(&'s str, Span),
    Char(char, Span),
    Bool(bool, Span),
    Identifier(&'s str, Span),
    QualifiedName(QualifiedName<'s>),
    Unary(Unary<'s>),
    Binary(Binary<'s>),
    Assignment(Assignment<'s>),
    Cast(Cast<'s>),
    Struct(StructLiteral<'s>),
    Field(FieldAccess<'s>),
    Array(ArrayLiteral<'s>),
    ArrayRepeat(ArrayRepeat<'s>),
    Index(IndexAccess<'s>),
    Call(Call<'s>),
    QualifiedCall(QualifiedCall<'s>),
    TypeIntrinsic(TypeIntrinsic<'s>),
}

#[derive(Debug, Clone, Copy)]
pub struct Block<'s> {
    pub statements: &'s Vec<Statement<'s>>,
    pub span: Span,
}

#[derive(Debug, Clone, Copy)]
pub struct Let<'s> {
    pub name: &'s str,
    pub name_span: Span,
    pub typ: Option<Spanned<Type<'s>>>,
    pub value: Option<Expression<'s>>,
    pub mutable: bool,
    pub span: Span,
}

#[derive(Debug, Clone, Copy)]
pub struct If<'s> {
    pub condition: Expression<'s>,
    pub then_branch: Block<'s>,
    pub else_branch: Option<&'s Else<'s>>,
    pub span: Span,
}

#[derive(Debug, Clone, Copy)]
pub enum Else<'s> {
    If(If<'s>),
    Block(Block<'s>),
    Expr(Expression<'s>),
}

#[derive(Debug, Clone, Copy)]
pub struct While<'s> {
    pub condition: Expression<'s>,
    pub body: Block<'s>,
    pub span: Span,
}

#[derive(Debug, Clone, Copy)]
pub enum LoopHeader<'s> {
    Infinite,
    Range {
        binding: Option<Spanned<&'s str>>,
        start: Expression<'s>,
        end: Expression<'s>,
        inclusive: bool,
    },
    Iterable { binding: Spanned<&'s str>, iterable: Expression<'s> },
}

#[derive(Debug, Clone, Copy)]
pub struct Loop<'s> {
    pub header: LoopHeader<'s>,
    pub body: Block<'s>,
    pub span: Span,
}

#[derive(Debug, Clone, Copy)]
pub enum PatternLit {
    Int(i64),
    /// By the bits of its value
    Float(u64),
    Bool(bool),
    Char(char),
}

#[derive(Debug, Clone, Copy)]
pub enum Pattern<'s> {
    Wildcard,
    Literal(PatternLit),
    Or(&'s Vec<Spanned<Pattern<'s>>>),
    Ident(&'s str),
    Variant { qualifier: Option<&'s str>, name: &'s str, sub: Option<&'s Spanned<Pattern<'s>>> },
}

#[derive(Debug, Clone, Copy)]
pub struct Arm<'s> {
    pub pattern: Spanned<Pattern<'s>>,
    pub guard: Option<Expression<'s>>,
    pub body: Expression<'s>,
    pub span: Span,
}

#[derive(Debug, Clone, Copy)]
pub struct Match<'s> {
    pub scrutinee: Expression<'s>,
    pub arms: &'s Vec<Arm<'s>>,
    pub span: Span,
}

#[derive(Debug, Clone, Copy)]
pub struct Return<'s> {
    pub value: Option<Expression<'s>>,
    pub span: Span,
}

#[derive(Debug, Clone, Copy)]
pub enum Statement<'s> {
    Let(Let<'s>),
    Return(Return<'s>),
    If(If<'s>),
    While(While<'s>),
    Loop(Loop<'s>),
    Break(Span),
    Continue(Span),
    /// An expression, and whether a semicolon ends it
    Expr(Expression<'s>, bool),
    Block(Block<'s>),
    Match(Match<'s>),
    Item(Item<'s>),
}

#[derive(Debug, Clone, Copy)]
pub struct Item<'s> {
    pub docs: &'s Vec<&'s str>,
    pub kind: ItemKind<'s>,
}

#[derive(Debug, Clone, Copy)]
pub enum ItemKind<'s> {
    Fn(&'s Function<'s>),
    Struct(&'s Struct<'s>),
    Enum(&'s Enum<'s>),
    Interface(&'s Interface<'s>),
    Impl(&'s Impl<'s>),
    Const(&'s Const<'s>),
    Use(&'s UseDecl<'s>),
}

#[derive(Debug, Clone, Copy)]
pub struct GenericBound<'s> {
    pub name: &'s str,
    pub bounds: &'s Vec<Spanned<Type<'s>>>,
}

#[derive(Debug, Clone, Copy)]
pub struct Receiver {
    pub mutable: bool,
    pub span: Span,
}

#[derive(Debug, Clone, Copy)]
pub struct Parameter<'s> {
    pub name: &'s str,
    pub typ: Spanned<Type<'s>>,
    pub mutable: bool,
    pub span: Span,
}

#[derive(Debug, Clone, Copy)]
pub struct Function<'s> {
    pub name: &'s str,
    pub generics: &'s Vec<GenericBound<'s>>,
    pub receiver: Option<Receiver>,
    pub params: &'s Vec<Parameter<'s>>,
    pub return_type: Option<Spanned<Type<'s>>>,
    pub body: Block<'s>,
    /// The type whose `impl` block the function stands in
    pub impl_type: Option<&'s str>,
    pub is_const: bool,
    pub is_pub: bool,
    pub inline: bool,
    pub span: Span,
}

#[derive(Debug, Clone, Copy, PartialEq, Eq, Structural)]
pub enum StructReprKind {
    Default,
    Packed,
    Extern,
}

#[derive(Debug, Clone, Copy, PartialEq, Eq, Structural)]
pub struct StructRepr {
    pub kind: StructReprKind,
    pub align: Option<u32>,
}

#[derive(Debug, Clone, Copy)]
pub struct Field<'s> {
    pub name: &'s str,
    pub typ: Spanned<Type<'s>>,
    pub span: Span,
}

#[derive(Debug, Clone, Copy)]
pub struct Struct<'s> {
    pub name: &'s str,
    pub generics: &'s Vec<GenericBound<'s>>,
    pub fields: &'s Vec<Field<'s>>,
    pub repr: StructRepr,
    pub is_pub: bool,
    pub span: Span,
}

#[derive(Debug, Clone, Copy)]
pub struct EnumVariant<'s> {
    pub name: &'s str,
    pub value: Option<i64>,
    pub payload: Option<Spanned<Type<'s>>>,
    pub span: Span,
}

#[derive(Debug, Clone, Copy)]
pub struct Enum<'s> {
    pub name: &'s str,
    pub generics: &'s Vec<GenericBound<'s>>,
    pub repr: Option<Spanned<Type<'s>>>,
    pub variants: &'s Vec<EnumVariant<'s>>,
    pub is_pub: bool,
    pub span: Span,
}

#[derive(Debug, Clone, Copy)]
pub struct InterfaceMethod<'s> {
    pub name: &'s str,
    pub generics: &'s Vec<GenericBound<'s>>,
    pub receiver: Option<Receiver>,
    pub params: &'s Vec<Parameter<'s>>,
    pub return_type: Option<Spanned<Type<'s>>>,
    /// The body implementors get if they do not write their own
    pub default: Option<Block<'s>>,
    pub span: Span,
}

#[derive(Debug, Clone, Copy)]
pub struct Interface<'s> {
    pub name: &'s str,
    pub generics: &'s Vec<GenericBound<'s>>,
    pub superinterfaces: &'s Vec<&'s str>,
    pub methods: &'s Vec<InterfaceMethod<'s>>,
    pub member_docs: &'s Vec<MemberDocs<'s>>,
    pub is_pub: bool,
    pub span: Span,
}

#[derive(Debug, Clone, Copy)]
pub struct MemberDocs<'s> {
    pub span: Span,
    pub lines: &'s Vec<&'s str>,
}

#[derive(Debug, Clone, Copy)]
pub struct Impl<'s> {
    /// The name of the type, `[]` for a slice
    pub name: &'s str,
    pub generics: &'s Vec<GenericBound<'s>>,
    pub receiver: Spanned<Type<'s>>,
    pub interface: Option<&'s str>,
    pub interface_type: Option<Spanned<Type<'s>>>,
    pub methods: &'s [&'s Function<'s>],
    pub constants: &'s Vec<Const<'s>>,
    pub member_docs: &'s Vec<MemberDocs<'s>>,
    pub span: Span,
}

#[derive(Debug, Clone, Copy)]
pub struct Const<'s> {
    pub name: &'s str,
    pub typ: Spanned<Type<'s>>,
    pub value: Expression<'s>,
    pub is_pub: bool,
    pub span: Span,
}

#[derive(Debug, Clone, Copy)]
pub struct UseDecl<'s> {
    pub path: &'s Vec<&'s str>,
    /// The items imported by name: none for an import of the whole namespace
    pub items: &'s Vec<Spanned<&'s str>>,
    pub span: Span,
}

impl<'s> Expression<'s> {
    /// Where the expression stands.
    #[verifier::allow_in_spec]
    pub fn span(&self) -> Span
        returns
            (match *self {
                Expression::Integer(_, span) => span,
                Expression::Float(_, span) => span,
                Expression::String(_, span) => span,
                Expression::Char(_, span) => span,
                Expression::Bool(_, span) => span,
                Expression::Identifier(_, span) => span,
                Expression::QualifiedName(expr) => expr.span,
                Expression::Unary(expr) => expr.span,
                Expression::Binary(expr) => expr.span,
                Expression::Assignment(expr) => expr.span,
                Expression::Cast(expr) => expr.span,
                Expression::Struct(expr) => expr.span,
                Expression::Field(expr) => expr.span,
                Expression::Array(expr) => expr.span,
                Expression::ArrayRepeat(expr) => expr.span,
                Expression::Index(expr) => expr.span,
                Expression::Call(expr) => expr.span,
                Expression::QualifiedCall(expr) => expr.span,
                Expression::TypeIntrinsic(expr) => expr.span,
            }),
    {
        match *self {
            Expression::Integer(_, span) => span,
            Expression::Float(_, span) => span,
            Expression::String(_, span) => span,
            Expression::Char(_, span) => span,
            Expression::Bool(_, span) => span,
            Expression::Identifier(_, span) => span,
            Expression::QualifiedName(expr) => expr.span,
            Expression::Unary(expr) => expr.span,
            Expression::Binary(expr) => expr.span,
            Expression::Assignment(expr) => expr.span,
            Expression::Cast(expr) => expr.span,
            Expression::Struct(expr) => expr.span,
            Expression::Field(expr) => expr.span,
            Expression::Array(expr) => expr.span,
            Expression::ArrayRepeat(expr) => expr.span,
            Expression::Index(expr) => expr.span,
            Expression::Call(expr) => expr.span,
            Expression::QualifiedCall(expr) => expr.span,
            Expression::TypeIntrinsic(expr) => expr.span,
        }
    }
}

impl<'s> ItemKind<'s> {
    #[verifier::allow_in_spec]
    pub fn span(&self) -> Span
        returns
            (match *self {
                ItemKind::Fn(item) => item.span,
                ItemKind::Struct(item) => item.span,
                ItemKind::Enum(item) => item.span,
                ItemKind::Interface(item) => item.span,
                ItemKind::Impl(item) => item.span,
                ItemKind::Const(item) => item.span,
                ItemKind::Use(item) => item.span,
            }),
    {
        match *self {
            ItemKind::Fn(item) => item.span,
            ItemKind::Struct(item) => item.span,
            ItemKind::Enum(item) => item.span,
            ItemKind::Interface(item) => item.span,
            ItemKind::Impl(item) => item.span,
            ItemKind::Const(item) => item.span,
            ItemKind::Use(item) => item.span,
        }
    }

    /// The keyword that introduces such an item.
    #[verifier::allow_in_spec]
    pub fn keyword(&self) -> &'static str
        returns
            (match *self {
                ItemKind::Fn(_) => "fn",
                ItemKind::Struct(_) => "struct",
                ItemKind::Enum(_) => "enum",
                ItemKind::Interface(_) => "interface",
                ItemKind::Impl(_) => "impl",
                ItemKind::Const(_) => "const",
                ItemKind::Use(_) => "use",
            }),
    {
        match *self {
            ItemKind::Fn(_) => "fn",
            ItemKind::Struct(_) => "struct",
            ItemKind::Enum(_) => "enum",
            ItemKind::Interface(_) => "interface",
            ItemKind::Impl(_) => "impl",
            ItemKind::Const(_) => "const",
            ItemKind::Use(_) => "use",
        }
    }
}

impl<'s> Statement<'s> {
    #[verifier::allow_in_spec]
    pub fn span(&self) -> Span
        returns
            (match *self {
                Statement::Let(statement) => statement.span,
                Statement::Return(statement) => statement.span,
                Statement::If(statement) => statement.span,
                Statement::While(statement) => statement.span,
                Statement::Loop(statement) => statement.span,
                Statement::Break(span) => span,
                Statement::Continue(span) => span,
                Statement::Expr(expr, _) => expr.span(),
                Statement::Block(block) => block.span,
                Statement::Match(statement) => statement.span,
                Statement::Item(item) => item.kind.span(),
            }),
    {
        match *self {
            Statement::Let(statement) => statement.span,
            Statement::Return(statement) => statement.span,
            Statement::If(statement) => statement.span,
            Statement::While(statement) => statement.span,
            Statement::Loop(statement) => statement.span,
            Statement::Break(span) => span,
            Statement::Continue(span) => span,
            Statement::Expr(expr, _) => expr.span(),
            Statement::Block(block) => block.span,
            Statement::Match(statement) => statement.span,
            Statement::Item(item) => item.kind.span(),
        }
    }
}

impl TypeIntrinsicKind {
    /// The name of the function that asks the question.
    #[verifier::allow_in_spec]
    pub fn name(self) -> &'static str
        returns
            (match self {
                TypeIntrinsicKind::SizeOf => "size_of",
                TypeIntrinsicKind::AlignOf => "align_of",
            }),
    {
        match self {
            TypeIntrinsicKind::SizeOf => "size_of",
            TypeIntrinsicKind::AlignOf => "align_of",
        }
    }
}

/// The primitive type of the given name.
pub open spec fn primitive_named(name: Seq<char>) -> Option<Type<'static>> {
    if name == "i8"@ {
        Some(Type::I8)
    } else if name == "u8"@ {
        Some(Type::U8)
    } else if name == "i16"@ {
        Some(Type::I16)
    } else if name == "u16"@ {
        Some(Type::U16)
    } else if name == "i32"@ {
        Some(Type::I32)
    } else if name == "u32"@ {
        Some(Type::U32)
    } else if name == "i64"@ {
        Some(Type::I64)
    } else if name == "u64"@ {
        Some(Type::U64)
    } else if name == "f32"@ {
        Some(Type::F32)
    } else if name == "f64"@ {
        Some(Type::F64)
    } else if name == "bool"@ {
        Some(Type::Bool)
    } else if name == "uptr"@ {
        Some(Type::Uptr)
    } else if name == "iptr"@ {
        Some(Type::Iptr)
    } else if name == "char"@ {
        Some(Type::Char)
    } else if name == "str"@ {
        Some(Type::Str)
    } else if name == "String"@ {
        Some(Type::String)
    } else {
        None
    }
}

impl<'s> Type<'s> {
    /// The primitive type of the given name.
    pub fn primitive(name: &str) -> (typ: Option<Type<'static>>)
        ensures
            typ == primitive_named(name@),
    {
        if text_eq(name, "i8") {
            Some(Type::I8)
        } else if text_eq(name, "u8") {
            Some(Type::U8)
        } else if text_eq(name, "i16") {
            Some(Type::I16)
        } else if text_eq(name, "u16") {
            Some(Type::U16)
        } else if text_eq(name, "i32") {
            Some(Type::I32)
        } else if text_eq(name, "u32") {
            Some(Type::U32)
        } else if text_eq(name, "i64") {
            Some(Type::I64)
        } else if text_eq(name, "u64") {
            Some(Type::U64)
        } else if text_eq(name, "f32") {
            Some(Type::F32)
        } else if text_eq(name, "f64") {
            Some(Type::F64)
        } else if text_eq(name, "bool") {
            Some(Type::Bool)
        } else if text_eq(name, "uptr") {
            Some(Type::Uptr)
        } else if text_eq(name, "iptr") {
            Some(Type::Iptr)
        } else if text_eq(name, "char") {
            Some(Type::Char)
        } else if text_eq(name, "str") {
            Some(Type::Str)
        } else if text_eq(name, "String") {
            Some(Type::String)
        } else {
            None
        }
    }
}

} // verus!
