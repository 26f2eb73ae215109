//! Parsed items as contracts see them: with texts and lists by what they hold.
//!
//! What monomorphisation hands on as it is, such as patterns, is kept as it is.

use crate::ast::{
    Arm, BinaryOperator, Block, Const, Else, Enum, EnumVariant, Expression, Field, FieldInit,
    Function, GenericBound, If, Impl, Interface, InterfaceMethod, Item, ItemKind, LoopHeader,
    MemberDocs, Parameter, Pattern, Receiver, Span, Spanned, Statement, Struct, StructRepr, Type,
    TypeIntrinsicKind, UnaryOperator, UseDecl,
};
use crate::hir::monomorph::shape::{optional_shape, shape_at, shapes_at, ShapeAt};
use vstd::prelude::*;

verus! {

pub ghost struct InitForm {
    pub name: Seq<char>,
    pub value: ExprForm,
    pub span: Span,
}

pub ghost enum ExprForm {
    Integer(i64, Span),
    Float(u64, Span),
    String(Seq<char>, Span),
    Char(char, Span),
    Bool(bool, Span),
    Identifier(Seq<char>, Span),
    QualifiedName { qualifier: Seq<char>, name: Seq<char>, span: Span },
    Unary { operator: UnaryOperator, expr: Box<ExprForm>, span: Span },
    Binary { left: Box<ExprForm>, operator: BinaryOperator, right: Box<ExprForm>, span: Span },
    Assignment { target: Box<ExprForm>, value: Box<ExprForm>, span: Span },
    Cast { expr: Box<ExprForm>, target_type: ShapeAt, span: Span },
    Struct { name: Seq<char>, fields: Seq<InitForm>, type_args: Seq<ShapeAt>, span: Span },
    Field { expr: Box<ExprForm>, field: Seq<char>, span: Span },
    Array { elements: Seq<ExprForm>, span: Span },
    ArrayRepeat { value: Box<ExprForm>, count: u64, span: Span },
    Index { base: Box<ExprForm>, index: Box<ExprForm>, span: Span },
    Call { callee: Box<ExprForm>, args: Seq<ExprForm>, type_args: Seq<ShapeAt>, span: Span },
    QualifiedCall {
        qualifier: Seq<char>,
        name: Seq<char>,
        args: Seq<ExprForm>,
        type_args: Seq<ShapeAt>,
        span: Span,
    },
    TypeIntrinsic {
        kind: TypeIntrinsicKind,
        qualifier: Option<Seq<char>>,
        typ: ShapeAt,
        span: Span,
    },
}

pub open spec fn expr_form(expr: Expression) -> ExprForm
    decreases expr, 0nat,
{
    match expr {
        Expression::Integer(value, span) => ExprForm::Integer(value, span),
        Expression::Float(bits, span) => ExprForm::Float(bits, span),
        Expression::String(text, span) => ExprForm::String(text@, span),
        Expression::Char(value, span) => ExprForm::Char(value, span),
        Expression::Bool(value, span) => ExprForm::Bool(value, span),
        Expression::Identifier(name, span) => ExprForm::Identifier(name@, span),
        Expression::QualifiedName(e) => ExprForm::QualifiedName {
            qualifier: e.qualifier@,
            name: e.name@,
            span: e.span,
        },
        Expression::Unary(e) => ExprForm::Unary {
            operator: e.operator,
            expr: Box::new(expr_form(*e.expr)),
            span: e.span,
        },
        Expression::Binary(e) => ExprForm::Binary {
            left: Box::new(expr_form(*e.left)),
            operator: e.operator,
            right: Box::new(expr_form(*e.right)),
            span: e.span,
        },
        Expression::Assignment(e) => ExprForm::Assignment {
            target: Box::new(expr_form(*e.target)),
            value: Box::new(expr_form(*e.value)),
            span: e.span,
        },
        Expression::Cast(e) => ExprForm::Cast {
            expr: Box::new(expr_form(*e.expr)),
            target_type: shape_at(e.target_type),
            span: e.span,
        },
        Expression::Struct(e) => ExprForm::Struct {
            name: e.name@,
            fields: init_forms(e.fields@),
            type_args: shapes_at(e.type_args@),
            span: e.span,
        },
        Expression::Field(e) => ExprForm::Field {
            expr: Box::new(expr_form(*e.expr)),
            field: e.field@,
            span: e.span,
        },
        Expression::Array(e) => ExprForm::Array { elements: expr_forms(e.elements@), span: e.span },
        Expression::ArrayRepeat(e) => ExprForm::ArrayRepeat {
            value: Box::new(expr_form(*e.value)),
            count: e.count,
            span: e.span,
        },
        Expression::Index(e) => ExprForm::Index {
            base: Box::new(expr_form(*e.base)),
            index: Box::new(expr_form(*e.index)),
            span: e.span,
        },
        Expression::Call(e) => ExprForm::Call {
            callee: Box::new(expr_form(*e.callee)),
            args: expr_forms(e.args@),
            type_args: shapes_at(e.type_args@),
            span: e.span,
        },
        Expression::QualifiedCall(e) => ExprForm::QualifiedCall {
            qualifier: e.qualifier@,
            name: e.name@,
            args: expr_forms(e.args@),
            type_args: shapes_at(e.type_args@),
            span: e.span,
        },
        Expression::TypeIntrinsic(e) => ExprForm::TypeIntrinsic {
            kind: e.kind,
            qualifier: match e.qualifier {
                Some(qualifier) => Some(qualifier@),
                None => None,
            },
            typ: shape_at(e.typ),
            span: e.span,
        },
    }
}

pub open spec fn expr_forms(items: Seq<Expression>) -> Seq<ExprForm>
    decreases items, 1nat,
{
    Seq::new(
        items.len(),
        |i: int|
            if 0 <= i < items.len() {
                expr_form(items[i])
            } else {
                arbitrary()
            },
    )
}

pub open spec fn init_forms(items: Seq<FieldInit>) -> Seq<InitForm>
    decreases items, 1nat,
{
    Seq::new(
        items.len(),
        |i: int|
            if 0 <= i < items.len() {
                InitForm {
                    name: items[i].name@,
                    value: expr_form(items[i].value),
                    span: items[i].span,
                }
            } else {
                arbitrary()
            },
    )
}

pub open spec fn optional_expr(expr: Option<Expression>) -> Option<ExprForm> {
    match expr {
        Some(expr) => Some(expr_form(expr)),
        None => None,
    }
}

pub ghost struct BlockForm<'s> {
    pub statements: Seq<StatementForm<'s>>,
    pub span: Span,
}

pub ghost struct LetForm<'s> {
    pub name: &'s str,
    pub name_span: Span,
    pub typ: Option<ShapeAt>,
    pub value: Option<ExprForm>,
    pub mutable: bool,
    pub span: Span,
}

pub ghost struct IfForm<'s> {
    pub condition: ExprForm,
    pub then_branch: BlockForm<'s>,
    pub else_branch: Option<Box<ElseForm<'s>>>,
    pub span: Span,
}

pub ghost enum ElseForm<'s> {
    If(IfForm<'s>),
    Block(BlockForm<'s>),
    Expr(ExprForm),
}

pub ghost enum HeaderForm<'s> {
    Infinite,
    Range {
        binding: Option<Spanned<&'s str>>,
        start: ExprForm,
        end: ExprForm,
        inclusive: bool,
    },
    Iterable { binding: Spanned<&'s str>, iterable: ExprForm },
}

pub ghost struct ArmForm<'s> {
    pub pattern: Spanned<Pattern<'s>>,
    pub guard: Option<ExprForm>,
    pub body: ExprForm,
    pub span: Span,
}

pub ghost enum StatementForm<'s> {
    Let(LetForm<'s>),
    Return(Option<ExprForm>, Span),
    If(IfForm<'s>),
    While { condition: ExprForm, body: BlockForm<'s>, span: Span },
    Loop { header: HeaderForm<'s>, body: BlockForm<'s>, span: Span },
    Break(Span),
    Continue(Span),
    Expr(ExprForm, bool),
    Block(BlockForm<'s>),
    Match { scrutinee: ExprForm, arms: Seq<ArmForm<'s>>, span: Span },
    Const { docs: Seq<&'s str>, item: ConstForm<'s> },
    /// Any other item, which has no place in a body
    Item(Item<'s>),
}

/// A statement of a module.
pub ghost enum TopForm<'s> {
    Item { docs: Seq<&'s str>, kind: ItemForm<'s> },
    Other(StatementForm<'s>),
}

pub ghost enum ItemForm<'s> {
    Fn(FunctionForm<'s>),
    Struct(StructForm<'s>),
    Enum(EnumForm<'s>),
    Interface(InterfaceForm<'s>),
    Impl(ImplForm<'s>),
    Const(ConstForm<'s>),
    Use(&'s UseDecl<'s>),
}

pub ghost struct ParamForm<'s> {
    pub name: &'s str,
    pub typ: ShapeAt,
    pub mutable: bool,
    pub span: Span,
}

pub ghost struct FunctionForm<'s> {
    pub name: Seq<char>,
    pub generics: Seq<GenericBound<'s>>,
    pub receiver: Option<Receiver>,
    pub params: Seq<ParamForm<'s>>,
    pub return_type: Option<ShapeAt>,
    pub body: BlockForm<'s>,
    pub impl_type: Option<Seq<char>>,
    pub is_const: bool,
    pub is_pub: bool,
    pub inline: bool,
    pub span: Span,
}

pub ghost struct FieldForm<'s> {
    pub name: &'s str,
    pub typ: ShapeAt,
    pub span: Span,
}

pub ghost struct StructForm<'s> {
    pub name: Seq<char>,
    pub generics: Seq<GenericBound<'s>>,
    pub fields: Seq<FieldForm<'s>>,
    pub repr: StructRepr,
    pub is_pub: bool,
    pub span: Span,
}

pub ghost struct VariantForm<'s> {
    pub name: &'s str,
    pub value: Option<i64>,
    pub payload: Option<ShapeAt>,
    pub span: Span,
}

pub ghost struct EnumForm<'s> {
    pub name: Seq<char>,
    pub generics: Seq<GenericBound<'s>>,
    pub repr: Option<Spanned<Type<'s>>>,
    pub variants: Seq<VariantForm<'s>>,
    pub is_pub: bool,
    pub span: Span,
}

pub ghost struct MethodForm<'s> {
    pub name: &'s str,
    pub generics: Seq<GenericBound<'s>>,
    pub receiver: Option<Receiver>,
    pub params: Seq<ParamForm<'s>>,
    pub return_type: Option<ShapeAt>,
    pub default: Option<BlockForm<'s>>,
    pub span: Span,
}

pub ghost struct InterfaceForm<'s> {
    pub name: &'s str,
    pub generics: Seq<GenericBound<'s>>,
    pub superinterfaces: Seq<&'s str>,
    pub methods: Seq<MethodForm<'s>>,
    pub member_docs: Seq<MemberDocs<'s>>,
    pub is_pub: bool,
    pub span: Span,
}

pub ghost struct ImplForm<'s> {
    pub name: Seq<char>,
    pub generics: Seq<GenericBound<'s>>,
    pub receiver: ShapeAt,
    pub interface: Option<&'s str>,
    pub interface_type: Option<Spanned<Type<'s>>>,
    pub methods: Seq<FunctionForm<'s>>,
    pub constants: Seq<Const<'s>>,
    pub member_docs: Seq<MemberDocs<'s>>,
    pub span: Span,
}

pub ghost struct ConstForm<'s> {
    pub name: &'s str,
    pub typ: ShapeAt,
    pub value: ExprForm,
    pub is_pub: bool,
    pub span: Span,
}

pub open spec fn param_form<'s>(param: Parameter<'s>) -> ParamForm<'s> {
    ParamForm {
        name: param.name,
        typ: shape_at(param.typ),
        mutable: param.mutable,
        span: param.span,
    }
}

pub open spec fn param_forms<'s>(params: Seq<Parameter<'s>>) -> Seq<ParamForm<'s>> {
    Seq::new(params.len(), |i: int| param_form(params[i]))
}

pub open spec fn field_form<'s>(field: Field<'s>) -> FieldForm<'s> {
    FieldForm { name: field.name, typ: shape_at(field.typ), span: field.span }
}

pub open spec fn field_forms<'s>(fields: Seq<Field<'s>>) -> Seq<FieldForm<'s>> {
    Seq::new(fields.len(), |i: int| field_form(fields[i]))
}

pub open spec fn struct_form<'s>(item: Struct<'s>) -> StructForm<'s> {
    StructForm {
        name: item.name@,
        generics: item.generics@,
        fields: field_forms(item.fields@),
        repr: item.repr,
        is_pub: item.is_pub,
        span: item.span,
    }
}

pub open spec fn variant_form<'s>(variant: EnumVariant<'s>) -> VariantForm<'s> {
    VariantForm {
        name: variant.name,
        value: variant.value,
        payload: optional_shape(variant.payload),
        span: variant.span,
    }
}

pub open spec fn variant_forms<'s>(variants: Seq<EnumVariant<'s>>) -> Seq<VariantForm<'s>> {
    Seq::new(variants.len(), |i: int| variant_form(variants[i]))
}

pub open spec fn enum_form<'s>(item: Enum<'s>) -> EnumForm<'s> {
    EnumForm {
        name: item.name@,
        generics: item.generics@,
        repr: item.repr,
        variants: variant_forms(item.variants@),
        is_pub: item.is_pub,
        span: item.span,
    }
}

pub open spec fn const_form<'s>(item: Const<'s>) -> ConstForm<'s> {
    ConstForm {
        name: item.name,
        typ: shape_at(item.typ),
        value: expr_form(item.value),
        is_pub: item.is_pub,
        span: item.span,
    }
}

pub open spec fn header_form<'s>(header: LoopHeader<'s>) -> HeaderForm<'s> {
    match header {
        LoopHeader::Infinite => HeaderForm::Infinite,
        LoopHeader::Range { binding, start, end, inclusive } => HeaderForm::Range {
            binding,
            start: expr_form(start),
            end: expr_form(end),
            inclusive,
        },
        LoopHeader::Iterable { binding, iterable } => HeaderForm::Iterable {
            binding,
            iterable: expr_form(iterable),
        },
    }
}

pub open spec fn arm_form<'s>(arm: Arm<'s>) -> ArmForm<'s> {
    ArmForm {
        pattern: arm.pattern,
        guard: optional_expr(arm.guard),
        body: expr_form(arm.body),
        span: arm.span,
    }
}

pub open spec fn arm_forms<'s>(arms: Seq<Arm<'s>>) -> Seq<ArmForm<'s>> {
    Seq::new(arms.len(), |i: int| arm_form(arms[i]))
}

pub open spec fn block_form<'s>(block: Block<'s>) -> BlockForm<'s>
    decreases block, 1nat,
{
    BlockForm { statements: statement_forms(block.statements@), span: block.span }
}

pub open spec fn statement_forms<'s>(items: Seq<Statement<'s>>) -> Seq<StatementForm<'s>>
    decreases items, 2nat,
{
    Seq::new(
        items.len(),
        |i: int|
            if 0 <= i < items.len() {
                statement_form(items[i])
            } else {
                arbitrary()
            },
    )
}

pub open spec fn if_form<'s>(statement: If<'s>) -> IfForm<'s>
    decreases statement, 1nat,
{
    IfForm {
        condition: expr_form(statement.condition),
        then_branch: block_form(statement.then_branch),
        else_branch: match statement.else_branch {
            Some(branch) => Some(Box::new(else_form(*branch))),
            None => None,
        },
        span: statement.span,
    }
}

pub open spec fn else_form<'s>(branch: Else<'s>) -> ElseForm<'s>
    decreases branch, 0nat,
{
    match branch {
        Else::If(nested) => ElseForm::If(if_form(nested)),
        Else::Block(block) => ElseForm::Block(block_form(block)),
        Else::Expr(expr) => ElseForm::Expr(expr_form(expr)),
    }
}

pub open spec fn statement_form<'s>(statement: Statement<'s>) -> StatementForm<'s>
    decreases statement, 0nat,
{
    match statement {
        Statement::Let(s) => StatementForm::Let(
            LetForm {
                name: s.name,
                name_span: s.name_span,
                typ: optional_shape(s.typ),
                value: optional_expr(s.value),
                mutable: s.mutable,
                span: s.span,
            },
        ),
        Statement::Return(s) => StatementForm::Return(optional_expr(s.value), s.span),
        Statement::If(s) => StatementForm::If(if_form(s)),
        Statement::While(s) => StatementForm::While {
            condition: expr_form(s.condition),
            body: block_form(s.body),
            span: s.span,
        },
        Statement::Loop(s) => StatementForm::Loop {
            header: header_form(s.header),
            body: block_form(s.body),
            span: s.span,
        },
        Statement::Break(span) => StatementForm::Break(span),
        Statement::Continue(span) => StatementForm::Continue(span),
        Statement::Expr(expr, ended) => StatementForm::Expr(expr_form(expr), ended),
        Statement::Block(block) => StatementForm::Block(block_form(block)),
        Statement::Match(s) => StatementForm::Match {
            scrutinee: expr_form(s.scrutinee),
            arms: arm_forms(s.arms@),
            span: s.span,
        },
        Statement::Item(item) => match item.kind {
            ItemKind::Const(constant) => StatementForm::Const {
                docs: item.docs@,
                item: const_form(*constant),
            },
            _ => StatementForm::Item(item),
        },
    }
}

pub open spec fn top_form<'s>(statement: Statement<'s>) -> TopForm<'s> {
    match statement {
        Statement::Item(item) => TopForm::Item { docs: item.docs@, kind: item_form(item.kind) },
        _ => TopForm::Other(statement_form(statement)),
    }
}

pub open spec fn top_forms<'s>(statements: Seq<Statement<'s>>) -> Seq<TopForm<'s>> {
    Seq::new(statements.len(), |i: int| top_form(statements[i]))
}

pub open spec fn item_form<'s>(kind: ItemKind<'s>) -> ItemForm<'s> {
    match kind {
        ItemKind::Fn(item) => ItemForm::Fn(function_form(*item)),
        ItemKind::Struct(item) => ItemForm::Struct(struct_form(*item)),
        ItemKind::Enum(item) => ItemForm::Enum(enum_form(*item)),
        ItemKind::Interface(item) => ItemForm::Interface(interface_form(*item)),
        ItemKind::Impl(item) => ItemForm::Impl(impl_form(*item)),
        ItemKind::Const(item) => ItemForm::Const(const_form(*item)),
        ItemKind::Use(item) => ItemForm::Use(item),
    }
}

pub open spec fn function_form<'s>(item: Function<'s>) -> FunctionForm<'s> {
    FunctionForm {
        name: item.name@,
        generics: item.generics@,
        receiver: item.receiver,
        params: param_forms(item.params@),
        return_type: optional_shape(item.return_type),
        body: block_form(item.body),
        impl_type: match item.impl_type {
            Some(name) => Some(name@),
            None => None,
        },
        is_const: item.is_const,
        is_pub: item.is_pub,
        inline: item.inline,
        span: item.span,
    }
}

pub open spec fn method_form<'s>(item: InterfaceMethod<'s>) -> MethodForm<'s> {
    MethodForm {
        name: item.name,
        generics: item.generics@,
        receiver: item.receiver,
        params: param_forms(item.params@),
        return_type: optional_shape(item.return_type),
        default: match item.default {
            Some(block) => Some(block_form(block)),
            None => None,
        },
        span: item.span,
    }
}

pub open spec fn method_forms<'s>(items: Seq<InterfaceMethod<'s>>) -> Seq<MethodForm<'s>> {
    Seq::new(items.len(), |i: int| method_form(items[i]))
}

pub open spec fn interface_form<'s>(item: Interface<'s>) -> InterfaceForm<'s> {
    InterfaceForm {
        name: item.name,
        generics: item.generics@,
        superinterfaces: item.superinterfaces@,
        methods: method_forms(item.methods@),
        member_docs: item.member_docs@,
        is_pub: item.is_pub,
        span: item.span,
    }
}

pub open spec fn function_forms<'s>(items: Seq<&'s Function<'s>>) -> Seq<FunctionForm<'s>> {
    Seq::new(items.len(), |i: int| function_form(*items[i]))
}

pub open spec fn impl_form<'s>(item: Impl<'s>) -> ImplForm<'s> {
    ImplForm {
        name: item.name@,
        generics: item.generics@,
        receiver: shape_at(item.receiver),
        interface: item.interface,
        interface_type: item.interface_type,
        methods: function_forms(item.methods@),
        constants: item.constants@,
        member_docs: item.member_docs@,
        span: item.span,
    }
}

} // verus!
