//! Collection of the uses of templates.

use crate::arena::Arena;
use crate::ast::{
    Arm, Block, Const, Else, Enum, Expression, FieldInit, Function, If, Impl, Interface, ItemKind,
    Parameter, Spanned, Statement, Struct, Type,
};
use crate::hir::monomorph::copies::lemma_bare;
use crate::hir::monomorph::form::{
    arm_form, arm_forms, block_form, const_form, else_form, enum_form, expr_form, expr_forms,
    field_forms, function_form, function_forms, if_form, impl_form, init_forms, interface_form,
    method_forms, optional_expr, param_forms, statement_form, statement_forms, struct_form,
    top_form, variant_forms, ArmForm, BlockForm, ConstForm, ElseForm, ExprForm, FieldForm,
    FunctionForm, IfForm, InitForm, ItemForm, MethodForm, ParamForm, StatementForm, TopForm,
    VariantForm,
};
use crate::hir::monomorph::shape::{
    arg_shapes, bare, optional_shape, same_types, shape, shapes_at, type_shapes, Shape, ShapeAt,
};
use crate::hir::monomorph::templates::{TemplateSet, Templates};
use crate::text::text_eq;
use vstd::prelude::*;

verus! {

/// A template together with its arguments.
#[derive(Debug, Clone, Copy)]
pub struct Instantiation<'s> {
    pub name: &'s str,
    pub args: &'s Vec<Type<'s>>,
}

/// A use of a template as contracts see it.
pub type Use = (Seq<char>, Seq<Shape>);

pub open spec fn use_of(instance: Instantiation) -> Use {
    (instance.name@, type_shapes(instance.args@))
}

pub open spec fn uses_of(items: Seq<Instantiation>) -> Seq<Use> {
    Seq::new(items.len(), |i: int| use_of(items[i]))
}

/// The uses that have been found, and those of them that no copy was made for yet.
pub ghost struct Uses {
    pub worklist: Seq<Use>,
    pub seen: Seq<Use>,
}

impl Uses {
    pub open spec fn none() -> Uses {
        Uses { worklist: seq![], seen: seq![] }
    }

    /// Whether no use is noted twice.
    pub open spec fn is_distinct(self) -> bool {
        self.seen.no_duplicates()
    }

    /// Notes a use, once.
    pub open spec fn add_use(self, name: Seq<char>, args: Seq<Shape>) -> Uses {
        if self.seen.contains((name, args)) {
            self
        } else {
            Uses { worklist: self.worklist.push((name, args)), seen: self.seen.push((name, args)) }
        }
    }

    /// Notes a use with arguments, if it is one of a template.
    pub open spec fn add_if(self, name: Seq<char>, args: Seq<ShapeAt>, set: TemplateSet) -> Uses {
        if args.len() > 0 && set.has(name) {
            self.add_use(name, bare(args))
        } else {
            self
        }
    }

    /// The uses in a type: those in its arguments come first.
    pub open spec fn in_type(self, typ: Shape, set: TemplateSet) -> Uses
        decreases typ, 0nat,
    {
        match typ {
            Shape::Ref(inner, mutable) => self.in_type(*inner, set),
            Shape::Array(inner, len) => self.in_type(*inner, set),
            Shape::Slice(inner, mutable) => self.in_type(*inner, set),
            Shape::Generic(name, args) => {
                let inner = self.in_types(args, 0, set);
                if set.has(name) {
                    inner.add_use(name, args)
                } else {
                    inner
                }
            },
            _ => self,
        }
    }

    pub open spec fn in_types(self, types: Seq<Shape>, at: nat, set: TemplateSet) -> Uses
        decreases types, (types.len() - at) as nat,
    {
        if at >= types.len() {
            self
        } else {
            self.in_type(types[at as int], set).in_types(types, at + 1, set)
        }
    }

    pub open spec fn in_optional_type(self, typ: Option<ShapeAt>, set: TemplateSet) -> Uses {
        match typ {
            Some(typ) => self.in_type(typ.shape, set),
            None => self,
        }
    }

    /// The uses in an expression.
    pub open spec fn in_expr(self, expr: ExprForm, set: TemplateSet) -> Uses
        decreases expr, 0nat,
    {
        match expr {
            ExprForm::Call { callee, args, type_args, span } => {
                let uses = match *callee {
                    ExprForm::Identifier(name, at) => self.add_if(name, type_args, set),
                    _ => self,
                };
                uses.in_expr(*callee, set).in_exprs(args, 0, set)
            },
            ExprForm::Struct { name, fields, type_args, span } => {
                self.add_if(name, type_args, set).in_inits(fields, 0, set)
            },
            ExprForm::QualifiedCall { qualifier, name, args, type_args, span } => {
                let uses = if set.has(qualifier) {
                    self.add_if(qualifier, type_args, set)
                } else {
                    self.add_if(name, type_args, set)
                };
                uses.in_exprs(args, 0, set)
            },
            ExprForm::Binary { left, operator, right, span } => {
                self.in_expr(*left, set).in_expr(*right, set)
            },
            ExprForm::Unary { operator, expr, span } => self.in_expr(*expr, set),
            ExprForm::Field { expr, field, span } => self.in_expr(*expr, set),
            ExprForm::Assignment { target, value, span } => {
                self.in_expr(*target, set).in_expr(*value, set)
            },
            _ => self,
        }
    }

    pub open spec fn in_exprs(self, items: Seq<ExprForm>, at: nat, set: TemplateSet) -> Uses
        decreases items, (items.len() - at) as nat,
    {
        if at >= items.len() {
            self
        } else {
            self.in_expr(items[at as int], set).in_exprs(items, at + 1, set)
        }
    }

    pub open spec fn in_inits(self, items: Seq<InitForm>, at: nat, set: TemplateSet) -> Uses
        decreases items, (items.len() - at) as nat,
    {
        if at >= items.len() {
            self
        } else {
            self.in_expr(items[at as int].value, set).in_inits(items, at + 1, set)
        }
    }

    pub open spec fn in_optional(self, expr: Option<ExprForm>, set: TemplateSet) -> Uses {
        match expr {
            Some(expr) => self.in_expr(expr, set),
            None => self,
        }
    }

    pub open spec fn in_arms(self, arms: Seq<ArmForm>, at: nat, set: TemplateSet) -> Uses
        decreases arms.len() - at,
    {
        if at >= arms.len() {
            self
        } else {
            self.in_expr(arms[at as int].body, set).in_arms(arms, at + 1, set)
        }
    }

    pub open spec fn in_const(self, item: ConstForm, set: TemplateSet) -> Uses {
        self.in_type(item.typ.shape, set).in_expr(item.value, set)
    }

    pub open spec fn in_block(self, block: BlockForm, set: TemplateSet) -> Uses
        decreases block, 1nat,
    {
        self.in_statements(block.statements, 0, set)
    }

    pub open spec fn in_statements(self, items: Seq<StatementForm>, at: nat, set: TemplateSet) -> Uses
        decreases items, (items.len() - at) as nat,
    {
        if at >= items.len() {
            self
        } else {
            self.in_statement(items[at as int], set).in_statements(items, at + 1, set)
        }
    }

    pub open spec fn in_if(self, statement: IfForm, set: TemplateSet) -> Uses
        decreases statement, 1nat,
    {
        let uses = self.in_expr(statement.condition, set).in_block(statement.then_branch, set);
        match statement.else_branch {
            Some(branch) => uses.in_else(*branch, set),
            None => uses,
        }
    }

    pub open spec fn in_else(self, branch: ElseForm, set: TemplateSet) -> Uses
        decreases branch, 0nat,
    {
        match branch {
            ElseForm::If(nested) => self.in_if(nested, set),
            ElseForm::Block(block) => self.in_block(block, set),
            ElseForm::Expr(expr) => self.in_expr(expr, set),
        }
    }

    /// The uses in a statement of a body.
    pub open spec fn in_statement(self, statement: StatementForm, set: TemplateSet) -> Uses
        decreases statement, 0nat,
    {
        match statement {
            StatementForm::Let(s) => self.in_optional_type(s.typ, set).in_optional(s.value, set),
            StatementForm::Return(value, span) => self.in_optional(value, set),
            StatementForm::If(s) => self.in_if(s, set),
            StatementForm::While { condition, body, span } => {
                self.in_expr(condition, set).in_block(body, set)
            },
            StatementForm::Match { scrutinee, arms, span } => {
                self.in_expr(scrutinee, set).in_arms(arms, 0, set)
            },
            StatementForm::Expr(expr, ended) => self.in_expr(expr, set),
            StatementForm::Block(block) => self.in_block(block, set),
            StatementForm::Const { docs, item } => self.in_const(item, set),
            _ => self,
        }
    }

    pub open spec fn in_params(self, params: Seq<ParamForm>, at: nat, set: TemplateSet) -> Uses
        decreases params.len() - at,
    {
        if at >= params.len() {
            self
        } else {
            self.in_type(params[at as int].typ.shape, set).in_params(params, at + 1, set)
        }
    }

    pub open spec fn in_function(self, item: FunctionForm, set: TemplateSet) -> Uses {
        self.in_params(item.params, 0, set).in_optional_type(item.return_type, set).in_block(
            item.body,
            set,
        )
    }

    pub open spec fn in_functions(self, items: Seq<FunctionForm>, at: nat, set: TemplateSet) -> Uses
        decreases items.len() - at,
    {
        if at >= items.len() {
            self
        } else {
            self.in_function(items[at as int], set).in_functions(items, at + 1, set)
        }
    }

    /// The uses in the bodies of methods.
    pub open spec fn in_bodies(self, items: Seq<FunctionForm>, at: nat, set: TemplateSet) -> Uses
        decreases items.len() - at,
    {
        if at >= items.len() {
            self
        } else {
            self.in_block(items[at as int].body, set).in_bodies(items, at + 1, set)
        }
    }

    pub open spec fn in_methods(self, items: Seq<MethodForm>, at: nat, set: TemplateSet) -> Uses
        decreases items.len() - at,
    {
        if at >= items.len() {
            self
        } else {
            let item = items[at as int];
            let uses = self.in_params(item.params, 0, set).in_optional_type(item.return_type, set);
            (match item.default {
                Some(block) => uses.in_block(block, set),
                None => uses,
            }).in_methods(items, at + 1, set)
        }
    }

    pub open spec fn in_fields(self, items: Seq<FieldForm>, at: nat, set: TemplateSet) -> Uses
        decreases items.len() - at,
    {
        if at >= items.len() {
            self
        } else {
            self.in_type(items[at as int].typ.shape, set).in_fields(items, at + 1, set)
        }
    }

    pub open spec fn in_variants(self, items: Seq<VariantForm>, at: nat, set: TemplateSet) -> Uses
        decreases items.len() - at,
    {
        if at >= items.len() {
            self
        } else {
            self.in_optional_type(items[at as int].payload, set).in_variants(items, at + 1, set)
        }
    }

    /// The uses in a statement of a module.
    pub open spec fn in_top(self, statement: TopForm, set: TemplateSet) -> Uses {
        match statement {
            TopForm::Item { docs, kind } => match kind {
                ItemForm::Fn(item) => self.in_function(item, set),
                ItemForm::Impl(item) => self.in_functions(item.methods, 0, set),
                ItemForm::Interface(item) => self.in_methods(item.methods, 0, set),
                ItemForm::Struct(item) => self.in_fields(item.fields, 0, set),
                ItemForm::Enum(item) => self.in_variants(item.variants, 0, set),
                ItemForm::Const(item) => self.in_const(item, set),
                ItemForm::Use(item) => self,
            },
            TopForm::Other(statement) => self.in_statement(statement, set),
        }
    }

    pub open spec fn in_tops(self, items: Seq<TopForm>, at: nat, set: TemplateSet) -> Uses
        decreases items.len() - at,
    {
        if at >= items.len() {
            self
        } else {
            self.in_top(items[at as int], set).in_tops(items, at + 1, set)
        }
    }
}

proof fn lemma_add_use(uses: Uses, name: Seq<char>, args: Seq<Shape>)
    requires
        uses.is_distinct(),
    ensures
        uses.add_use(name, args).is_distinct(),
{
    let after = uses.add_use(name, args);
    if !uses.seen.contains((name, args)) {
        assert forall|i: int, j: int|
            0 <= i < after.seen.len() && 0 <= j < after.seen.len() && i != j implies after.seen[i]
            != after.seen[j] by {
            if i == uses.seen.len() {
                assert(uses.seen.contains(after.seen[j]));
            } else if j == uses.seen.len() {
                assert(uses.seen.contains(after.seen[i]));
            }
        }
    }
}

proof fn lemma_in_type(uses: Uses, typ: Shape, set: TemplateSet)
    requires
        uses.is_distinct(),
    ensures
        uses.in_type(typ, set).is_distinct(),
    decreases typ, 0nat,
{
    match typ {
        Shape::Ref(inner, mutable) => lemma_in_type(uses, *inner, set),
        Shape::Array(inner, len) => lemma_in_type(uses, *inner, set),
        Shape::Slice(inner, mutable) => lemma_in_type(uses, *inner, set),
        Shape::Generic(name, args) => {
            lemma_in_types(uses, args, 0, set);
            lemma_add_use(uses.in_types(args, 0, set), name, args);
        },
        _ => {},
    }
}

proof fn lemma_in_types(uses: Uses, items: Seq<Shape>, at: nat, set: TemplateSet)
    requires
        uses.is_distinct(),
    ensures
        uses.in_types(items, at, set).is_distinct(),
    decreases items, (items.len() - at) as nat,
{
    if at < items.len() {
        lemma_in_type(uses, items[at as int], set);
        lemma_in_types(uses.in_type(items[at as int], set), items, at + 1, set);
    }
}

proof fn lemma_in_optional_type(uses: Uses, typ: Option<ShapeAt>, set: TemplateSet)
    requires
        uses.is_distinct(),
    ensures
        uses.in_optional_type(typ, set).is_distinct(),
{
    if let Some(typ) = typ {
        lemma_in_type(uses, typ.shape, set);
    }
}

proof fn lemma_in_expr(uses: Uses, expr: ExprForm, set: TemplateSet)
    requires
        uses.is_distinct(),
    ensures
        uses.in_expr(expr, set).is_distinct(),
    decreases expr, 0nat,
{
    match expr {
        ExprForm::Call { callee, args, type_args, span } => {
            let first = match *callee {
                ExprForm::Identifier(name, at) => {
                    lemma_add_use(uses, name, bare(type_args));
                    uses.add_if(name, type_args, set)
                },
                _ => uses,
            };
            lemma_in_expr(first, *callee, set);
            lemma_in_exprs(first.in_expr(*callee, set), args, 0, set);
        },
        ExprForm::Struct { name, fields, type_args, span } => {
            lemma_add_use(uses, name, bare(type_args));
            lemma_in_inits(uses.add_if(name, type_args, set), fields, 0, set);
        },
        ExprForm::QualifiedCall { qualifier, name, args, type_args, span } => {
            lemma_add_use(uses, qualifier, bare(type_args));
            lemma_add_use(uses, name, bare(type_args));
            let first = if set.has(qualifier) {
                uses.add_if(qualifier, type_args, set)
            } else {
                uses.add_if(name, type_args, set)
            };
            lemma_in_exprs(first, args, 0, set);
        },
        ExprForm::Binary { left, operator, right, span } => {
            lemma_in_expr(uses, *left, set);
            lemma_in_expr(uses.in_expr(*left, set), *right, set);
        },
        ExprForm::Unary { operator, expr, span } => lemma_in_expr(uses, *expr, set),
        ExprForm::Field { expr, field, span } => lemma_in_expr(uses, *expr, set),
        ExprForm::Assignment { target, value, span } => {
            lemma_in_expr(uses, *target, set);
            lemma_in_expr(uses.in_expr(*target, set), *value, set);
        },
        _ => {},
    }
}

proof fn lemma_in_exprs(uses: Uses, items: Seq<ExprForm>, at: nat, set: TemplateSet)
    requires
        uses.is_distinct(),
    ensures
        uses.in_exprs(items, at, set).is_distinct(),
    decreases items, (items.len() - at) as nat,
{
    if at < items.len() {
        lemma_in_expr(uses, items[at as int], set);
        lemma_in_exprs(uses.in_expr(items[at as int], set), items, at + 1, set);
    }
}

proof fn lemma_in_inits(uses: Uses, items: Seq<InitForm>, at: nat, set: TemplateSet)
    requires
        uses.is_distinct(),
    ensures
        uses.in_inits(items, at, set).is_distinct(),
    decreases items, (items.len() - at) as nat,
{
    if at < items.len() {
        lemma_in_expr(uses, items[at as int].value, set);
        lemma_in_inits(uses.in_expr(items[at as int].value, set), items, at + 1, set);
    }
}

proof fn lemma_in_optional(uses: Uses, expr: Option<ExprForm>, set: TemplateSet)
    requires
        uses.is_distinct(),
    ensures
        uses.in_optional(expr, set).is_distinct(),
{
    if let Some(expr) = expr {
        lemma_in_expr(uses, expr, set);
    }
}

proof fn lemma_in_arms(uses: Uses, items: Seq<ArmForm>, at: nat, set: TemplateSet)
    requires
        uses.is_distinct(),
    ensures
        uses.in_arms(items, at, set).is_distinct(),
    decreases items.len() - at,
{
    if at < items.len() {
        lemma_in_expr(uses, items[at as int].body, set);
        lemma_in_arms(uses.in_expr(items[at as int].body, set), items, at + 1, set);
    }
}

proof fn lemma_in_const(uses: Uses, item: ConstForm, set: TemplateSet)
    requires
        uses.is_distinct(),
    ensures
        uses.in_const(item, set).is_distinct(),
{
    lemma_in_type(uses, item.typ.shape, set);
    lemma_in_expr(uses.in_type(item.typ.shape, set), item.value, set);
}

proof fn lemma_in_block(uses: Uses, block: BlockForm, set: TemplateSet)
    requires
        uses.is_distinct(),
    ensures
        uses.in_block(block, set).is_distinct(),
    decreases block, 1nat,
{
    lemma_in_statements(uses, block.statements, 0, set);
}

proof fn lemma_in_statements(uses: Uses, items: Seq<StatementForm>, at: nat, set: TemplateSet)
    requires
        uses.is_distinct(),
    ensures
        uses.in_statements(items, at, set).is_distinct(),
    decreases items, (items.len() - at) as nat,
{
    if at < items.len() {
        lemma_in_statement(uses, items[at as int], set);
        lemma_in_statements(uses.in_statement(items[at as int], set), items, at + 1, set);
    }
}

proof fn lemma_in_if(uses: Uses, statement: IfForm, set: TemplateSet)
    requires
        uses.is_distinct(),
    ensures
        uses.in_if(statement, set).is_distinct(),
    decreases statement, 1nat,
{
    lemma_in_expr(uses, statement.condition, set);
    let first = uses.in_expr(statement.condition, set);
    lemma_in_block(first, statement.then_branch, set);
    if let Some(branch) = statement.else_branch {
        lemma_in_else(first.in_block(statement.then_branch, set), *branch, set);
    }
}

proof fn lemma_in_else(uses: Uses, branch: ElseForm, set: TemplateSet)
    requires
        uses.is_distinct(),
    ensures
        uses.in_else(branch, set).is_distinct(),
    decreases branch, 0nat,
{
    match branch {
        ElseForm::If(nested) => lemma_in_if(uses, nested, set),
        ElseForm::Block(block) => lemma_in_block(uses, block, set),
        ElseForm::Expr(expr) => lemma_in_expr(uses, expr, set),
    }
}

proof fn lemma_in_statement(uses: Uses, statement: StatementForm, set: TemplateSet)
    requires
        uses.is_distinct(),
    ensures
        uses.in_statement(statement, set).is_distinct(),
    decreases statement, 0nat,
{
    match statement {
        StatementForm::Let(s) => {
            lemma_in_optional_type(uses, s.typ, set);
            lemma_in_optional(uses.in_optional_type(s.typ, set), s.value, set);
        },
        StatementForm::Return(value, span) => lemma_in_optional(uses, value, set),
        StatementForm::If(s) => lemma_in_if(uses, s, set),
        StatementForm::While { condition, body, span } => {
            lemma_in_expr(uses, condition, set);
            lemma_in_block(uses.in_expr(condition, set), body, set);
        },
        StatementForm::Match { scrutinee, arms, span } => {
            lemma_in_expr(uses, scrutinee, set);
            lemma_in_arms(uses.in_expr(scrutinee, set), arms, 0, set);
        },
        StatementForm::Expr(expr, ended) => lemma_in_expr(uses, expr, set),
        StatementForm::Block(block) => lemma_in_block(uses, block, set),
        StatementForm::Const { docs, item } => lemma_in_const(uses, item, set),
        _ => {},
    }
}

proof fn lemma_in_params(uses: Uses, items: Seq<ParamForm>, at: nat, set: TemplateSet)
    requires
        uses.is_distinct(),
    ensures
        uses.in_params(items, at, set).is_distinct(),
    decreases items.len() - at,
{
    if at < items.len() {
        lemma_in_type(uses, items[at as int].typ.shape, set);
        lemma_in_params(uses.in_type(items[at as int].typ.shape, set), items, at + 1, set);
    }
}

proof fn lemma_in_function(uses: Uses, item: FunctionForm, set: TemplateSet)
    requires
        uses.is_distinct(),
    ensures
        uses.in_function(item, set).is_distinct(),
{
    lemma_in_params(uses, item.params, 0, set);
    let first = uses.in_params(item.params, 0, set);
    lemma_in_optional_type(first, item.return_type, set);
    lemma_in_block(first.in_optional_type(item.return_type, set), item.body, set);
}

proof fn lemma_in_functions(uses: Uses, items: Seq<FunctionForm>, at: nat, set: TemplateSet)
    requires
        uses.is_distinct(),
    ensures
        uses.in_functions(items, at, set).is_distinct(),
    decreases items.len() - at,
{
    if at < items.len() {
        lemma_in_function(uses, items[at as int], set);
        lemma_in_functions(uses.in_function(items[at as int], set), items, at + 1, set);
    }
}

proof fn lemma_in_bodies(uses: Uses, items: Seq<FunctionForm>, at: nat, set: TemplateSet)
    requires
        uses.is_distinct(),
    ensures
        uses.in_bodies(items, at, set).is_distinct(),
    decreases items.len() - at,
{
    if at < items.len() {
        lemma_in_block(uses, items[at as int].body, set);
        lemma_in_bodies(uses.in_block(items[at as int].body, set), items, at + 1, set);
    }
}

proof fn lemma_in_methods(uses: Uses, items: Seq<MethodForm>, at: nat, set: TemplateSet)
    requires
        uses.is_distinct(),
    ensures
        uses.in_methods(items, at, set).is_distinct(),
    decreases items.len() - at,
{
    if at < items.len() {
        let item = items[at as int];
        lemma_in_params(uses, item.params, 0, set);
        let first = uses.in_params(item.params, 0, set);
        lemma_in_optional_type(first, item.return_type, set);
        let second = first.in_optional_type(item.return_type, set);
        let third = match item.default {
            Some(block) => {
                lemma_in_block(second, block, set);
                second.in_block(block, set)
            },
            None => second,
        };
        lemma_in_methods(third, items, at + 1, set);
    }
}

proof fn lemma_in_fields(uses: Uses, items: Seq<FieldForm>, at: nat, set: TemplateSet)
    requires
        uses.is_distinct(),
    ensures
        uses.in_fields(items, at, set).is_distinct(),
    decreases items.len() - at,
{
    if at < items.len() {
        lemma_in_type(uses, items[at as int].typ.shape, set);
        lemma_in_fields(uses.in_type(items[at as int].typ.shape, set), items, at + 1, set);
    }
}

proof fn lemma_in_variants(uses: Uses, items: Seq<VariantForm>, at: nat, set: TemplateSet)
    requires
        uses.is_distinct(),
    ensures
        uses.in_variants(items, at, set).is_distinct(),
    decreases items.len() - at,
{
    if at < items.len() {
        lemma_in_optional_type(uses, items[at as int].payload, set);
        lemma_in_variants(uses.in_optional_type(items[at as int].payload, set), items, at + 1, set);
    }
}

proof fn lemma_in_top(uses: Uses, statement: TopForm, set: TemplateSet)
    requires
        uses.is_distinct(),
    ensures
        uses.in_top(statement, set).is_distinct(),
{
    match statement {
        TopForm::Item { docs, kind } => match kind {
            ItemForm::Fn(item) => lemma_in_function(uses, item, set),
            ItemForm::Impl(item) => lemma_in_functions(uses, item.methods, 0, set),
            ItemForm::Interface(item) => lemma_in_methods(uses, item.methods, 0, set),
            ItemForm::Struct(item) => lemma_in_fields(uses, item.fields, 0, set),
            ItemForm::Enum(item) => lemma_in_variants(uses, item.variants, 0, set),
            ItemForm::Const(item) => lemma_in_const(uses, item, set),
            ItemForm::Use(item) => {},
        },
        TopForm::Other(statement) => lemma_in_statement(uses, statement, set),
    }
}

/// A use that is found many times over is noted once, so it gets one copy.
pub proof fn lemma_uses_once(uses: Uses, items: Seq<TopForm>, at: nat, set: TemplateSet)
    requires
        uses.is_distinct(),
    ensures
        uses.in_tops(items, at, set).is_distinct(),
    decreases items.len() - at,
{
    if at < items.len() {
        lemma_in_top(uses, items[at as int], set);
        lemma_uses_once(uses.in_top(items[at as int], set), items, at + 1, set);
    }
}

/// The uses in the bodies of a copy are noted once, too.
pub proof fn lemma_uses_once_in_copies(
    uses: Uses,
    methods: Seq<FunctionForm>,
    body: BlockForm,
    set: TemplateSet,
)
    requires
        uses.is_distinct(),
    ensures
        uses.in_bodies(methods, 0, set).is_distinct(),
        uses.in_block(body, set).is_distinct(),
{
    lemma_in_bodies(uses, methods, 0, set);
    lemma_in_block(uses, body, set);
}

/// What collection looks at.
#[derive(Clone, Copy)]
pub struct Sources<'a, 's> {
    pub templates: &'a Templates<'s>,
    pub arena: &'s Arena,
}

/// Collects the uses of templates.
pub struct Collector<'s> {
    pub worklist: Vec<Instantiation<'s>>,
    pub seen: Vec<Instantiation<'s>>,
}

impl<'s> View for Collector<'s> {
    type V = Uses;

    open spec fn view(&self) -> Uses {
        Uses { worklist: uses_of(self.worklist@), seen: uses_of(self.seen@) }
    }
}

impl<'s> Collector<'s> {
    pub fn new() -> (collector: Self)
        ensures
            collector@ == Uses::none(),
    {
        let collector = Collector { worklist: Vec::new(), seen: Vec::new() };
        assert(collector@.worklist =~= seq![]);
        assert(collector@.seen =~= seq![]);
        collector
    }

    fn has_seen(&self, instance: &Instantiation<'s>) -> (seen: bool)
        ensures
            seen == self@.seen.contains(use_of(*instance)),
    {
        let ghost all = uses_of(self.seen@);
        let mut i: usize = 0;
        while i < self.seen.len()
            invariant
                i <= self.seen@.len(),
                all == uses_of(self.seen@),
                forall|j: int| 0 <= j < i ==> #[trigger] all[j] != use_of(*instance),
            decreases self.seen@.len() - i,
        {
            assert(all[i as int] == use_of(self.seen@[i as int]));
            if text_eq(self.seen[i].name, instance.name) && same_types(
                self.seen[i].args,
                instance.args,
            ) {
                assert(all[i as int] == use_of(*instance));
                return true;
            }
            i += 1;
        }
        false
    }

    /// Notes a use, once.
    fn push_instantiation(&mut self, name: &'s str, args: &'s Vec<Type<'s>>)
        ensures
            final(self)@ == old(self)@.add_use(name@, type_shapes(args@)),
    {
        let instance = Instantiation { name, args };
        if !self.has_seen(&instance) {
            self.seen.push(instance);
            self.worklist.push(instance);
            assert(self@.seen =~= old(self)@.seen.push(use_of(instance)));
            assert(self@.worklist =~= old(self)@.worklist.push(use_of(instance)));
        }
    }

    /// Notes a use with arguments, if it is one of a template.
    fn add_if(&mut self, name: &'s str, args: &Vec<Spanned<Type<'s>>>, sources: Sources<'_, 's>)
        ensures
            final(self)@ == old(self)@.add_if(name@, shapes_at(args@), sources.templates@),
    {
        if args.len() > 0 && sources.templates.has(name) {
            proof {
                lemma_bare(args@);
            }
            self.push_instantiation(name, sources.arena.place(get_args(args)));
        }
    }

    /// Collects the uses in a type.
    pub fn collect_type(&mut self, typ: &Type<'s>, sources: Sources<'_, 's>)
        ensures
            final(self)@ == old(self)@.in_type(shape(*typ), sources.templates@),
        decreases typ, 0nat,
    {
        match *typ {
            Type::Ref(inner, _) => self.collect_type(inner, sources),
            Type::Array(inner, _) => self.collect_type(inner, sources),
            Type::Slice(inner, _) => self.collect_type(inner, sources),
            Type::Generic(name, args) => {
                self.collect_args(args, sources);
                if sources.templates.has(name) {
                    self.push_instantiation(name, sources.arena.place(get_args(args)));
                }
            },
            _ => {},
        }
    }

    fn collect_args(&mut self, args: &Vec<Spanned<Type<'s>>>, sources: Sources<'_, 's>)
        ensures
            final(self)@ == old(self)@.in_types(arg_shapes(args@), 0, sources.templates@),
        decreases args@, 1nat,
    {
        let ghost shapes = arg_shapes(args@);
        let ghost set = sources.templates@;
        let mut i: usize = 0;
        while i < args.len()
            invariant
                i <= args@.len(),
                shapes == arg_shapes(args@),
                set == sources.templates@,
                self@.in_types(shapes, i as nat, set) == old(self)@.in_types(shapes, 0, set),
            decreases args@.len() - i,
        {
            assert(decreases_to!(args@ => args@[i as int]));
            assert(shapes[i as int] == shape(args@[i as int].value));
            self.collect_type(&args[i].value, sources);
            i += 1;
        }
    }

    fn collect_optional_type(&mut self, typ: &Option<Spanned<Type<'s>>>, sources: Sources<'_, 's>)
        ensures
            final(self)@ == old(self)@.in_optional_type(optional_shape(*typ), sources.templates@),
    {
        if let Some(typ) = typ {
            self.collect_type(&typ.value, sources);
        }
    }

    /// Collects the uses in an expression.
    pub fn collect_expr(&mut self, expr: &Expression<'s>, sources: Sources<'_, 's>)
        ensures
            final(self)@ == old(self)@.in_expr(expr_form(*expr), sources.templates@),
        decreases expr, 0nat,
    {
        match *expr {
            Expression::Call(e) => {
                assert(expr_form(*e.callee) is Identifier == *e.callee is Identifier);
                if let Expression::Identifier(name, _) = *e.callee {
                    self.add_if(name, e.type_args, sources);
                }
                self.collect_expr(e.callee, sources);
                self.collect_exprs(e.args, sources);
            },
            Expression::Struct(e) => {
                self.add_if(e.name, e.type_args, sources);
                self.collect_inits(e.fields, sources);
            },
            Expression::QualifiedCall(e) => {
                if sources.templates.has(e.qualifier) {
                    self.add_if(e.qualifier, e.type_args, sources);
                } else {
                    self.add_if(e.name, e.type_args, sources);
                }
                self.collect_exprs(e.args, sources);
            },
            Expression::Binary(e) => {
                self.collect_expr(e.left, sources);
                self.collect_expr(e.right, sources);
            },
            Expression::Unary(e) => self.collect_expr(e.expr, sources),
            Expression::Field(e) => self.collect_expr(e.expr, sources),
            Expression::Assignment(e) => {
                self.collect_expr(e.target, sources);
                self.collect_expr(e.value, sources);
            },
            _ => {},
        }
    }

    fn collect_exprs(&mut self, items: &Vec<Expression<'s>>, sources: Sources<'_, 's>)
        ensures
            final(self)@ == old(self)@.in_exprs(expr_forms(items@), 0, sources.templates@),
        decreases items@, 1nat,
    {
        let ghost forms = expr_forms(items@);
        let ghost set = sources.templates@;
        let mut i: usize = 0;
        while i < items.len()
            invariant
                i <= items@.len(),
                forms == expr_forms(items@),
                set == sources.templates@,
                self@.in_exprs(forms, i as nat, set) == old(self)@.in_exprs(forms, 0, set),
            decreases items@.len() - i,
        {
            assert(decreases_to!(items@ => items@[i as int]));
            assert(forms[i as int] == expr_form(items@[i as int]));
            self.collect_expr(&items[i], sources);
            i += 1;
        }
    }

    fn collect_inits(&mut self, items: &Vec<FieldInit<'s>>, sources: Sources<'_, 's>)
        ensures
            final(self)@ == old(self)@.in_inits(init_forms(items@), 0, sources.templates@),
        decreases items@, 1nat,
    {
        let ghost forms = init_forms(items@);
        let ghost set = sources.templates@;
        let mut i: usize = 0;
        while i < items.len()
            invariant
                i <= items@.len(),
                forms == init_forms(items@),
                set == sources.templates@,
                self@.in_inits(forms, i as nat, set) == old(self)@.in_inits(forms, 0, set),
            decreases items@.len() - i,
        {
            assert(decreases_to!(items@ => items@[i as int]));
            assert(forms[i as int].value == expr_form(items@[i as int].value));
            self.collect_expr(&items[i].value, sources);
            i += 1;
        }
    }

    fn collect_value(&mut self, expr: &Option<Expression<'s>>, sources: Sources<'_, 's>)
        ensures
            final(self)@ == old(self)@.in_optional(optional_expr(*expr), sources.templates@),
    {
        if let Some(expr) = expr {
            self.collect_expr(expr, sources);
        }
    }

    fn collect_arms(&mut self, arms: &Vec<Arm<'s>>, sources: Sources<'_, 's>)
        ensures
            final(self)@ == old(self)@.in_arms(arm_forms(arms@), 0, sources.templates@),
    {
        let ghost forms = arm_forms(arms@);
        let ghost set = sources.templates@;
        let mut i: usize = 0;
        while i < arms.len()
            invariant
                i <= arms@.len(),
                forms == arm_forms(arms@),
                set == sources.templates@,
                self@.in_arms(forms, i as nat, set) == old(self)@.in_arms(forms, 0, set),
            decreases arms@.len() - i,
        {
            assert(forms[i as int] == arm_form(arms@[i as int]));
            self.collect_expr(&arms[i].body, sources);
            i += 1;
        }
    }

    fn collect_const(&mut self, item: &Const<'s>, sources: Sources<'_, 's>)
        ensures
            final(self)@ == old(self)@.in_const(const_form(*item), sources.templates@),
    {
        self.collect_type(&item.typ.value, sources);
        self.collect_expr(&item.value, sources);
    }

    /// Collects the uses in a block.
    pub fn collect_block(&mut self, block: &Block<'s>, sources: Sources<'_, 's>)
        ensures
            final(self)@ == old(self)@.in_block(block_form(*block), sources.templates@),
        decreases block, 1nat,
    {
        self.collect_statements(block.statements, sources);
    }

    fn collect_statements(&mut self, items: &Vec<Statement<'s>>, sources: Sources<'_, 's>)
        ensures
            final(self)@ == old(self)@.in_statements(
                statement_forms(items@),
                0,
                sources.templates@,
            ),
        decreases items@, 2nat,
    {
        let ghost forms = statement_forms(items@);
        let ghost set = sources.templates@;
        let mut i: usize = 0;
        while i < items.len()
            invariant
                i <= items@.len(),
                forms == statement_forms(items@),
                set == sources.templates@,
                self@.in_statements(forms, i as nat, set) == old(self)@.in_statements(
                    forms,
                    0,
                    set,
                ),
            decreases items@.len() - i,
        {
            assert(decreases_to!(items@ => items@[i as int]));
            assert(forms[i as int] == statement_form(items@[i as int]));
            self.collect_body_stmt(&items[i], sources);
            i += 1;
        }
    }

    fn collect_if(&mut self, statement: &If<'s>, sources: Sources<'_, 's>)
        ensures
            final(self)@ == old(self)@.in_if(if_form(*statement), sources.templates@),
        decreases statement, 1nat,
    {
        self.collect_expr(&statement.condition, sources);
        self.collect_block(&statement.then_branch, sources);
        if let Some(branch) = statement.else_branch {
            self.collect_else(branch, sources);
        }
    }

    fn collect_else(&mut self, branch: &Else<'s>, sources: Sources<'_, 's>)
        ensures
            final(self)@ == old(self)@.in_else(else_form(*branch), sources.templates@),
        decreases branch, 0nat,
    {
        match branch {
            Else::If(nested) => self.collect_if(nested, sources),
            Else::Block(block) => self.collect_block(block, sources),
            Else::Expr(expr) => self.collect_expr(expr, sources),
        }
    }

    /// Collects the uses in a statement of a body.
    fn collect_body_stmt(&mut self, statement: &Statement<'s>, sources: Sources<'_, 's>)
        ensures
            final(self)@ == old(self)@.in_statement(statement_form(*statement), sources.templates@),
        decreases statement, 0nat,
    {
        match *statement {
            Statement::Let(s) => {
                self.collect_optional_type(&s.typ, sources);
                self.collect_value(&s.value, sources);
            },
            Statement::Return(s) => self.collect_value(&s.value, sources),
            Statement::If(s) => self.collect_if(&s, sources),
            Statement::While(s) => {
                self.collect_expr(&s.condition, sources);
                self.collect_block(&s.body, sources);
            },
            Statement::Match(s) => {
                self.collect_expr(&s.scrutinee, sources);
                self.collect_arms(s.arms, sources);
            },
            Statement::Expr(expr, _) => self.collect_expr(&expr, sources),
            Statement::Block(block) => self.collect_block(&block, sources),
            Statement::Item(item) => match item.kind {
                ItemKind::Const(constant) => self.collect_const(constant, sources),
                _ => {},
            },
            _ => {},
        }
    }

    fn collect_params(&mut self, params: &Vec<Parameter<'s>>, sources: Sources<'_, 's>)
        ensures
            final(self)@ == old(self)@.in_params(param_forms(params@), 0, sources.templates@),
    {
        let ghost forms = param_forms(params@);
        let ghost set = sources.templates@;
        let mut i: usize = 0;
        while i < params.len()
            invariant
                i <= params@.len(),
                forms == param_forms(params@),
                set == sources.templates@,
                self@.in_params(forms, i as nat, set) == old(self)@.in_params(forms, 0, set),
            decreases params@.len() - i,
        {
            assert(forms[i as int].typ.shape == shape(params@[i as int].typ.value));
            self.collect_type(&params[i].typ.value, sources);
            i += 1;
        }
    }

    fn collect_function(&mut self, item: &Function<'s>, sources: Sources<'_, 's>)
        ensures
            final(self)@ == old(self)@.in_function(function_form(*item), sources.templates@),
    {
        self.collect_params(item.params, sources);
        self.collect_optional_type(&item.return_type, sources);
        self.collect_block(&item.body, sources);
    }

    /// Collects the uses in the bodies of an `impl` block's methods.
    pub fn collect_impl(&mut self, item: &Impl<'s>, sources: Sources<'_, 's>)
        ensures
            final(self)@ == old(self)@.in_bodies(impl_form(*item).methods, 0, sources.templates@),
    {
        let ghost forms = function_forms(item.methods@);
        let ghost set = sources.templates@;
        let mut i: usize = 0;
        while i < item.methods.len()
            invariant
                i <= item.methods@.len(),
                forms == function_forms(item.methods@),
                set == sources.templates@,
                self@.in_bodies(forms, i as nat, set) == old(self)@.in_bodies(forms, 0, set),
            decreases item.methods@.len() - i,
        {
            assert(forms[i as int] == function_form(*item.methods@[i as int]));
            self.collect_block(&item.methods[i].body, sources);
            i += 1;
        }
    }

    fn collect_functions(&mut self, item: &Impl<'s>, sources: Sources<'_, 's>)
        ensures
            final(self)@ == old(self)@.in_functions(
                impl_form(*item).methods,
                0,
                sources.templates@,
            ),
    {
        let ghost forms = function_forms(item.methods@);
        let ghost set = sources.templates@;
        let mut i: usize = 0;
        while i < item.methods.len()
            invariant
                i <= item.methods@.len(),
                forms == function_forms(item.methods@),
                set == sources.templates@,
                self@.in_functions(forms, i as nat, set) == old(self)@.in_functions(forms, 0, set),
            decreases item.methods@.len() - i,
        {
            assert(forms[i as int] == function_form(*item.methods@[i as int]));
            self.collect_function(item.methods[i], sources);
            i += 1;
        }
    }

    /// Collects the uses in an interface's signatures and default bodies.
    fn collect_interface(&mut self, item: &Interface<'s>, sources: Sources<'_, 's>)
        ensures
            final(self)@ == old(self)@.in_methods(
                interface_form(*item).methods,
                0,
                sources.templates@,
            ),
    {
        let ghost forms = method_forms(item.methods@);
        let ghost set = sources.templates@;
        let mut i: usize = 0;
        while i < item.methods.len()
            invariant
                i <= item.methods@.len(),
                forms == method_forms(item.methods@),
                set == sources.templates@,
                self@.in_methods(forms, i as nat, set) == old(self)@.in_methods(forms, 0, set),
            decreases item.methods@.len() - i,
        {
            let method = item.methods[i];
            self.collect_params(method.params, sources);
            self.collect_optional_type(&method.return_type, sources);
            if let Some(block) = &method.default {
                self.collect_block(block, sources);
            }
            i += 1;
        }
    }

    fn collect_struct(&mut self, item: &Struct<'s>, sources: Sources<'_, 's>)
        ensures
            final(self)@ == old(self)@.in_fields(struct_form(*item).fields, 0, sources.templates@),
    {
        let ghost forms = field_forms(item.fields@);
        let ghost set = sources.templates@;
        let mut i: usize = 0;
        while i < item.fields.len()
            invariant
                i <= item.fields@.len(),
                forms == field_forms(item.fields@),
                set == sources.templates@,
                self@.in_fields(forms, i as nat, set) == old(self)@.in_fields(forms, 0, set),
            decreases item.fields@.len() - i,
        {
            self.collect_type(&item.fields[i].typ.value, sources);
            i += 1;
        }
    }

    fn collect_enum(&mut self, item: &Enum<'s>, sources: Sources<'_, 's>)
        ensures
            final(self)@ == old(self)@.in_variants(enum_form(*item).variants, 0, sources.templates@),
    {
        let ghost forms = variant_forms(item.variants@);
        let ghost set = sources.templates@;
        let mut i: usize = 0;
        while i < item.variants.len()
            invariant
                i <= item.variants@.len(),
                forms == variant_forms(item.variants@),
                set == sources.templates@,
                self@.in_variants(forms, i as nat, set) == old(self)@.in_variants(forms, 0, set),
            decreases item.variants@.len() - i,
        {
            self.collect_optional_type(&item.variants[i].payload, sources);
            i += 1;
        }
    }

    /// Collects the uses in a statement of a module.
    pub fn collect_stmt(&mut self, statement: &Statement<'s>, sources: Sources<'_, 's>)
        ensures
            final(self)@ == old(self)@.in_top(top_form(*statement), sources.templates@),
    {
        match *statement {
            Statement::Item(item) => match item.kind {
                ItemKind::Fn(item) => self.collect_function(item, sources),
                ItemKind::Impl(item) => self.collect_functions(item, sources),
                ItemKind::Interface(item) => self.collect_interface(item, sources),
                ItemKind::Struct(item) => self.collect_struct(item, sources),
                ItemKind::Enum(item) => self.collect_enum(item, sources),
                ItemKind::Const(item) => self.collect_const(item, sources),
                ItemKind::Use(_) => {},
            },
            _ => self.collect_body_stmt(statement, sources),
        }
    }
}

/// The types of annotations, without where they stand.
fn get_args<'s>(args: &Vec<Spanned<Type<'s>>>) -> (types: Vec<Type<'s>>)
    ensures
        type_shapes(types@) == arg_shapes(args@),
{
    let mut types: Vec<Type<'s>> = Vec::new();
    let mut i: usize = 0;
    while i < args.len()
        invariant
            i <= args@.len(),
            types@.len() == i,
            forall|j: int| 0 <= j < i ==> #[trigger] types@[j] == args@[j].value,
        decreases args@.len() - i,
    {
        types.push(args[i].value);
        i += 1;
    }
    assert(type_shapes(types@) =~= arg_shapes(args@));
    types
}

} // verus!
