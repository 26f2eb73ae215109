//! Concrete copies of generic items.

use crate::arena::Arena;
use crate::ast::{
    Arm, Assignment, Binary, Block, Call, Cast, Else, Enum, EnumVariant, Expression, Field,
    FieldAccess, FieldInit, Function, If, Impl, Interface, InterfaceMethod, Item, ItemKind, Let,
    Match, Parameter, QualifiedCall, Return, Spanned, Statement, Struct, StructLiteral, Type, Unary,
    While,
};
use crate::hir::monomorph::form::{
    arm_form, arm_forms, block_form, else_form, enum_form, expr_form, expr_forms, field_form,
    field_forms, function_form, function_forms, if_form, impl_form, init_forms, interface_form,
    method_form, method_forms, optional_expr, param_form, param_forms, statement_form,
    statement_forms, struct_form, top_form, variant_form, variant_forms, ArmForm, BlockForm,
    ElseForm, EnumForm, ExprForm, FieldForm, FunctionForm, IfForm, ImplForm, InitForm,
    InterfaceForm, ItemForm, LetForm, MethodForm, ParamForm, StatementForm, StructForm, TopForm,
    VariantForm,
};
use crate::hir::monomorph::shape::{
    arg_shapes, bare, copy_name, mangle, optional_shape, shape, shape_at, shapes_at, Shape, ShapeAt,
};
use crate::hir::monomorph::subst::{
    env_view, subst_all_at, subst_at, subst_optional_at, subst_optional_type, subst_spanned_type,
    subst_type_args, Bindings, Env,
};
use crate::hir::monomorph::templates::{TemplateSet, Templates};
use vstd::prelude::*;

verus! {

/// The types of a list of annotations do not depend on where they stand.
pub proof fn lemma_bare(args: Seq<Spanned<Type>>)
    ensures
        bare(shapes_at(args)) == arg_shapes(args),
{
    assert(bare(shapes_at(args)) =~= arg_shapes(args));
}

/// The name of the copy that a use with the given arguments refers to.
pub open spec fn used_name(name: Seq<char>, args: Seq<ShapeAt>) -> Seq<char> {
    if args.len() > 0 {
        copy_name(name, bare(args))
    } else {
        name
    }
}

/// An expression with its type parameters replaced, and uses of templates replaced by uses of
/// their copies. Array literals, repeats, indices and type intrinsics stay as they are.
pub open spec fn subst_expr_form(expr: ExprForm, env: Bindings, set: TemplateSet) -> ExprForm
    decreases expr, 0nat,
{
    match expr {
        ExprForm::Unary { operator, expr, span } => ExprForm::Unary {
            operator,
            expr: Box::new(subst_expr_form(*expr, env, set)),
            span,
        },
        ExprForm::Binary { left, operator, right, span } => ExprForm::Binary {
            left: Box::new(subst_expr_form(*left, env, set)),
            operator,
            right: Box::new(subst_expr_form(*right, env, set)),
            span,
        },
        ExprForm::Assignment { target, value, span } => ExprForm::Assignment {
            target: Box::new(subst_expr_form(*target, env, set)),
            value: Box::new(subst_expr_form(*value, env, set)),
            span,
        },
        ExprForm::Cast { expr, target_type, span } => ExprForm::Cast {
            expr: Box::new(subst_expr_form(*expr, env, set)),
            target_type: subst_at(target_type, env),
            span,
        },
        ExprForm::Struct { name, fields, type_args, span } => ExprForm::Struct {
            name: used_name(name, subst_all_at(type_args, env)),
            fields: subst_init_forms(fields, env, set),
            type_args: seq![],
            span,
        },
        ExprForm::Field { expr, field, span } => ExprForm::Field {
            expr: Box::new(subst_expr_form(*expr, env, set)),
            field,
            span,
        },
        ExprForm::Call { callee, args, type_args, span } => ExprForm::Call {
            callee: match *callee {
                ExprForm::Identifier(name, at) => Box::new(
                    ExprForm::Identifier(used_name(name, subst_all_at(type_args, env)), at),
                ),
                _ => Box::new(subst_expr_form(*callee, env, set)),
            },
            args: subst_expr_forms(args, env, set),
            type_args: seq![],
            span,
        },
        ExprForm::QualifiedCall { qualifier, name, args, type_args, span } => {
            let used = subst_all_at(type_args, env);
            ExprForm::QualifiedCall {
                qualifier: if set.has(qualifier) {
                    used_name(qualifier, used)
                } else {
                    qualifier
                },
                name: if set.has(qualifier) {
                    name
                } else {
                    used_name(name, used)
                },
                args: subst_expr_forms(args, env, set),
                type_args: seq![],
                span,
            }
        },
        _ => expr,
    }
}

pub open spec fn subst_expr_forms(items: Seq<ExprForm>, env: Bindings, set: TemplateSet) -> Seq<
    ExprForm,
>
    decreases items, 1nat,
{
    Seq::new(
        items.len(),
        |i: int|
            if 0 <= i < items.len() {
                subst_expr_form(items[i], env, set)
            } else {
                arbitrary()
            },
    )
}

pub open spec fn subst_init_forms(items: Seq<InitForm>, env: Bindings, set: TemplateSet) -> Seq<
    InitForm,
>
    decreases items, 1nat,
{
    Seq::new(
        items.len(),
        |i: int|
            if 0 <= i < items.len() {
                InitForm { value: subst_expr_form(items[i].value, env, set), ..items[i] }
            } else {
                arbitrary()
            },
    )
}

pub open spec fn subst_optional_form(expr: Option<ExprForm>, env: Bindings, set: TemplateSet) -> Option<
    ExprForm,
> {
    match expr {
        Some(expr) => Some(subst_expr_form(expr, env, set)),
        None => None,
    }
}

/// An arm with its body substituted: its pattern and its guard stay as they are.
pub open spec fn subst_arm_form<'s>(arm: ArmForm<'s>, env: Bindings, set: TemplateSet) -> ArmForm<
    's,
> {
    ArmForm { body: subst_expr_form(arm.body, env, set), ..arm }
}

pub open spec fn subst_arm_forms<'s>(arms: Seq<ArmForm<'s>>, env: Bindings, set: TemplateSet) -> Seq<
    ArmForm<'s>,
> {
    Seq::new(arms.len(), |i: int| subst_arm_form(arms[i], env, set))
}

pub open spec fn subst_block_form<'s>(block: BlockForm<'s>, env: Bindings, set: TemplateSet) -> BlockForm<
    's,
>
    decreases block, 1nat,
{
    BlockForm { statements: subst_statement_forms(block.statements, env, set), span: block.span }
}

pub open spec fn subst_statement_forms<'s>(
    items: Seq<StatementForm<'s>>,
    env: Bindings,
    set: TemplateSet,
) -> Seq<StatementForm<'s>>
    decreases items, 2nat,
{
    Seq::new(
        items.len(),
        |i: int|
            if 0 <= i < items.len() {
                subst_statement_form(items[i], env, set)
            } else {
                arbitrary()
            },
    )
}

pub open spec fn subst_if_form<'s>(statement: IfForm<'s>, env: Bindings, set: TemplateSet) -> IfForm<
    's,
>
    decreases statement, 1nat,
{
    IfForm {
        condition: subst_expr_form(statement.condition, env, set),
        then_branch: subst_block_form(statement.then_branch, env, set),
        else_branch: match statement.else_branch {
            Some(branch) => Some(Box::new(subst_else_form(*branch, env, set))),
            None => None,
        },
        span: statement.span,
    }
}

pub open spec fn subst_else_form<'s>(branch: ElseForm<'s>, env: Bindings, set: TemplateSet) -> ElseForm<
    's,
>
    decreases branch, 0nat,
{
    match branch {
        ElseForm::If(nested) => ElseForm::If(subst_if_form(nested, env, set)),
        ElseForm::Block(block) => ElseForm::Block(subst_block_form(block, env, set)),
        ElseForm::Expr(expr) => ElseForm::Expr(subst_expr_form(expr, env, set)),
    }
}

/// A statement of a body with its type parameters replaced. Loops over ranges and values stay as
/// they are.
pub open spec fn subst_statement_form<'s>(
    statement: StatementForm<'s>,
    env: Bindings,
    set: TemplateSet,
) -> StatementForm<'s>
    decreases statement, 0nat,
{
    match statement {
        StatementForm::Let(s) => StatementForm::Let(
            LetForm {
                typ: subst_optional_at(s.typ, env),
                value: subst_optional_form(s.value, env, set),
                ..s
            },
        ),
        StatementForm::Return(value, span) => StatementForm::Return(
            subst_optional_form(value, env, set),
            span,
        ),
        StatementForm::If(s) => StatementForm::If(subst_if_form(s, env, set)),
        StatementForm::While { condition, body, span } => StatementForm::While {
            condition: subst_expr_form(condition, env, set),
            body: subst_block_form(body, env, set),
            span,
        },
        StatementForm::Expr(expr, ended) => StatementForm::Expr(
            subst_expr_form(expr, env, set),
            ended,
        ),
        StatementForm::Block(block) => StatementForm::Block(subst_block_form(block, env, set)),
        StatementForm::Match { scrutinee, arms, span } => StatementForm::Match {
            scrutinee: subst_expr_form(scrutinee, env, set),
            arms: subst_arm_forms(arms, env, set),
            span,
        },
        _ => statement,
    }
}

pub open spec fn subst_param_forms<'s>(params: Seq<ParamForm<'s>>, env: Bindings) -> Seq<
    ParamForm<'s>,
> {
    Seq::new(params.len(), |i: int| ParamForm { typ: subst_at(params[i].typ, env), ..params[i] })
}

/// A function with its type parameters replaced.
pub open spec fn subst_function_form<'s>(
    item: FunctionForm<'s>,
    env: Bindings,
    set: TemplateSet,
) -> FunctionForm<'s> {
    FunctionForm {
        params: subst_param_forms(item.params, env),
        return_type: subst_optional_at(item.return_type, env),
        body: subst_block_form(item.body, env, set),
        ..item
    }
}

/// The copy of a function template.
pub open spec fn copy_function<'s>(
    item: FunctionForm<'s>,
    name: Seq<char>,
    env: Bindings,
    set: TemplateSet,
) -> FunctionForm<'s> {
    FunctionForm { name, generics: seq![], ..subst_function_form(item, env, set) }
}

/// The copy of a struct template.
pub open spec fn copy_struct<'s>(item: StructForm<'s>, name: Seq<char>, env: Bindings) -> StructForm<
    's,
> {
    StructForm {
        name,
        generics: seq![],
        fields: Seq::new(
            item.fields.len(),
            |i: int| FieldForm { typ: subst_at(item.fields[i].typ, env), ..item.fields[i] },
        ),
        ..item
    }
}

/// The copy of an enum template.
pub open spec fn copy_enum<'s>(item: EnumForm<'s>, name: Seq<char>, env: Bindings) -> EnumForm<'s> {
    EnumForm {
        name,
        generics: seq![],
        variants: Seq::new(
            item.variants.len(),
            |i: int|
                VariantForm {
                    payload: subst_optional_at(item.variants[i].payload, env),
                    ..item.variants[i]
                },
        ),
        ..item
    }
}

/// The methods of an `impl` template for the type of the given name.
pub open spec fn copy_methods<'s>(
    methods: Seq<FunctionForm<'s>>,
    receiver: Seq<char>,
    env: Bindings,
    set: TemplateSet,
) -> Seq<FunctionForm<'s>> {
    Seq::new(
        methods.len(),
        |i: int|
            FunctionForm {
                impl_type: Some(receiver),
                ..copy_function(methods[i], methods[i].name, env, set)
            },
    )
}

/// The copy of an `impl` template for the type of the given name.
pub open spec fn copy_impl<'s>(
    item: ImplForm<'s>,
    receiver: Seq<char>,
    env: Bindings,
    set: TemplateSet,
) -> ImplForm<'s> {
    ImplForm {
        name: receiver,
        generics: seq![],
        receiver: ShapeAt { shape: Shape::Named(receiver), span: item.receiver.span },
        interface: None,
        interface_type: None,
        methods: copy_methods(item.methods, receiver, env, set),
        ..item
    }
}

/// An interface whose signatures and default bodies refer to copies.
pub open spec fn subst_interface_form<'s>(
    item: InterfaceForm<'s>,
    env: Bindings,
    set: TemplateSet,
) -> InterfaceForm<'s> {
    InterfaceForm {
        methods: Seq::new(
            item.methods.len(),
            |i: int|
                MethodForm {
                    params: subst_param_forms(item.methods[i].params, env),
                    return_type: subst_optional_at(item.methods[i].return_type, env),
                    default: match item.methods[i].default {
                        Some(block) => Some(subst_block_form(block, env, set)),
                        None => None,
                    },
                    ..item.methods[i]
                },
        ),
        ..item
    }
}

/// A statement of a module that refers to copies.
pub open spec fn rewrite_form<'s>(statement: TopForm<'s>, set: TemplateSet) -> TopForm<'s> {
    let env: Bindings = seq![];
    match statement {
        TopForm::Item { docs, kind } => match kind {
            ItemForm::Fn(item) => TopForm::Item {
                docs,
                kind: ItemForm::Fn(subst_function_form(item, env, set)),
            },
            ItemForm::Enum(item) => TopForm::Item {
                docs,
                kind: ItemForm::Enum(copy_enum(item, item.name, env)),
            },
            ItemForm::Interface(item) => TopForm::Item {
                docs,
                kind: ItemForm::Interface(subst_interface_form(item, env, set)),
            },
            _ => statement,
        },
        TopForm::Other(statement) => TopForm::Other(subst_statement_form(statement, env, set)),
    }
}

/// What substitution needs to know.
pub struct Substitution<'a, 's> {
    pub env: &'a Env<'s>,
    pub templates: &'a Templates<'s>,
    pub arena: &'s Arena,
}

impl<'a, 's> Substitution<'a, 's> {
    pub open spec fn env_spec(self) -> Bindings {
        env_view(self.env@)
    }

    /// The arguments of a use with parameters replaced.
    fn args(&self, args: &Vec<Spanned<Type<'s>>>) -> (out: Vec<Spanned<Type<'s>>>)
        ensures
            shapes_at(out@) == subst_all_at(shapes_at(args@), self.env_spec()),
    {
        subst_type_args(args, self.env, self.arena)
    }

    /// The name of the copy that a use refers to.
    fn used(&self, name: &'s str, args: &Vec<Spanned<Type<'s>>>) -> (used: &'s str)
        ensures
            used@ == used_name(name@, shapes_at(args@)),
    {
        if args.len() > 0 {
            proof {
                lemma_bare(args@);
            }
            self.arena.place_str(mangle(name, args).as_str())
        } else {
            name
        }
    }

    fn no_args(&self) -> (args: &'s Vec<Spanned<Type<'s>>>)
        ensures
            shapes_at(args@) == Seq::<ShapeAt>::empty(),
    {
        let none: Vec<Spanned<Type<'s>>> = Vec::new();
        assert(shapes_at(none@) =~= seq![]);
        self.arena.place(none)
    }

    fn boxed(&self, expr: &Expression<'s>) -> (out: &'s Expression<'s>)
        ensures
            expr_form(*out) == subst_expr_form(
                expr_form(*expr),
                self.env_spec(),
                self.templates@,
            ),
        decreases expr, 1nat,
    {
        self.arena.place(self.subst_expr(expr))
    }

    /// Substitutes an expression.
    pub fn subst_expr(&self, expr: &Expression<'s>) -> (out: Expression<'s>)
        ensures
            expr_form(out) == subst_expr_form(expr_form(*expr), self.env_spec(), self.templates@),
        decreases expr, 0nat,
    {
        match *expr {
            Expression::Unary(e) => Expression::Unary(
                Unary { operator: e.operator, expr: self.boxed(e.expr), span: e.span },
            ),
            Expression::Binary(e) => Expression::Binary(
                Binary {
                    left: self.boxed(e.left),
                    operator: e.operator,
                    right: self.boxed(e.right),
                    span: e.span,
                },
            ),
            Expression::Assignment(e) => Expression::Assignment(
                Assignment {
                    target: self.boxed(e.target),
                    value: self.boxed(e.value),
                    span: e.span,
                },
            ),
            Expression::Cast(e) => Expression::Cast(
                Cast {
                    expr: self.boxed(e.expr),
                    target_type: subst_spanned_type(&e.target_type, self.env, self.arena),
                    span: e.span,
                },
            ),
            Expression::Struct(e) => {
                let args = self.args(e.type_args);
                Expression::Struct(
                    StructLiteral {
                        name: self.used(e.name, &args),
                        fields: self.subst_inits(e.fields),
                        type_args: self.no_args(),
                        span: e.span,
                    },
                )
            },
            Expression::Field(e) => Expression::Field(
                FieldAccess { expr: self.boxed(e.expr), field: e.field, span: e.span },
            ),
            Expression::Call(e) => {
                let args = self.args(e.type_args);
                assert(expr_form(*e.callee) is Identifier == *e.callee is Identifier);
                let callee: &'s Expression<'s> = match *e.callee {
                    Expression::Identifier(name, at) => self.arena.place(
                        Expression::Identifier(self.used(name, &args), at),
                    ),
                    _ => self.boxed(e.callee),
                };
                Expression::Call(
                    Call {
                        callee,
                        args: self.subst_exprs(e.args),
                        type_args: self.no_args(),
                        span: e.span,
                    },
                )
            },
            Expression::QualifiedCall(e) => {
                let used = self.args(e.type_args);
                let of_template = self.templates.has(e.qualifier);
                Expression::QualifiedCall(
                    QualifiedCall {
                        qualifier: if of_template {
                            self.used(e.qualifier, &used)
                        } else {
                            e.qualifier
                        },
                        name: if of_template {
                            e.name
                        } else {
                            self.used(e.name, &used)
                        },
                        args: self.subst_exprs(e.args),
                        type_args: self.no_args(),
                        span: e.span,
                    },
                )
            },
            _ => *expr,
        }
    }

    fn subst_exprs(&self, items: &Vec<Expression<'s>>) -> (out: &'s Vec<Expression<'s>>)
        ensures
            expr_forms(out@) == subst_expr_forms(
                expr_forms(items@),
                self.env_spec(),
                self.templates@,
            ),
        decreases items@, 1nat,
    {
        let ghost env = self.env_spec();
        let ghost set = self.templates@;
        let mut out: Vec<Expression<'s>> = Vec::new();
        let mut i: usize = 0;
        while i < items.len()
            invariant
                i <= items@.len(),
                out@.len() == i,
                env == self.env_spec(),
                set == self.templates@,
                forall|j: int|
                    0 <= j < i ==> expr_form(#[trigger] out@[j]) == subst_expr_form(
                        expr_form(items@[j]),
                        env,
                        set,
                    ),
            decreases items@.len() - i,
        {
            assert(decreases_to!(items@ => items@[i as int]));
            out.push(self.subst_expr(&items[i]));
            i += 1;
        }
        assert(expr_forms(out@) =~= subst_expr_forms(expr_forms(items@), env, set));
        self.arena.place(out)
    }

    fn subst_inits(&self, items: &Vec<FieldInit<'s>>) -> (out: &'s Vec<FieldInit<'s>>)
        ensures
            init_forms(out@) == subst_init_forms(
                init_forms(items@),
                self.env_spec(),
                self.templates@,
            ),
        decreases items@, 1nat,
    {
        let ghost env = self.env_spec();
        let ghost set = self.templates@;
        let mut out: Vec<FieldInit<'s>> = Vec::new();
        let mut i: usize = 0;
        while i < items.len()
            invariant
                i <= items@.len(),
                out@.len() == i,
                env == self.env_spec(),
                set == self.templates@,
                forall|j: int|
                    0 <= j < i ==> expr_form((#[trigger] out@[j]).value) == subst_expr_form(
                        expr_form(items@[j].value),
                        env,
                        set,
                    ) && out@[j].name == items@[j].name && out@[j].span == items@[j].span,
            decreases items@.len() - i,
        {
            assert(decreases_to!(items@ => items@[i as int]));
            let value = self.subst_expr(&items[i].value);
            out.push(FieldInit { name: items[i].name, value, span: items[i].span });
            i += 1;
        }
        assert(init_forms(out@) =~= subst_init_forms(init_forms(items@), env, set));
        self.arena.place(out)
    }

    fn subst_optional(&self, expr: &Option<Expression<'s>>) -> (out: Option<Expression<'s>>)
        ensures
            optional_expr(out) == subst_optional_form(
                optional_expr(*expr),
                self.env_spec(),
                self.templates@,
            ),
    {
        match expr {
            Some(expr) => Some(self.subst_expr(expr)),
            None => None,
        }
    }

    fn subst_arms(&self, arms: &Vec<Arm<'s>>) -> (out: &'s Vec<Arm<'s>>)
        ensures
            arm_forms(out@) == subst_arm_forms(
                arm_forms(arms@),
                self.env_spec(),
                self.templates@,
            ),
    {
        let ghost env = self.env_spec();
        let ghost set = self.templates@;
        let mut out: Vec<Arm<'s>> = Vec::new();
        let mut i: usize = 0;
        while i < arms.len()
            invariant
                i <= arms@.len(),
                out@.len() == i,
                env == self.env_spec(),
                set == self.templates@,
                forall|j: int|
                    0 <= j < i ==> arm_form(#[trigger] out@[j]) == subst_arm_form(
                        arm_form(arms@[j]),
                        env,
                        set,
                    ),
            decreases arms@.len() - i,
        {
            let body = self.subst_expr(&arms[i].body);
            out.push(
                Arm { pattern: arms[i].pattern, guard: arms[i].guard, body, span: arms[i].span },
            );
            i += 1;
        }
        assert(arm_forms(out@) =~= subst_arm_forms(arm_forms(arms@), env, set));
        self.arena.place(out)
    }

    /// Substitutes a block.
    pub fn subst_block(&self, block: &Block<'s>) -> (out: Block<'s>)
        ensures
            block_form(out) == subst_block_form(
                block_form(*block),
                self.env_spec(),
                self.templates@,
            ),
        decreases block, 1nat,
    {
        Block { statements: self.subst_statements(block.statements), span: block.span }
    }

    fn subst_statements(&self, items: &Vec<Statement<'s>>) -> (out: &'s Vec<Statement<'s>>)
        ensures
            statement_forms(out@) == subst_statement_forms(
                statement_forms(items@),
                self.env_spec(),
                self.templates@,
            ),
        decreases items@, 2nat,
    {
        let ghost env = self.env_spec();
        let ghost set = self.templates@;
        let mut out: Vec<Statement<'s>> = Vec::new();
        let mut i: usize = 0;
        while i < items.len()
            invariant
                i <= items@.len(),
                out@.len() == i,
                env == self.env_spec(),
                set == self.templates@,
                forall|j: int|
                    0 <= j < i ==> statement_form(#[trigger] out@[j]) == subst_statement_form(
                        statement_form(items@[j]),
                        env,
                        set,
                    ),
            decreases items@.len() - i,
        {
            assert(decreases_to!(items@ => items@[i as int]));
            out.push(self.subst_stmt(&items[i]));
            i += 1;
        }
        assert(statement_forms(out@) =~= subst_statement_forms(statement_forms(items@), env, set));
        self.arena.place(out)
    }

    fn subst_if(&self, statement: &If<'s>) -> (out: If<'s>)
        ensures
            if_form(out) == subst_if_form(if_form(*statement), self.env_spec(), self.templates@),
        decreases statement, 1nat,
    {
        let else_branch: Option<&'s Else<'s>> = match statement.else_branch {
            Some(branch) => Some(self.arena.place(self.subst_else(branch))),
            None => None,
        };
        If {
            condition: self.subst_expr(&statement.condition),
            then_branch: self.subst_block(&statement.then_branch),
            else_branch,
            span: statement.span,
        }
    }

    fn subst_else(&self, branch: &Else<'s>) -> (out: Else<'s>)
        ensures
            else_form(out) == subst_else_form(else_form(*branch), self.env_spec(), self.templates@),
        decreases branch, 0nat,
    {
        match *branch {
            Else::If(nested) => Else::If(self.subst_if(&nested)),
            Else::Block(block) => Else::Block(self.subst_block(&block)),
            Else::Expr(expr) => Else::Expr(self.subst_expr(&expr)),
        }
    }

    /// Substitutes a statement of a body.
    pub fn subst_stmt(&self, statement: &Statement<'s>) -> (out: Statement<'s>)
        ensures
            statement_form(out) == subst_statement_form(
                statement_form(*statement),
                self.env_spec(),
                self.templates@,
            ),
            out is Item == *statement is Item,
        decreases statement, 0nat,
    {
        match *statement {
            Statement::Let(s) => Statement::Let(
                Let {
                    name: s.name,
                    name_span: s.name_span,
                    typ: subst_optional_type(&s.typ, self.env, self.arena),
                    value: self.subst_optional(&s.value),
                    mutable: s.mutable,
                    span: s.span,
                },
            ),
            Statement::Return(s) => Statement::Return(
                Return { value: self.subst_optional(&s.value), span: s.span },
            ),
            Statement::If(s) => Statement::If(self.subst_if(&s)),
            Statement::While(s) => Statement::While(
                While {
                    condition: self.subst_expr(&s.condition),
                    body: self.subst_block(&s.body),
                    span: s.span,
                },
            ),
            Statement::Expr(expr, ended) => Statement::Expr(self.subst_expr(&expr), ended),
            Statement::Block(block) => Statement::Block(self.subst_block(&block)),
            Statement::Match(s) => Statement::Match(
                Match {
                    scrutinee: self.subst_expr(&s.scrutinee),
                    arms: self.subst_arms(s.arms),
                    span: s.span,
                },
            ),
            _ => *statement,
        }
    }

    fn subst_params(&self, params: &Vec<Parameter<'s>>) -> (out: &'s Vec<Parameter<'s>>)
        ensures
            param_forms(out@) == subst_param_forms(param_forms(params@), self.env_spec()),
    {
        let ghost env = self.env_spec();
        let mut out: Vec<Parameter<'s>> = Vec::new();
        let mut i: usize = 0;
        while i < params.len()
            invariant
                i <= params@.len(),
                out@.len() == i,
                env == self.env_spec(),
                forall|j: int|
                    0 <= j < i ==> param_form(#[trigger] out@[j]) == (ParamForm {
                        typ: subst_at(shape_at(params@[j].typ), env),
                        ..param_form(params@[j])
                    }),
            decreases params@.len() - i,
        {
            let typ = subst_spanned_type(&params[i].typ, self.env, self.arena);
            out.push(
                Parameter {
                    name: params[i].name,
                    typ,
                    mutable: params[i].mutable,
                    span: params[i].span,
                },
            );
            i += 1;
        }
        assert(param_forms(out@) =~= subst_param_forms(param_forms(params@), env));
        self.arena.place(out)
    }

    /// Substitutes a function, which keeps its name and its own parameters.
    fn subst_function(&self, item: &Function<'s>) -> (out: Function<'s>)
        ensures
            function_form(out) == subst_function_form(
                function_form(*item),
                self.env_spec(),
                self.templates@,
            ),
    {
        Function {
            name: item.name,
            generics: item.generics,
            receiver: item.receiver,
            params: self.subst_params(item.params),
            return_type: subst_optional_type(&item.return_type, self.env, self.arena),
            body: self.subst_block(&item.body),
            impl_type: item.impl_type,
            is_const: item.is_const,
            is_pub: item.is_pub,
            inline: item.inline,
            span: item.span,
        }
    }

    /// The copy of a function template.
    pub fn subst_fn(&self, item: &Function<'s>, name: &'s str) -> (out: Function<'s>)
        ensures
            function_form(out) == copy_function(
                function_form(*item),
                name@,
                self.env_spec(),
                self.templates@,
            ),
    {
        let generics = self.arena.place(Vec::new());
        let out = Function { name, generics, ..self.subst_function(item) };
        assert(function_form(out).generics =~= seq![]);
        out
    }

    /// The copy of a struct template.
    pub fn subst_struct(&self, item: &Struct<'s>, name: &'s str) -> (out: Struct<'s>)
        ensures
            struct_form(out) == copy_struct(struct_form(*item), name@, self.env_spec()),
    {
        let ghost env = self.env_spec();
        let mut fields: Vec<Field<'s>> = Vec::new();
        let mut i: usize = 0;
        while i < item.fields.len()
            invariant
                i <= item.fields@.len(),
                fields@.len() == i,
                env == self.env_spec(),
                forall|j: int|
                    0 <= j < i ==> field_form(#[trigger] fields@[j]) == (FieldForm {
                        typ: subst_at(shape_at(item.fields@[j].typ), env),
                        ..field_form(item.fields@[j])
                    }),
            decreases item.fields@.len() - i,
        {
            let typ = subst_spanned_type(&item.fields[i].typ, self.env, self.arena);
            fields.push(Field { name: item.fields[i].name, typ, span: item.fields[i].span });
            i += 1;
        }
        let ghost copied = copy_struct(struct_form(*item), name@, env);
        assert(field_forms(fields@) =~= copied.fields);
        let generics = self.arena.place(Vec::new());
        let out = Struct {
            name,
            generics,
            fields: self.arena.place(fields),
            repr: item.repr,
            is_pub: item.is_pub,
            span: item.span,
        };
        assert(struct_form(out).generics =~= seq![]);
        out
    }

    fn subst_variants(&self, variants: &Vec<EnumVariant<'s>>) -> (out: &'s Vec<EnumVariant<'s>>)
        ensures
            variant_forms(out@) == Seq::new(
                variants@.len(),
                |i: int|
                    VariantForm {
                        payload: subst_optional_at(
                            variant_forms(variants@)[i].payload,
                            self.env_spec(),
                        ),
                        ..variant_forms(variants@)[i]
                    },
            ),
    {
        let ghost env = self.env_spec();
        let mut out: Vec<EnumVariant<'s>> = Vec::new();
        let mut i: usize = 0;
        while i < variants.len()
            invariant
                i <= variants@.len(),
                out@.len() == i,
                env == self.env_spec(),
                forall|j: int|
                    0 <= j < i ==> variant_form(#[trigger] out@[j]) == (VariantForm {
                        payload: subst_optional_at(optional_shape(variants@[j].payload), env),
                        ..variant_form(variants@[j])
                    }),
            decreases variants@.len() - i,
        {
            let payload = subst_optional_type(&variants[i].payload, self.env, self.arena);
            out.push(
                EnumVariant {
                    name: variants[i].name,
                    value: variants[i].value,
                    payload,
                    span: variants[i].span,
                },
            );
            i += 1;
        }
        assert(variant_forms(out@) =~= Seq::new(
            variants@.len(),
            |i: int|
                VariantForm {
                    payload: subst_optional_at(variant_forms(variants@)[i].payload, env),
                    ..variant_forms(variants@)[i]
                },
        ));
        self.arena.place(out)
    }

    /// The copy of an enum template.
    pub fn subst_enum(&self, item: &Enum<'s>, name: &'s str) -> (out: Enum<'s>)
        ensures
            enum_form(out) == copy_enum(enum_form(*item), name@, self.env_spec()),
    {
        let generics = self.arena.place(Vec::new());
        let variants = self.subst_variants(item.variants);
        let out = Enum {
            name,
            generics,
            repr: item.repr,
            variants,
            is_pub: item.is_pub,
            span: item.span,
        };
        assert(enum_form(out).generics =~= seq![]);
        assert(enum_form(out).variants =~= copy_enum(
            enum_form(*item),
            name@,
            self.env_spec(),
        ).variants);
        out
    }

    /// The copy of an `impl` template for the type of the given name.
    pub fn subst_impl(&self, item: &Impl<'s>, receiver: &'s str) -> (out: Impl<'s>)
        ensures
            impl_form(out) == copy_impl(
                impl_form(*item),
                receiver@,
                self.env_spec(),
                self.templates@,
            ),
    {
        let ghost env = self.env_spec();
        let ghost set = self.templates@;
        let ghost wanted = copy_methods(function_forms(item.methods@), receiver@, env, set);
        let mut methods: Vec<&'s Function<'s>> = Vec::new();
        let mut i: usize = 0;
        while i < item.methods.len()
            invariant
                i <= item.methods@.len(),
                methods@.len() == i,
                env == self.env_spec(),
                set == self.templates@,
                wanted == copy_methods(function_forms(item.methods@), receiver@, env, set),
                forall|j: int| 0 <= j < i ==> function_form(*(#[trigger] methods@[j])) == wanted[j],
            decreases item.methods@.len() - i,
        {
            let method = item.methods[i];
            let copy = self.subst_fn(method, method.name);
            let copy = Function { impl_type: Some(receiver), ..copy };
            assert(function_form(copy) == wanted[i as int]);
            methods.push(self.arena.place(copy));
            i += 1;
        }
        assert(function_forms(methods@) =~= wanted);
        let generics = self.arena.place(Vec::new());
        let out = Impl {
            name: receiver,
            generics,
            receiver: Spanned { value: Type::Named(receiver), span: item.receiver.span },
            interface: None,
            interface_type: None,
            methods: self.arena.place_slice(&methods),
            constants: item.constants,
            member_docs: item.member_docs,
            span: item.span,
        };
        assert(impl_form(out).generics =~= seq![]);
        out
    }

    /// Substitutes the signatures and default bodies of an interface.
    pub fn subst_interface(&self, item: &Interface<'s>) -> (out: Interface<'s>)
        ensures
            interface_form(out) == subst_interface_form(
                interface_form(*item),
                self.env_spec(),
                self.templates@,
            ),
    {
        let ghost env = self.env_spec();
        let ghost set = self.templates@;
        let ghost wanted = subst_interface_form(interface_form(*item), env, set).methods;
        let mut methods: Vec<InterfaceMethod<'s>> = Vec::new();
        let mut i: usize = 0;
        while i < item.methods.len()
            invariant
                i <= item.methods@.len(),
                methods@.len() == i,
                env == self.env_spec(),
                set == self.templates@,
                wanted == subst_interface_form(interface_form(*item), env, set).methods,
                forall|j: int| 0 <= j < i ==> method_form(#[trigger] methods@[j]) == wanted[j],
            decreases item.methods@.len() - i,
        {
            let method = item.methods[i];
            let default = match &method.default {
                Some(block) => Some(self.subst_block(block)),
                None => None,
            };
            let copy = InterfaceMethod {
                name: method.name,
                generics: method.generics,
                receiver: method.receiver,
                params: self.subst_params(method.params),
                return_type: subst_optional_type(&method.return_type, self.env, self.arena),
                default,
                span: method.span,
            };
            assert(method_form(copy) == wanted[i as int]);
            methods.push(copy);
            i += 1;
        }
        assert(method_forms(methods@) =~= wanted);
        Interface {
            name: item.name,
            generics: item.generics,
            superinterfaces: item.superinterfaces,
            methods: self.arena.place(methods),
            member_docs: item.member_docs,
            is_pub: item.is_pub,
            span: item.span,
        }
    }
}

/// Makes a statement of a module refer to copies.
pub fn rewrite_stmt<'s>(
    statement: &Statement<'s>,
    templates: &Templates<'s>,
    arena: &'s Arena,
) -> (out: Statement<'s>)
    ensures
        top_form(out) == rewrite_form(top_form(*statement), templates@),
{
    let env: Env<'s> = Vec::new();
    assert(env_view(env@) =~= seq![]);
    let substitution = Substitution { env: &env, templates, arena };
    match *statement {
        Statement::Item(item) => match item.kind {
            ItemKind::Fn(function) => Statement::Item(
                Item {
                    docs: item.docs,
                    kind: ItemKind::Fn(arena.place(substitution.subst_function(function))),
                },
            ),
            ItemKind::Enum(enumeration) => Statement::Item(
                Item {
                    docs: item.docs,
                    kind: ItemKind::Enum(
                        arena.place(substitution.subst_enum(enumeration, enumeration.name)),
                    ),
                },
            ),
            ItemKind::Interface(interface) => Statement::Item(
                Item {
                    docs: item.docs,
                    kind: ItemKind::Interface(arena.place(substitution.subst_interface(interface))),
                },
            ),
            _ => *statement,
        },
        _ => substitution.subst_stmt(statement),
    }
}

} // verus!
