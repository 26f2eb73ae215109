//! Inference of type arguments that are not written out.
//!
//! Bodies are walked with the types of their variables at hand. Where a template is used without
//! arguments, its declared types are held against those of the values it is given.

use crate::arena::Arena;
use crate::ast::{
    no_span, Arm, Assignment, Binary, Block, Call, Cast, Else, Enum, EnumVariant, Expression, Field,
    FieldAccess, FieldInit, Function, GenericBound, If, Impl, Item, ItemKind, Let, Match,
    QualifiedCall, Return, Span, Spanned, Statement, Struct, StructLiteral, Type, Unary,
    UnaryOperator, While,
};
use crate::hir::monomorph::copies::lemma_bare;
use crate::hir::monomorph::form::{
    arm_form, arm_forms, block_form, else_form, expr_form, expr_forms, function_form,
    function_forms, if_form, init_forms, optional_expr, param_forms, statement_form,
    statement_forms, top_form, ArmForm, BlockForm, ElseForm, ExprForm, FunctionForm, IfForm,
    ImplForm, InitForm, ItemForm, LetForm, ParamForm, StatementForm, TopForm,
};
use crate::hir::monomorph::shape::{arg_shapes, bare, shape, shapes_at, Shape, ShapeAt};
use crate::hir::monomorph::subst::{
    bind, bound, copy_env, env_view, lookup, subst_simple, subst_type_simple, Bindings, Env,
};
use crate::hir::monomorph::templates::{TemplateSet, Templates};
use crate::text::text_eq;
use vstd::prelude::*;

verus! {

/// Whether a name is that of one of the given type parameters.
pub open spec fn is_generic(generics: Seq<GenericBound>, name: Seq<char>) -> bool {
    exists|i: int| 0 <= i < generics.len() && (#[trigger] generics[i]).name@ == name
}

/// What is known of type parameters after a declared type was held against an actual one.
///
/// A parameter stands for the first type it meets. References on both sides are looked through,
/// and so is a declared one on its own.
pub open spec fn unify_shapes(
    declared: Shape,
    actual: Shape,
    generics: Seq<GenericBound>,
    bindings: Bindings,
) -> Bindings
    decreases declared, 0nat,
{
    match declared {
        Shape::Ref(inner, mutable) => match actual {
            Shape::Ref(target, _) => unify_shapes(*inner, *target, generics, bindings),
            _ => unify_shapes(*inner, actual, generics, bindings),
        },
        Shape::Named(name) => if is_generic(generics, name) && bound(bindings, name) is None {
            bindings.push((name, actual))
        } else {
            bindings
        },
        Shape::Generic(name, args) => match actual {
            Shape::Generic(other, given) => if name == other {
                unify_pairs(args, given, 0, generics, bindings)
            } else {
                bindings
            },
            _ => bindings,
        },
        _ => bindings,
    }
}

/// The same for lists of types, from position `at` on.
pub open spec fn unify_pairs(
    declared: Seq<Shape>,
    actual: Seq<Shape>,
    at: nat,
    generics: Seq<GenericBound>,
    bindings: Bindings,
) -> Bindings
    decreases declared, (declared.len() - at) as nat,
{
    if at >= declared.len() || at >= actual.len() {
        bindings
    } else {
        unify_pairs(
            declared,
            actual,
            at + 1,
            generics,
            unify_shapes(declared[at as int], actual[at as int], generics, bindings),
        )
    }
}

/// The arguments for the given type parameters, if all of them are known.
pub open spec fn solved(generics: Seq<GenericBound>, bindings: Bindings) -> Option<Seq<ShapeAt>> {
    if generics.len() > 0 && (forall|i: int|
        0 <= i < generics.len() ==> bound(bindings, (#[trigger] generics[i]).name@) is Some) {
        Some(
            Seq::new(
                generics.len(),
                |i: int|
                    ShapeAt { shape: bound(bindings, generics[i].name@)->0, span: no_span() },
            ),
        )
    } else {
        None
    }
}

/// What type parameters stand for, given their arguments.
pub open spec fn applied(generics: Seq<GenericBound>, args: Seq<Shape>) -> Bindings {
    Seq::new(
        if generics.len() < args.len() {
            generics.len()
        } else {
            args.len()
        },
        |i: int| (generics[i].name@, args[i]),
    )
}

/// What the arguments of a call from position `at` on say of a function's type parameters.
pub open spec fn bind_args(
    item: Function,
    args: Seq<ExprForm>,
    at: nat,
    bindings: Bindings,
    env: Bindings,
    set: TemplateSet,
) -> Bindings
    decreases args, (args.len() - at) as nat,
{
    if at >= args.len() || at >= item.params@.len() {
        bindings
    } else {
        bind_args(
            item,
            args,
            at + 1,
            match expr_type(args[at as int], env, set) {
                Some(actual) => unify_shapes(
                    shape(item.params@[at as int].typ.value),
                    actual,
                    item.generics@,
                    bindings,
                ),
                None => bindings,
            },
            env,
            set,
        )
    }
}

/// The type arguments of a call.
pub open spec fn solve_call(item: Function, args: Seq<ExprForm>, env: Bindings, set: TemplateSet) -> Option<
    Seq<ShapeAt>,
>
    decreases args, (args.len() + 1) as nat,
{
    solved(item.generics@, bind_args(item, args, 0, seq![], env, set))
}

/// The type of an expression, as far as it can be told without looking anything up but
/// variables and templates.
pub open spec fn expr_type(expr: ExprForm, env: Bindings, set: TemplateSet) -> Option<Shape>
    decreases expr, 0nat,
{
    match expr {
        ExprForm::Identifier(name, span) => bound(env, name),
        ExprForm::Struct { name, fields, type_args, span } => Some(
            if type_args.len() == 0 {
                Shape::Named(name)
            } else {
                Shape::Generic(name, bare(type_args))
            },
        ),
        ExprForm::Unary { operator, expr, span } => match operator {
            UnaryOperator::Ref => match expr_type(*expr, env, set) {
                Some(typ) => Some(Shape::Ref(Box::new(typ), false)),
                None => None,
            },
            UnaryOperator::RefMut => match expr_type(*expr, env, set) {
                Some(typ) => Some(Shape::Ref(Box::new(typ), true)),
                None => None,
            },
            UnaryOperator::Deref => match expr_type(*expr, env, set) {
                Some(Shape::Ref(inner, mutable)) => Some(*inner),
                Some(typ) => Some(typ),
                None => None,
            },
            _ => None,
        },
        ExprForm::Cast { expr, target_type, span } => Some(target_type.shape),
        ExprForm::Integer(value, span) => Some(Shape::Word("i32"@)),
        ExprForm::Bool(value, span) => Some(Shape::Word("bool"@)),
        ExprForm::Char(value, span) => Some(Shape::Word("char"@)),
        ExprForm::Float(bits, span) => Some(Shape::Word("f64"@)),
        ExprForm::String(text, span) => Some(Shape::Word("str"@)),
        ExprForm::Call { callee, args, type_args, span } => match *callee {
            ExprForm::Identifier(name, at) => match set.function(name) {
                Some(item) => {
                    let given = if type_args.len() > 0 {
                        Some(type_args)
                    } else {
                        solve_call(*item, args, env, set)
                    };
                    match (given, item.return_type) {
                        (Some(given), Some(returned)) => Some(
                            subst_simple(
                                shape(returned.value),
                                applied(item.generics@, bare(given)),
                            ),
                        ),
                        _ => None,
                    }
                },
                None => None,
            },
            _ => None,
        },
        _ => None,
    }
}

/// The first field of the given name, from position `at` on.
pub open spec fn field_named<'s>(fields: Seq<Field<'s>>, name: Seq<char>, at: nat) -> Option<
    Field<'s>,
>
    decreases fields.len() - at,
{
    if at >= fields.len() {
        None
    } else if fields[at as int].name@ == name {
        Some(fields[at as int])
    } else {
        field_named(fields, name, at + 1)
    }
}

/// The first variant of the given name, from position `at` on.
pub open spec fn variant_named<'s>(variants: Seq<EnumVariant<'s>>, name: Seq<char>, at: nat) -> Option<
    EnumVariant<'s>,
>
    decreases variants.len() - at,
{
    if at >= variants.len() {
        None
    } else if variants[at as int].name@ == name {
        Some(variants[at as int])
    } else {
        variant_named(variants, name, at + 1)
    }
}

/// What the fields of a literal from position `at` on say of a struct's type parameters.
pub open spec fn bind_fields(
    item: Struct,
    fields: Seq<InitForm>,
    at: nat,
    bindings: Bindings,
    env: Bindings,
    set: TemplateSet,
) -> Bindings
    decreases fields.len() - at,
{
    if at >= fields.len() {
        bindings
    } else {
        let field = fields[at as int];
        bind_fields(
            item,
            fields,
            at + 1,
            match (field_named(item.fields@, field.name, 0), expr_type(field.value, env, set)) {
                (Some(declared), Some(actual)) => unify_shapes(
                    shape(declared.typ.value),
                    actual,
                    item.generics@,
                    bindings,
                ),
                _ => bindings,
            },
            env,
            set,
        )
    }
}

/// The type arguments of a struct literal.
pub open spec fn solve_literal(
    item: Struct,
    fields: Seq<InitForm>,
    env: Bindings,
    set: TemplateSet,
) -> Option<Seq<ShapeAt>> {
    solved(item.generics@, bind_fields(item, fields, 0, seq![], env, set))
}

/// The type arguments of a variant constructor.
pub open spec fn solve_variant(
    item: Enum,
    name: Seq<char>,
    args: Seq<ExprForm>,
    env: Bindings,
    set: TemplateSet,
) -> Option<Seq<ShapeAt>> {
    match variant_named(item.variants@, name, 0) {
        None => None,
        Some(variant) => {
            let bindings: Bindings = match variant.payload {
                Some(payload) => if args.len() > 0 {
                    match expr_type(args[0], env, set) {
                        Some(actual) => unify_shapes(
                            shape(payload.value),
                            actual,
                            item.generics@,
                            seq![],
                        ),
                        None => seq![],
                    }
                } else {
                    seq![]
                },
                None => seq![],
            };
            solved(item.generics@, bindings)
        },
    }
}

/// The arguments that are written out, or else those found.
pub open spec fn chosen(written: Seq<ShapeAt>, found: Option<Seq<ShapeAt>>) -> Seq<ShapeAt> {
    match found {
        Some(found) => if written.len() == 0 {
            found
        } else {
            written
        },
        None => written,
    }
}

/// An expression with its type arguments filled in.
pub open spec fn infer_form(expr: ExprForm, env: Bindings, set: TemplateSet) -> ExprForm
    decreases expr, 0nat,
{
    match expr {
        ExprForm::Call { callee, args, type_args, span } => {
            let args = infer_forms(args, env, set);
            ExprForm::Call {
                callee,
                args,
                type_args: match *callee {
                    ExprForm::Identifier(name, at) => match set.function(name) {
                        Some(item) => chosen(type_args, solve_call(*item, args, env, set)),
                        None => type_args,
                    },
                    _ => type_args,
                },
                span,
            }
        },
        ExprForm::Struct { name, fields, type_args, span } => {
            let fields = infer_inits(fields, env, set);
            ExprForm::Struct {
                name,
                fields,
                type_args: match set.structure(name) {
                    Some(item) => chosen(type_args, solve_literal(*item, fields, env, set)),
                    None => type_args,
                },
                span,
            }
        },
        ExprForm::QualifiedCall { qualifier, name, args, type_args, span } => {
            let args = infer_forms(args, env, set);
            ExprForm::QualifiedCall {
                qualifier,
                name,
                args,
                type_args: match set.enumeration(qualifier) {
                    Some(item) => chosen(type_args, solve_variant(*item, name, args, env, set)),
                    None => type_args,
                },
                span,
            }
        },
        ExprForm::Binary { left, operator, right, span } => ExprForm::Binary {
            left: Box::new(infer_form(*left, env, set)),
            operator,
            right: Box::new(infer_form(*right, env, set)),
            span,
        },
        ExprForm::Unary { operator, expr, span } => ExprForm::Unary {
            operator,
            expr: Box::new(infer_form(*expr, env, set)),
            span,
        },
        ExprForm::Field { expr, field, span } => ExprForm::Field {
            expr: Box::new(infer_form(*expr, env, set)),
            field,
            span,
        },
        ExprForm::Assignment { target, value, span } => ExprForm::Assignment {
            target: Box::new(infer_form(*target, env, set)),
            value: Box::new(infer_form(*value, env, set)),
            span,
        },
        ExprForm::Cast { expr, target_type, span } => ExprForm::Cast {
            expr: Box::new(infer_form(*expr, env, set)),
            target_type,
            span,
        },
        _ => expr,
    }
}

pub open spec fn infer_forms(items: Seq<ExprForm>, env: Bindings, set: TemplateSet) -> Seq<ExprForm>
    decreases items, 1nat,
{
    Seq::new(
        items.len(),
        |i: int|
            if 0 <= i < items.len() {
                infer_form(items[i], env, set)
            } else {
                arbitrary()
            },
    )
}

pub open spec fn infer_inits(items: Seq<InitForm>, env: Bindings, set: TemplateSet) -> Seq<InitForm>
    decreases items, 1nat,
{
    Seq::new(
        items.len(),
        |i: int|
            if 0 <= i < items.len() {
                InitForm { value: infer_form(items[i].value, env, set), ..items[i] }
            } else {
                arbitrary()
            },
    )
}

pub open spec fn infer_optional(expr: Option<ExprForm>, env: Bindings, set: TemplateSet) -> Option<
    ExprForm,
> {
    match expr {
        Some(expr) => Some(infer_form(expr, env, set)),
        None => None,
    }
}

pub open spec fn infer_arm_forms<'s>(arms: Seq<ArmForm<'s>>, env: Bindings, set: TemplateSet) -> Seq<
    ArmForm<'s>,
> {
    Seq::new(
        arms.len(),
        |i: int| ArmForm { body: infer_form(arms[i].body, env, set), ..arms[i] },
    )
}

/// A block with its type arguments filled in, and the variables known after it.
pub open spec fn infer_block_form<'s>(block: BlockForm<'s>, env: Bindings, set: TemplateSet) -> (
    BlockForm<'s>,
    Bindings,
)
    decreases block, 1nat,
{
    let (statements, env) = infer_statement_forms(block.statements, 0, seq![], env, set);
    (BlockForm { statements, span: block.span }, env)
}

pub open spec fn infer_statement_forms<'s>(
    items: Seq<StatementForm<'s>>,
    at: nat,
    done: Seq<StatementForm<'s>>,
    env: Bindings,
    set: TemplateSet,
) -> (Seq<StatementForm<'s>>, Bindings)
    decreases items, (items.len() - at) as nat,
{
    if at >= items.len() {
        (done, env)
    } else {
        let (statement, env) = infer_statement_form(items[at as int], env, set);
        infer_statement_forms(items, at + 1, done.push(statement), env, set)
    }
}

pub open spec fn infer_if_form<'s>(statement: IfForm<'s>, env: Bindings, set: TemplateSet) -> IfForm<
    's,
>
    decreases statement, 1nat,
{
    IfForm {
        condition: infer_form(statement.condition, env, set),
        then_branch: infer_block_form(statement.then_branch, env, set).0,
        else_branch: match statement.else_branch {
            Some(branch) => Some(Box::new(infer_else_form(*branch, env, set))),
            None => None,
        },
        span: statement.span,
    }
}

pub open spec fn infer_else_form<'s>(branch: ElseForm<'s>, env: Bindings, set: TemplateSet) -> ElseForm<
    's,
>
    decreases branch, 0nat,
{
    match branch {
        ElseForm::If(nested) => ElseForm::If(infer_if_form(nested, env, set)),
        ElseForm::Block(block) => ElseForm::Block(infer_block_form(block, env, set).0),
        ElseForm::Expr(expr) => ElseForm::Expr(infer_form(expr, env, set)),
    }
}

/// The type of a new variable: the one written, or else that of its value.
pub open spec fn variable_type(
    written: Option<ShapeAt>,
    value: Option<ExprForm>,
    env: Bindings,
    set: TemplateSet,
) -> Option<Shape> {
    match written {
        Some(typ) => Some(typ.shape),
        None => match value {
            Some(value) => expr_type(value, env, set),
            None => None,
        },
    }
}

/// A statement of a body with its type arguments filled in, and the variables known after it.
pub open spec fn infer_statement_form<'s>(
    statement: StatementForm<'s>,
    env: Bindings,
    set: TemplateSet,
) -> (StatementForm<'s>, Bindings)
    decreases statement, 0nat,
{
    match statement {
        StatementForm::Let(s) => {
            let value = infer_optional(s.value, env, set);
            (
                StatementForm::Let(LetForm { value, ..s }),
                match variable_type(s.typ, value, env, set) {
                    Some(typ) => env.push((s.name@, typ)),
                    None => env,
                },
            )
        },
        StatementForm::Return(value, span) => (
            StatementForm::Return(infer_optional(value, env, set), span),
            env,
        ),
        StatementForm::If(s) => (StatementForm::If(infer_if_form(s, env, set)), env),
        StatementForm::While { condition, body, span } => {
            let (body, after) = infer_block_form(body, env, set);
            (
                StatementForm::While { condition: infer_form(condition, env, set), body, span },
                after,
            )
        },
        StatementForm::Expr(expr, ended) => (
            StatementForm::Expr(infer_form(expr, env, set), ended),
            env,
        ),
        StatementForm::Block(block) => (
            StatementForm::Block(infer_block_form(block, env, set).0),
            env,
        ),
        StatementForm::Match { scrutinee, arms, span } => (
            StatementForm::Match {
                scrutinee: infer_form(scrutinee, env, set),
                arms: infer_arm_forms(arms, env, set),
                span,
            },
            env,
        ),
        _ => (statement, env),
    }
}

/// The variables known at the start of a function.
pub open spec fn param_env(params: Seq<ParamForm>) -> Bindings {
    Seq::new(params.len(), |i: int| (params[i].name@, params[i].typ.shape))
}

/// A function with its type arguments filled in.
pub open spec fn infer_function_form<'s>(item: FunctionForm<'s>, set: TemplateSet) -> FunctionForm<
    's,
> {
    FunctionForm { body: infer_block_form(item.body, param_env(item.params), set).0, ..item }
}

pub open spec fn infer_methods<'s>(methods: Seq<FunctionForm<'s>>, set: TemplateSet) -> Seq<
    FunctionForm<'s>,
> {
    Seq::new(methods.len(), |i: int| infer_function_form(methods[i], set))
}

/// A statement of a module with its type arguments filled in.
pub open spec fn infer_top_form<'s>(statement: TopForm<'s>, set: TemplateSet) -> TopForm<'s> {
    match statement {
        TopForm::Item { docs, kind } => match kind {
            ItemForm::Fn(item) => TopForm::Item {
                docs,
                kind: ItemForm::Fn(infer_function_form(item, set)),
            },
            ItemForm::Impl(item) => TopForm::Item {
                docs,
                kind: ItemForm::Impl(
                    ImplForm { methods: infer_methods(item.methods, set), ..item },
                ),
            },
            _ => statement,
        },
        _ => statement,
    }
}

pub open spec fn infer_top_forms<'s>(statements: Seq<TopForm<'s>>, set: TemplateSet) -> Seq<
    TopForm<'s>,
> {
    Seq::new(statements.len(), |i: int| infer_top_form(statements[i], set))
}

fn has_generic(generics: &Vec<GenericBound<'_>>, name: &str) -> (has: bool)
    ensures
        has == is_generic(generics@, name@),
{
    let mut i: usize = 0;
    while i < generics.len()
        invariant
            i <= generics@.len(),
            forall|j: int| 0 <= j < i ==> (#[trigger] generics@[j]).name@ != name@,
        decreases generics@.len() - i,
    {
        if text_eq(generics[i].name, name) {
            return true;
        }
        i += 1;
    }
    false
}

/// Holds a declared type against an actual one, and notes what type parameters stand for.
pub fn unify<'s>(
    declared: &Type<'s>,
    actual: &Type<'s>,
    generics: &Vec<GenericBound<'s>>,
    bindings: &mut Env<'s>,
)
    ensures
        env_view(final(bindings)@) == unify_shapes(
            shape(*declared),
            shape(*actual),
            generics@,
            env_view(old(bindings)@),
        ),
    decreases declared, 0nat,
{
    match *declared {
        Type::Ref(inner, _) => match *actual {
            Type::Ref(target, _) => unify(inner, target, generics, bindings),
            _ => unify(inner, actual, generics, bindings),
        },
        Type::Named(name) => {
            if has_generic(generics, name) && lookup(bindings, name).is_none() {
                bind(bindings, name, *actual);
            }
        },
        Type::Generic(name, args) => match *actual {
            Type::Generic(other, given) => {
                if text_eq(name, other) {
                    unify_args(args, given, generics, bindings);
                }
            },
            _ => {},
        },
        _ => {},
    }
}

fn unify_args<'s>(
    declared: &Vec<Spanned<Type<'s>>>,
    actual: &Vec<Spanned<Type<'s>>>,
    generics: &Vec<GenericBound<'s>>,
    bindings: &mut Env<'s>,
)
    ensures
        env_view(final(bindings)@) == unify_pairs(
            arg_shapes(declared@),
            arg_shapes(actual@),
            0,
            generics@,
            env_view(old(bindings)@),
        ),
    decreases declared@, 1nat,
{
    let ghost left = arg_shapes(declared@);
    let ghost right = arg_shapes(actual@);
    let mut i: usize = 0;
    while i < declared.len() && i < actual.len()
        invariant
            i <= declared@.len(),
            i <= actual@.len(),
            left == arg_shapes(declared@),
            right == arg_shapes(actual@),
            unify_pairs(left, right, i as nat, generics@, env_view(bindings@)) == unify_pairs(
                left,
                right,
                0,
                generics@,
                env_view(old(bindings)@),
            ),
        decreases declared@.len() - i,
    {
        assert(decreases_to!(declared@ => declared@[i as int]));
        assert(left[i as int] == shape(declared@[i as int].value));
        assert(right[i as int] == shape(actual@[i as int].value));
        unify(&declared[i].value, &actual[i].value, generics, bindings);
        i += 1;
    }
}

/// What stands for the outcome of a search for type arguments.
pub open spec fn found_args(found: Option<Vec<Spanned<Type>>>) -> Option<Seq<ShapeAt>> {
    match found {
        Some(found) => Some(shapes_at(found@)),
        None => None,
    }
}

/// Puts what is known of type parameters into their order.
fn collect_solved<'s>(generics: &Vec<GenericBound<'s>>, bindings: &Env<'s>) -> (found: Option<
    Vec<Spanned<Type<'s>>>,
>)
    ensures
        found_args(found) == solved(generics@, env_view(bindings@)),
{
    if generics.len() == 0 {
        return None;
    }
    let ghost view = env_view(bindings@);
    let mut out: Vec<Spanned<Type<'s>>> = Vec::new();
    let mut i: usize = 0;
    while i < generics.len()
        invariant
            i <= generics@.len(),
            out@.len() == i,
            view == env_view(bindings@),
            forall|j: int|
                0 <= j < i ==> bound(view, (#[trigger] generics@[j]).name@) == Some(
                    shape(out@[j].value),
                ) && out@[j].span == no_span(),
        decreases generics@.len() - i,
    {
        match lookup(bindings, generics[i].name) {
            Some(value) => out.push(Spanned { value, span: Span::default() }),
            None => {
                assert(bound(view, generics@[i as int].name@) is None);
                return None;
            },
        }
        i += 1;
    }
    assert(shapes_at(out@) =~= solved(generics@, view)->0);
    Some(out)
}

/// Fills in type arguments.
pub struct Inferrer<'a, 's> {
    pub templates: &'a Templates<'s>,
    pub arena: &'s Arena,
}

impl<'a, 's> Inferrer<'a, 's> {
    /// The type arguments of a call.
    fn solve_fn(&self, item: &Function<'s>, args: &Vec<Expression<'s>>, env: &Env<'s>) -> (found:
        Option<Vec<Spanned<Type<'s>>>>)
        ensures
            found_args(found) == solve_call(
                *item,
                expr_forms(args@),
                env_view(env@),
                self.templates@,
            ),
        decreases args@, 1nat,
    {
        let ghost forms = expr_forms(args@);
        let ghost view = env_view(env@);
        let ghost set = self.templates@;
        let mut bindings: Env<'s> = Vec::new();
        assert(env_view(bindings@) =~= seq![]);
        let mut i: usize = 0;
        while i < args.len() && i < item.params.len()
            invariant
                i <= args@.len(),
                i <= item.params@.len(),
                forms == expr_forms(args@),
                view == env_view(env@),
                set == self.templates@,
                bind_args(*item, forms, i as nat, env_view(bindings@), view, set) == bind_args(
                    *item,
                    forms,
                    0,
                    seq![],
                    view,
                    set,
                ),
            decreases args@.len() - i,
        {
            assert(decreases_to!(args@ => args@[i as int]));
            assert(forms[i as int] == expr_form(args@[i as int]));
            if let Some(actual) = self.infer_expr_type(&args[i], env) {
                unify(&item.params[i].typ.value, &actual, item.generics, &mut bindings);
            }
            i += 1;
        }
        collect_solved(item.generics, &bindings)
    }

    /// The type of an expression, as far as it can be told.
    pub fn infer_expr_type(&self, expr: &Expression<'s>, env: &Env<'s>) -> (typ: Option<Type<'s>>)
        ensures
            expr_type(expr_form(*expr), env_view(env@), self.templates@) == (match typ {
                Some(typ) => Some(shape(typ)),
                None => None,
            }),
        decreases expr, 0nat,
    {
        match *expr {
            Expression::Identifier(name, _) => lookup(env, name),
            Expression::Struct(e) => {
                proof {
                    lemma_bare(e.type_args@);
                }
                if e.type_args.len() == 0 {
                    Some(Type::Named(e.name))
                } else {
                    Some(Type::Generic(e.name, e.type_args))
                }
            },
            Expression::Unary(e) => match e.operator {
                UnaryOperator::Ref => match self.infer_expr_type(e.expr, env) {
                    Some(typ) => Some(Type::Ref(self.arena.place(typ), false)),
                    None => None,
                },
                UnaryOperator::RefMut => match self.infer_expr_type(e.expr, env) {
                    Some(typ) => Some(Type::Ref(self.arena.place(typ), true)),
                    None => None,
                },
                UnaryOperator::Deref => match self.infer_expr_type(e.expr, env) {
                    Some(Type::Ref(inner, _)) => Some(*inner),
                    Some(typ) => Some(typ),
                    None => None,
                },
                _ => None,
            },
            Expression::Cast(e) => Some(e.target_type.value),
            Expression::Integer(_, _) => Some(Type::I32),
            Expression::Bool(_, _) => Some(Type::Bool),
            Expression::Char(_, _) => Some(Type::Char),
            Expression::Float(_, _) => Some(Type::F64),
            Expression::String(_, _) => Some(Type::Str),
            Expression::Call(e) => {
                assert(expr_form(*e.callee) is Identifier == *e.callee is Identifier);
                match *e.callee {
                    Expression::Identifier(name, _) => match self.templates.function(name) {
                        Some(item) => self.call_type(item, &e, env),
                        None => None,
                    },
                    _ => None,
                }
            },
            _ => None,
        }
    }

    /// The type of a call of a function template.
    fn call_type(&self, item: &Function<'s>, call: &Call<'s>, env: &Env<'s>) -> (typ: Option<
        Type<'s>,
    >)
        ensures
            ({
                let given = if call.type_args@.len() > 0 {
                    Some(shapes_at(call.type_args@))
                } else {
                    solve_call(*item, expr_forms(call.args@), env_view(env@), self.templates@)
                };
                (match typ {
                    Some(typ) => Some(shape(typ)),
                    None => None,
                }) == (match (given, item.return_type) {
                    (Some(given), Some(returned)) => Some(
                        subst_simple(shape(returned.value), applied(item.generics@, bare(given))),
                    ),
                    _ => None,
                })
            }),
        decreases call.args@, 2nat,
    {
        if call.type_args.len() > 0 {
            self.returned_type(item, call.type_args)
        } else {
            match self.solve_fn(item, call.args, env) {
                Some(found) => self.returned_type(item, &found),
                None => None,
            }
        }
    }

    /// What a function template returns for the given type arguments.
    fn returned_type(&self, item: &Function<'s>, given: &Vec<Spanned<Type<'s>>>) -> (typ: Option<
        Type<'s>,
    >)
        ensures
            (match typ {
                Some(typ) => Some(shape(typ)),
                None => None,
            }) == (match item.return_type {
                Some(returned) => Some(
                    subst_simple(
                        shape(returned.value),
                        applied(item.generics@, bare(shapes_at(given@))),
                    ),
                ),
                None => None,
            }),
    {
        match &item.return_type {
            Some(returned) => {
                let ghost wanted = applied(item.generics@, bare(shapes_at(given@)));
                let mut env: Env<'s> = Vec::new();
                let mut i: usize = 0;
                while i < item.generics.len() && i < given.len()
                    invariant
                        i <= item.generics@.len(),
                        i <= given@.len(),
                        env@.len() == i,
                        forall|j: int|
                            0 <= j < i ==> (#[trigger] env@[j]).0 == item.generics@[j].name
                                && env@[j].1 == given@[j].value,
                    decreases given@.len() - i,
                {
                    env.push((item.generics[i].name, given[i].value));
                    i += 1;
                }
                assert(env_view(env@) =~= wanted);
                Some(subst_type_simple(&returned.value, &env, self.arena))
            },
            None => None,
        }
    }

    /// The type arguments of a struct literal.
    fn solve_struct(&self, item: &Struct<'s>, fields: &Vec<FieldInit<'s>>, env: &Env<'s>) -> (found:
        Option<Vec<Spanned<Type<'s>>>>)
        ensures
            found_args(found) == solve_literal(
                *item,
                init_forms(fields@),
                env_view(env@),
                self.templates@,
            ),
    {
        let ghost forms = init_forms(fields@);
        let ghost view = env_view(env@);
        let ghost set = self.templates@;
        let mut bindings: Env<'s> = Vec::new();
        assert(env_view(bindings@) =~= seq![]);
        let mut i: usize = 0;
        while i < fields.len()
            invariant
                i <= fields@.len(),
                forms == init_forms(fields@),
                view == env_view(env@),
                set == self.templates@,
                bind_fields(*item, forms, i as nat, env_view(bindings@), view, set) == bind_fields(
                    *item,
                    forms,
                    0,
                    seq![],
                    view,
                    set,
                ),
            decreases fields@.len() - i,
        {
            assert(forms[i as int].value == expr_form(fields@[i as int].value));
            assert(forms[i as int].name == fields@[i as int].name@);
            if let Some(declared) = find_field(item.fields, fields[i].name) {
                if let Some(actual) = self.infer_expr_type(&fields[i].value, env) {
                    unify(&declared.typ.value, &actual, item.generics, &mut bindings);
                }
            }
            i += 1;
        }
        collect_solved(item.generics, &bindings)
    }

    /// The type arguments of a variant constructor.
    fn solve_enum_variant(
        &self,
        item: &Enum<'s>,
        name: &str,
        args: &Vec<Expression<'s>>,
        env: &Env<'s>,
    ) -> (found: Option<Vec<Spanned<Type<'s>>>>)
        ensures
            found_args(found) == solve_variant(
                *item,
                name@,
                expr_forms(args@),
                env_view(env@),
                self.templates@,
            ),
    {
        let variant = match find_variant(item.variants, name) {
            Some(variant) => variant,
            None => return None,
        };
        let mut bindings: Env<'s> = Vec::new();
        assert(env_view(bindings@) =~= seq![]);
        if let Some(payload) = &variant.payload {
            if args.len() > 0 {
                assert(expr_forms(args@)[0] == expr_form(args@[0]));
                if let Some(actual) = self.infer_expr_type(&args[0], env) {
                    unify(&payload.value, &actual, item.generics, &mut bindings);
                }
            }
        }
        collect_solved(item.generics, &bindings)
    }

    /// The arguments that are written out, or else those found.
    fn choose_args(
        &self,
        written: &'s Vec<Spanned<Type<'s>>>,
        found: Option<Vec<Spanned<Type<'s>>>>,
    ) -> (args: &'s Vec<Spanned<Type<'s>>>)
        ensures
            shapes_at(args@) == chosen(shapes_at(written@), found_args(found)),
    {
        match found {
            Some(found) => if written.len() == 0 {
                self.arena.place(found)
            } else {
                written
            },
            None => written,
        }
    }

    fn boxed(&self, expr: &Expression<'s>, env: &Env<'s>) -> (out: &'s Expression<'s>)
        ensures
            expr_form(*out) == infer_form(expr_form(*expr), env_view(env@), self.templates@),
        decreases expr, 1nat,
    {
        self.arena.place(self.infer_expr(expr, env))
    }

    /// Fills in the type arguments of an expression.
    pub fn infer_expr(&self, expr: &Expression<'s>, env: &Env<'s>) -> (out: Expression<'s>)
        ensures
            expr_form(out) == infer_form(expr_form(*expr), env_view(env@), self.templates@),
        decreases expr, 0nat,
    {
        match *expr {
            Expression::Call(e) => {
                let args = self.infer_exprs(e.args, env);
                assert(expr_form(*e.callee) is Identifier == *e.callee is Identifier);
                let type_args = match *e.callee {
                    Expression::Identifier(name, _) => match self.templates.function(name) {
                        Some(item) => self.choose_args(e.type_args, self.solve_fn(item, args, env)),
                        None => e.type_args,
                    },
                    _ => e.type_args,
                };
                Expression::Call(Call { callee: e.callee, args, type_args, span: e.span })
            },
            Expression::Struct(e) => {
                let fields = self.infer_inits(e.fields, env);
                let type_args = match self.templates.structure(e.name) {
                    Some(item) => self.choose_args(
                        e.type_args,
                        self.solve_struct(item, fields, env),
                    ),
                    None => e.type_args,
                };
                Expression::Struct(StructLiteral { name: e.name, fields, type_args, span: e.span })
            },
            Expression::QualifiedCall(e) => {
                let args = self.infer_exprs(e.args, env);
                let type_args = match self.templates.enumeration(e.qualifier) {
                    Some(item) => self.choose_args(
                        e.type_args,
                        self.solve_enum_variant(item, e.name, args, env),
                    ),
                    None => e.type_args,
                };
                Expression::QualifiedCall(
                    QualifiedCall {
                        qualifier: e.qualifier,
                        name: e.name,
                        args,
                        type_args,
                        span: e.span,
                    },
                )
            },
            Expression::Binary(e) => Expression::Binary(
                Binary {
                    left: self.boxed(e.left, env),
                    operator: e.operator,
                    right: self.boxed(e.right, env),
                    span: e.span,
                },
            ),
            Expression::Unary(e) => Expression::Unary(
                Unary { operator: e.operator, expr: self.boxed(e.expr, env), span: e.span },
            ),
            Expression::Field(e) => Expression::Field(
                FieldAccess { expr: self.boxed(e.expr, env), field: e.field, span: e.span },
            ),
            Expression::Assignment(e) => Expression::Assignment(
                Assignment {
                    target: self.boxed(e.target, env),
                    value: self.boxed(e.value, env),
                    span: e.span,
                },
            ),
            Expression::Cast(e) => Expression::Cast(
                Cast { expr: self.boxed(e.expr, env), target_type: e.target_type, span: e.span },
            ),
            _ => *expr,
        }
    }

    fn infer_exprs(&self, items: &Vec<Expression<'s>>, env: &Env<'s>) -> (out: &'s Vec<
        Expression<'s>,
    >)
        ensures
            expr_forms(out@) == infer_forms(expr_forms(items@), env_view(env@), self.templates@),
        decreases items@, 1nat,
    {
        let ghost view = env_view(env@);
        let ghost set = self.templates@;
        let mut out: Vec<Expression<'s>> = Vec::new();
        let mut i: usize = 0;
        while i < items.len()
            invariant
                i <= items@.len(),
                out@.len() == i,
                view == env_view(env@),
                set == self.templates@,
                forall|j: int|
                    0 <= j < i ==> expr_form(#[trigger] out@[j]) == infer_form(
                        expr_form(items@[j]),
                        view,
                        set,
                    ),
            decreases items@.len() - i,
        {
            assert(decreases_to!(items@ => items@[i as int]));
            out.push(self.infer_expr(&items[i], env));
            i += 1;
        }
        assert(expr_forms(out@) =~= infer_forms(expr_forms(items@), view, set));
        self.arena.place(out)
    }

    fn infer_inits(&self, items: &Vec<FieldInit<'s>>, env: &Env<'s>) -> (out: &'s Vec<
        FieldInit<'s>,
    >)
        ensures
            init_forms(out@) == infer_inits(init_forms(items@), env_view(env@), self.templates@),
        decreases items@, 1nat,
    {
        let ghost view = env_view(env@);
        let ghost set = self.templates@;
        let mut out: Vec<FieldInit<'s>> = Vec::new();
        let mut i: usize = 0;
        while i < items.len()
            invariant
                i <= items@.len(),
                out@.len() == i,
                view == env_view(env@),
                set == self.templates@,
                forall|j: int|
                    0 <= j < i ==> expr_form((#[trigger] out@[j]).value) == infer_form(
                        expr_form(items@[j].value),
                        view,
                        set,
                    ) && out@[j].name == items@[j].name && out@[j].span == items@[j].span,
            decreases items@.len() - i,
        {
            assert(decreases_to!(items@ => items@[i as int]));
            let value = self.infer_expr(&items[i].value, env);
            out.push(FieldInit { name: items[i].name, value, span: items[i].span });
            i += 1;
        }
        assert(init_forms(out@) =~= infer_inits(init_forms(items@), view, set));
        self.arena.place(out)
    }

    fn infer_value(&self, expr: &Option<Expression<'s>>, env: &Env<'s>) -> (out: Option<
        Expression<'s>,
    >)
        ensures
            optional_expr(out) == infer_optional(
                optional_expr(*expr),
                env_view(env@),
                self.templates@,
            ),
    {
        match expr {
            Some(expr) => Some(self.infer_expr(expr, env)),
            None => None,
        }
    }

    fn infer_arms(&self, arms: &Vec<Arm<'s>>, env: &Env<'s>) -> (out: &'s Vec<Arm<'s>>)
        ensures
            arm_forms(out@) == infer_arm_forms(arm_forms(arms@), env_view(env@), self.templates@),
    {
        let ghost view = env_view(env@);
        let ghost set = self.templates@;
        let mut out: Vec<Arm<'s>> = Vec::new();
        let mut i: usize = 0;
        while i < arms.len()
            invariant
                i <= arms@.len(),
                out@.len() == i,
                view == env_view(env@),
                set == self.templates@,
                forall|j: int|
                    0 <= j < i ==> arm_form(#[trigger] out@[j]) == (ArmForm {
                        body: infer_form(expr_form(arms@[j].body), view, set),
                        ..arm_form(arms@[j])
                    }),
            decreases arms@.len() - i,
        {
            let body = self.infer_expr(&arms[i].body, env);
            out.push(
                Arm { pattern: arms[i].pattern, guard: arms[i].guard, body, span: arms[i].span },
            );
            i += 1;
        }
        assert(arm_forms(out@) =~= infer_arm_forms(arm_forms(arms@), view, set));
        self.arena.place(out)
    }

    /// Fills in the type arguments of a block, and notes its variables.
    fn infer_block(&self, block: &Block<'s>, env: &mut Env<'s>) -> (out: Block<'s>)
        ensures
            (block_form(out), env_view(final(env)@)) == infer_block_form(
                block_form(*block),
                env_view(old(env)@),
                self.templates@,
            ),
        decreases block, 1nat,
    {
        Block { statements: self.infer_statements(block.statements, env), span: block.span }
    }

    /// Fills in the type arguments of a block whose variables do not outlive it.
    fn infer_inner(&self, block: &Block<'s>, env: &Env<'s>) -> (out: Block<'s>)
        ensures
            block_form(out) == infer_block_form(
                block_form(*block),
                env_view(env@),
                self.templates@,
            ).0,
        decreases block, 2nat,
    {
        let mut inner = copy_env(env);
        self.infer_block(block, &mut inner)
    }

    fn infer_statements(&self, items: &Vec<Statement<'s>>, env: &mut Env<'s>) -> (out: &'s Vec<
        Statement<'s>,
    >)
        ensures
            (statement_forms(out@), env_view(final(env)@)) == infer_statement_forms(
                statement_forms(items@),
                0,
                seq![],
                env_view(old(env)@),
                self.templates@,
            ),
        decreases items@, 2nat,
    {
        let ghost forms = statement_forms(items@);
        let ghost set = self.templates@;
        let mut out: Vec<Statement<'s>> = Vec::new();
        assert(statement_forms(out@) =~= seq![]);
        let mut i: usize = 0;
        while i < items.len()
            invariant
                i <= items@.len(),
                forms == statement_forms(items@),
                set == self.templates@,
                infer_statement_forms(
                    forms,
                    i as nat,
                    statement_forms(out@),
                    env_view(env@),
                    set,
                ) == infer_statement_forms(forms, 0, seq![], env_view(old(env)@), set),
            decreases items@.len() - i,
        {
            assert(decreases_to!(items@ => items@[i as int]));
            assert(forms[i as int] == statement_form(items@[i as int]));
            let ghost before = out@;
            let statement = self.infer_body_stmt(&items[i], env);
            out.push(statement);
            assert(statement_forms(out@) =~= statement_forms(before).push(
                statement_form(statement),
            ));
            i += 1;
        }
        self.arena.place(out)
    }

    fn infer_if(&self, statement: &If<'s>, env: &Env<'s>) -> (out: If<'s>)
        ensures
            if_form(out) == infer_if_form(if_form(*statement), env_view(env@), self.templates@),
        decreases statement, 3nat,
    {
        let else_branch: Option<&'s Else<'s>> = match statement.else_branch {
            Some(branch) => Some(self.arena.place(self.infer_else(branch, env))),
            None => None,
        };
        If {
            condition: self.infer_expr(&statement.condition, env),
            then_branch: self.infer_inner(&statement.then_branch, env),
            else_branch,
            span: statement.span,
        }
    }

    fn infer_else(&self, branch: &Else<'s>, env: &Env<'s>) -> (out: Else<'s>)
        ensures
            else_form(out) == infer_else_form(else_form(*branch), env_view(env@), self.templates@),
        decreases branch, 0nat,
    {
        match *branch {
            Else::If(nested) => Else::If(self.infer_if(&nested, env)),
            Else::Block(block) => Else::Block(self.infer_inner(&block, env)),
            Else::Expr(expr) => Else::Expr(self.infer_expr(&expr, env)),
        }
    }

    /// Fills in the type arguments of a statement, and notes the variable it introduces.
    fn infer_body_stmt(&self, statement: &Statement<'s>, env: &mut Env<'s>) -> (out: Statement<'s>)
        ensures
            (statement_form(out), env_view(final(env)@)) == infer_statement_form(
                statement_form(*statement),
                env_view(old(env)@),
                self.templates@,
            ),
        decreases statement, 0nat,
    {
        match *statement {
            Statement::Let(s) => {
                let value = self.infer_value(&s.value, env);
                let typ = match &s.typ {
                    Some(typ) => Some(typ.value),
                    None => match &value {
                        Some(value) => self.infer_expr_type(value, env),
                        None => None,
                    },
                };
                if let Some(typ) = typ {
                    bind(env, s.name, typ);
                }
                Statement::Let(
                    Let {
                        name: s.name,
                        name_span: s.name_span,
                        typ: s.typ,
                        value,
                        mutable: s.mutable,
                        span: s.span,
                    },
                )
            },
            Statement::Return(s) => Statement::Return(
                Return { value: self.infer_value(&s.value, env), span: s.span },
            ),
            Statement::If(s) => Statement::If(self.infer_if(&s, env)),
            Statement::While(s) => {
                let condition = self.infer_expr(&s.condition, env);
                let body = self.infer_block(&s.body, env);
                Statement::While(While { condition, body, span: s.span })
            },
            Statement::Expr(expr, ended) => Statement::Expr(self.infer_expr(&expr, env), ended),
            Statement::Block(block) => Statement::Block(self.infer_inner(&block, env)),
            Statement::Match(s) => Statement::Match(
                Match {
                    scrutinee: self.infer_expr(&s.scrutinee, env),
                    arms: self.infer_arms(s.arms, env),
                    span: s.span,
                },
            ),
            _ => *statement,
        }
    }

    /// Fills in the type arguments of a function.
    fn infer_fn(&self, item: &Function<'s>) -> (out: Function<'s>)
        ensures
            function_form(out) == infer_function_form(function_form(*item), self.templates@),
    {
        let mut env: Env<'s> = Vec::new();
        let mut i: usize = 0;
        while i < item.params.len()
            invariant
                i <= item.params@.len(),
                env@.len() == i,
                forall|j: int|
                    0 <= j < i ==> (#[trigger] env@[j]).0 == item.params@[j].name && env@[j].1
                        == item.params@[j].typ.value,
            decreases item.params@.len() - i,
        {
            env.push((item.params[i].name, item.params[i].typ.value));
            i += 1;
        }
        assert(env_view(env@) =~= param_env(param_forms(item.params@)));
        let body = self.infer_block(&item.body, &mut env);
        Function {
            name: item.name,
            generics: item.generics,
            receiver: item.receiver,
            params: item.params,
            return_type: item.return_type,
            body,
            impl_type: item.impl_type,
            is_const: item.is_const,
            is_pub: item.is_pub,
            inline: item.inline,
            span: item.span,
        }
    }

    /// Fills in the type arguments of a statement of a module.
    pub fn infer_stmt(&self, statement: &Statement<'s>) -> (out: Statement<'s>)
        ensures
            top_form(out) == infer_top_form(top_form(*statement), self.templates@),
    {
        match *statement {
            Statement::Item(item) => match item.kind {
                ItemKind::Fn(function) => Statement::Item(
                    Item {
                        docs: item.docs,
                        kind: ItemKind::Fn(self.arena.place(self.infer_fn(function))),
                    },
                ),
                ItemKind::Impl(block) => {
                    let ghost set = self.templates@;
                    let ghost wanted = infer_methods(function_forms(block.methods@), set);
                    let mut methods: Vec<&'s Function<'s>> = Vec::new();
                    let mut i: usize = 0;
                    while i < block.methods.len()
                        invariant
                            i <= block.methods@.len(),
                            methods@.len() == i,
                            set == self.templates@,
                            wanted == infer_methods(function_forms(block.methods@), set),
                            forall|j: int|
                                0 <= j < i ==> function_form(*(#[trigger] methods@[j])) == wanted[j],
                        decreases block.methods@.len() - i,
                    {
                        methods.push(self.arena.place(self.infer_fn(block.methods[i])));
                        i += 1;
                    }
                    assert(function_forms(methods@) =~= wanted);
                    let methods = self.arena.place_slice(&methods);
                    Statement::Item(
                        Item {
                            docs: item.docs,
                            kind: ItemKind::Impl(self.arena.place(Impl { methods, ..*block })),
                        },
                    )
                },
                _ => *statement,
            },
            _ => *statement,
        }
    }
}

fn find_field<'s>(fields: &Vec<Field<'s>>, name: &str) -> (found: Option<Field<'s>>)
    ensures
        found == field_named(fields@, name@, 0),
{
    let mut i: usize = 0;
    while i < fields.len()
        invariant
            i <= fields@.len(),
            field_named(fields@, name@, i as nat) == field_named(fields@, name@, 0),
        decreases fields@.len() - i,
    {
        if text_eq(fields[i].name, name) {
            return Some(fields[i]);
        }
        i += 1;
    }
    None
}

fn find_variant<'s>(variants: &Vec<EnumVariant<'s>>, name: &str) -> (found: Option<EnumVariant<'s>>)
    ensures
        found == variant_named(variants@, name@, 0),
{
    let mut i: usize = 0;
    while i < variants.len()
        invariant
            i <= variants@.len(),
            variant_named(variants@, name@, i as nat) == variant_named(variants@, name@, 0),
        decreases variants@.len() - i,
    {
        if text_eq(variants[i].name, name) {
            return Some(variants[i]);
        }
        i += 1;
    }
    None
}

} // verus!
