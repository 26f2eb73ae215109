//! The copy of a template says what the template says, with its type parameters replaced.

use crate::hir::monomorph::copies::{
    copy_enum, copy_function, copy_impl, copy_struct, rewrite_form, subst_arm_forms,
    subst_block_form, subst_else_form, subst_expr_form, subst_expr_forms, subst_if_form,
    subst_init_forms, subst_interface_form, subst_param_forms, subst_statement_form,
    subst_statement_forms,
};
use crate::hir::monomorph::form::{
    ArmForm, BlockForm, ElseForm, EnumForm, ExprForm, FunctionForm, IfForm, ImplForm, InitForm,
    InterfaceForm, ItemForm, MethodForm, ParamForm, StatementForm, StructForm, TopForm,
};
use crate::hir::monomorph::shape::{copy_name, Shape, ShapeAt};
use crate::hir::monomorph::subst::{bound, subst_shape, Bindings};
use crate::hir::monomorph::templates::TemplateSet;
use vstd::prelude::*;

verus! {

/// Whether a type is another with its parameters replaced: a parameter by what it stands for, a use
/// of a generic type by the name of its copy for the replaced arguments.
pub open spec fn is_replaced(source: Shape, copy: Shape, env: Bindings) -> bool
    decreases source,
{
    match (source, copy) {
        (Shape::Named(name), _) => match bound(env, name) {
            Some(typ) => copy == typ,
            None => copy == source,
        },
        (Shape::Ref(a, m), Shape::Ref(b, n)) => m == n && is_replaced(*a, *b, env),
        (Shape::Array(a, m), Shape::Array(b, n)) => m == n && is_replaced(*a, *b, env),
        (Shape::Slice(a, m), Shape::Slice(b, n)) => m == n && is_replaced(*a, *b, env),
        (Shape::Generic(name, args), Shape::Named(copied)) => exists|given: Seq<Shape>| {
            &&& #[trigger] given.len() == args.len()
            &&& copied == copy_name(name, given)
            &&& forall|i: int|
                0 <= i < args.len() ==> is_replaced(args[i], #[trigger] given[i], env)
        },
        (Shape::Word(_), _) | (Shape::SelfType, _) | (Shape::RefSelf, _) => copy == source,
        _ => false,
    }
}

/// Replacing the parameters of a type does that.
pub proof fn lemma_replaced(typ: Shape, env: Bindings)
    ensures
        is_replaced(typ, subst_shape(typ, env), env),
    decreases typ,
{
    match typ {
        Shape::Ref(inner, _) => {
            lemma_replaced(*inner, env);
        },
        Shape::Array(inner, _) => {
            lemma_replaced(*inner, env);
        },
        Shape::Slice(inner, _) => {
            lemma_replaced(*inner, env);
        },
        Shape::Generic(name, args) => {
            let given = crate::hir::monomorph::subst::subst_shapes(args, env);
            assert forall|i: int| 0 <= i < args.len() implies is_replaced(
                args[i],
                #[trigger] given[i],
                env,
            ) by {
                lemma_replaced(args[i], env);
            }
            assert(given.len() == args.len());
        },
        _ => {},
    }
}

pub open spec fn is_replaced_at(source: ShapeAt, copy: ShapeAt, env: Bindings) -> bool {
    copy.span == source.span && is_replaced(source.shape, copy.shape, env)
}

pub open spec fn is_replaced_option(
    source: Option<ShapeAt>,
    copy: Option<ShapeAt>,
    env: Bindings,
) -> bool {
    match (source, copy) {
        (Some(a), Some(b)) => is_replaced_at(a, b, env),
        (None, None) => true,
        _ => false,
    }
}

/// Whether a name is kept, or replaced by that of a copy where arguments are given.
pub open spec fn is_used(name: Seq<char>, args: Seq<ShapeAt>, copy: Seq<char>, env: Bindings) -> bool {
    if args.len() == 0 {
        copy == name
    } else {
        exists|given: Seq<Shape>| {
            &&& #[trigger] given.len() == args.len()
            &&& copy == copy_name(name, given)
            &&& forall|i: int|
                0 <= i < args.len() ==> is_replaced(args[i].shape, #[trigger] given[i], env)
        }
    }
}

/// Whether an expression is the copy of another: the same operators and literals on the copies of
/// its parts, in their order.
pub open spec fn is_copy(source: ExprForm, copy: ExprForm, env: Bindings, set: TemplateSet) -> bool
    decreases source, 0nat,
{
    match (source, copy) {
        (
            ExprForm::Unary { operator: a, expr: b, span: c },
            ExprForm::Unary { operator, expr, span },
        ) => operator == a && span == c && is_copy(*b, *expr, env, set),
        (
            ExprForm::Binary { left: a, operator: b, right: c, span: d },
            ExprForm::Binary { left, operator, right, span },
        ) => operator == b && span == d && is_copy(*a, *left, env, set) && is_copy(
            *c,
            *right,
            env,
            set,
        ),
        (
            ExprForm::Assignment { target: a, value: b, span: c },
            ExprForm::Assignment { target, value, span },
        ) => span == c && is_copy(*a, *target, env, set) && is_copy(*b, *value, env, set),
        (
            ExprForm::Cast { expr: a, target_type: b, span: c },
            ExprForm::Cast { expr, target_type, span },
        ) => span == c && is_copy(*a, *expr, env, set) && is_replaced_at(b, target_type, env),
        (
            ExprForm::Struct { name: a, fields: b, type_args: c, span: d },
            ExprForm::Struct { name, fields, type_args, span },
        ) => span == d && type_args.len() == 0 && is_used(a, c, name, env) && are_init_copies(
            b,
            fields,
            env,
            set,
        ),
        (
            ExprForm::Field { expr: a, field: b, span: c },
            ExprForm::Field { expr, field, span },
        ) => span == c && field == b && is_copy(*a, *expr, env, set),
        (
            ExprForm::Call { callee: a, args: b, type_args: c, span: d },
            ExprForm::Call { callee, args, type_args, span },
        ) => span == d && type_args.len() == 0 && are_copies(b, args, env, set) && match (
            *a,
            *callee,
        ) {
            (ExprForm::Identifier(name, at), ExprForm::Identifier(copied, place)) => place == at
                && is_used(name, c, copied, env),
            (ExprForm::Identifier(..), _) => false,
            _ => is_copy(*a, *callee, env, set),
        },
        (
            ExprForm::QualifiedCall { qualifier: a, name: b, args: c, type_args: d, span: e },
            ExprForm::QualifiedCall { qualifier, name, args, type_args, span },
        ) => span == e && type_args.len() == 0 && are_copies(c, args, env, set) && if set.has(a) {
            is_used(a, d, qualifier, env) && name == b
        } else {
            qualifier == a && is_used(b, d, name, env)
        },
        (ExprForm::Unary { .. }, _) | (ExprForm::Binary { .. }, _) => false,
        (ExprForm::Assignment { .. }, _) | (ExprForm::Cast { .. }, _) => false,
        (ExprForm::Struct { .. }, _) | (ExprForm::Field { .. }, _) => false,
        (ExprForm::Call { .. }, _) | (ExprForm::QualifiedCall { .. }, _) => false,
        _ => copy == source,
    }
}

pub open spec fn are_copies(
    sources: Seq<ExprForm>,
    copies: Seq<ExprForm>,
    env: Bindings,
    set: TemplateSet,
) -> bool
    decreases sources, 0nat,
{
    copies.len() == sources.len() && forall|i: int|
        0 <= i < sources.len() ==> is_copy(sources[i], #[trigger] copies[i], env, set)
}

pub open spec fn are_init_copies(
    sources: Seq<InitForm>,
    copies: Seq<InitForm>,
    env: Bindings,
    set: TemplateSet,
) -> bool
    decreases sources, 0nat,
{
    copies.len() == sources.len() && forall|i: int|
        0 <= i < sources.len() ==> (#[trigger] copies[i]).name == sources[i].name && copies[i].span
            == sources[i].span && is_copy(sources[i].value, copies[i].value, env, set)
}

proof fn lemma_used(name: Seq<char>, args: Seq<ShapeAt>, env: Bindings)
    ensures
        is_used(
            name,
            args,
            crate::hir::monomorph::copies::used_name(
                name,
                crate::hir::monomorph::subst::subst_all_at(args, env),
            ),
            env,
        ),
{
    if args.len() > 0 {
        let given = crate::hir::monomorph::shape::bare(
            crate::hir::monomorph::subst::subst_all_at(args, env),
        );
        assert forall|i: int| 0 <= i < args.len() implies is_replaced(
            args[i].shape,
            #[trigger] given[i],
            env,
        ) by {
            lemma_replaced(args[i].shape, env);
        }
        assert(given.len() == args.len());
    }
}

/// The copy of an expression is one.
pub proof fn lemma_expr_copied(expr: ExprForm, env: Bindings, set: TemplateSet)
    ensures
        is_copy(expr, subst_expr_form(expr, env, set), env, set),
    decreases expr, 0nat,
{
    match expr {
        ExprForm::Unary { operator, expr: part, span } => {
            lemma_expr_copied(*part, env, set);
        },
        ExprForm::Binary { left, operator, right, span } => {
            lemma_expr_copied(*left, env, set);
            lemma_expr_copied(*right, env, set);
        },
        ExprForm::Assignment { target, value, span } => {
            lemma_expr_copied(*target, env, set);
            lemma_expr_copied(*value, env, set);
        },
        ExprForm::Cast { expr: part, target_type, span } => {
            lemma_expr_copied(*part, env, set);
            lemma_replaced(target_type.shape, env);
        },
        ExprForm::Struct { name, fields, type_args, span } => {
            lemma_used(name, type_args, env);
            let copies = subst_init_forms(fields, env, set);
            assert forall|i: int| 0 <= i < fields.len() implies (#[trigger] copies[i]).name
                == fields[i].name && copies[i].span == fields[i].span && is_copy(
                fields[i].value,
                copies[i].value,
                env,
                set,
            ) by {
                lemma_expr_copied(fields[i].value, env, set);
            }
            assert(are_init_copies(fields, copies, env, set));
        },
        ExprForm::Field { expr: part, field, span } => {
            lemma_expr_copied(*part, env, set);
        },
        ExprForm::Call { callee, args, type_args, span } => {
            lemma_exprs_copied(args, env, set);
            match *callee {
                ExprForm::Identifier(name, _) => {
                    lemma_used(name, type_args, env);
                },
                _ => {
                    lemma_expr_copied(*callee, env, set);
                },
            }
        },
        ExprForm::QualifiedCall { qualifier, name, args, type_args, span } => {
            lemma_exprs_copied(args, env, set);
            lemma_used(qualifier, type_args, env);
            lemma_used(name, type_args, env);
        },
        _ => {},
    }
}

proof fn lemma_exprs_copied(items: Seq<ExprForm>, env: Bindings, set: TemplateSet)
    ensures
        are_copies(items, subst_expr_forms(items, env, set), env, set),
    decreases items, 1nat,
{
    let copies = subst_expr_forms(items, env, set);
    assert forall|i: int| 0 <= i < items.len() implies is_copy(
        items[i],
        #[trigger] copies[i],
        env,
        set,
    ) by {
        lemma_expr_copied(items[i], env, set);
    }
}

pub open spec fn is_option_copy(
    source: Option<ExprForm>,
    copy: Option<ExprForm>,
    env: Bindings,
    set: TemplateSet,
) -> bool {
    match (source, copy) {
        (Some(a), Some(b)) => is_copy(a, b, env, set),
        (None, None) => true,
        _ => false,
    }
}

/// Whether an arm is the copy of another: its guard and pattern stay.
pub open spec fn is_arm_copy<'s>(source: ArmForm<'s>, copy: ArmForm<'s>, env: Bindings, set: TemplateSet) -> bool {
    &&& copy.pattern == source.pattern
    &&& copy.guard == source.guard
    &&& copy.span == source.span
    &&& is_copy(source.body, copy.body, env, set)
}

/// Whether a statement is the copy of another. Loops stay as they are.
pub open spec fn is_statement_copy<'s>(
    source: StatementForm<'s>,
    copy: StatementForm<'s>,
    env: Bindings,
    set: TemplateSet,
) -> bool
    decreases source, 0nat,
{
    match (source, copy) {
        (StatementForm::Let(a), StatementForm::Let(b)) => {
            &&& b.name == a.name
            &&& b.name_span == a.name_span
            &&& b.mutable == a.mutable
            &&& b.span == a.span
            &&& is_replaced_option(a.typ, b.typ, env)
            &&& is_option_copy(a.value, b.value, env, set)
        },
        (StatementForm::Return(a, s), StatementForm::Return(b, t)) => s == t && is_option_copy(
            a,
            b,
            env,
            set,
        ),
        (StatementForm::If(a), StatementForm::If(b)) => is_if_copy(a, b, env, set),
        (
            StatementForm::While { condition: a, body: b, span: c },
            StatementForm::While { condition, body, span },
        ) => span == c && is_copy(a, condition, env, set) && is_block_copy(b, body, env, set),
        (StatementForm::Expr(a, s), StatementForm::Expr(b, t)) => s == t && is_copy(a, b, env, set),
        (StatementForm::Block(a), StatementForm::Block(b)) => is_block_copy(a, b, env, set),
        (
            StatementForm::Match { scrutinee: a, arms: b, span: c },
            StatementForm::Match { scrutinee, arms, span },
        ) => span == c && is_copy(a, scrutinee, env, set) && arms.len() == b.len() && forall|i: int|
            0 <= i < arms.len() ==> is_arm_copy(b[i], #[trigger] arms[i], env, set),
        (StatementForm::Let(_), _) | (StatementForm::Return(..), _) => false,
        (StatementForm::If(_), _) | (StatementForm::While { .. }, _) => false,
        (StatementForm::Expr(..), _) | (StatementForm::Block(_), _) => false,
        (StatementForm::Match { .. }, _) => false,
        _ => copy == source,
    }
}

pub open spec fn is_if_copy<'s>(source: IfForm<'s>, copy: IfForm<'s>, env: Bindings, set: TemplateSet) -> bool
    decreases source, 0nat,
{
    &&& copy.span == source.span
    &&& is_copy(source.condition, copy.condition, env, set)
    &&& is_block_copy(source.then_branch, copy.then_branch, env, set)
    &&& match (source.else_branch, copy.else_branch) {
        (Some(a), Some(b)) => is_else_copy(*a, *b, env, set),
        (None, None) => true,
        _ => false,
    }
}

pub open spec fn is_else_copy<'s>(source: ElseForm<'s>, copy: ElseForm<'s>, env: Bindings, set: TemplateSet) -> bool
    decreases source, 0nat,
{
    match (source, copy) {
        (ElseForm::If(a), ElseForm::If(b)) => is_if_copy(a, b, env, set),
        (ElseForm::Block(a), ElseForm::Block(b)) => is_block_copy(a, b, env, set),
        (ElseForm::Expr(a), ElseForm::Expr(b)) => is_copy(a, b, env, set),
        _ => false,
    }
}

/// Whether a block is the copy of another, statement by statement.
pub open spec fn is_block_copy<'s>(source: BlockForm<'s>, copy: BlockForm<'s>, env: Bindings, set: TemplateSet) -> bool
    decreases source, 1nat,
{
    copy.span == source.span && are_statement_copies(source.statements, copy.statements, env, set)
}

pub open spec fn are_statement_copies<'s>(
    sources: Seq<StatementForm<'s>>,
    copies: Seq<StatementForm<'s>>,
    env: Bindings,
    set: TemplateSet,
) -> bool
    decreases sources, 0nat,
{
    copies.len() == sources.len() && forall|i: int|
        0 <= i < sources.len() ==> is_statement_copy(sources[i], #[trigger] copies[i], env, set)
}

/// The copy of a statement is one.
pub proof fn lemma_statement_copied<'s>(statement: StatementForm<'s>, env: Bindings, set: TemplateSet)
    ensures
        is_statement_copy(statement, subst_statement_form(statement, env, set), env, set),
    decreases statement, 0nat,
{
    match statement {
        StatementForm::Let(s) => {
            if let Some(typ) = s.typ {
                lemma_replaced(typ.shape, env);
            }
            if let Some(value) = s.value {
                lemma_expr_copied(value, env, set);
            }
        },
        StatementForm::Return(value, _) => if let Some(value) = value {
            lemma_expr_copied(value, env, set);
        },
        StatementForm::If(s) => {
            lemma_if_copied(s, env, set);
        },
        StatementForm::While { condition, body, span } => {
            lemma_expr_copied(condition, env, set);
            lemma_block_copied(body, env, set);
        },
        StatementForm::Expr(expr, _) => {
            lemma_expr_copied(expr, env, set);
        },
        StatementForm::Block(block) => {
            lemma_block_copied(block, env, set);
        },
        StatementForm::Match { scrutinee, arms, span } => {
            lemma_expr_copied(scrutinee, env, set);
            let copies = subst_arm_forms(arms, env, set);
            assert forall|i: int| 0 <= i < copies.len() implies is_arm_copy(
                arms[i],
                #[trigger] copies[i],
                env,
                set,
            ) by {
                lemma_expr_copied(arms[i].body, env, set);
            }
        },
        _ => {},
    }
}

proof fn lemma_if_copied<'s>(statement: IfForm<'s>, env: Bindings, set: TemplateSet)
    ensures
        is_if_copy(statement, subst_if_form(statement, env, set), env, set),
    decreases statement, 1nat,
{
    lemma_expr_copied(statement.condition, env, set);
    lemma_block_copied(statement.then_branch, env, set);
    if let Some(branch) = statement.else_branch {
        lemma_else_copied(*branch, env, set);
    }
}

proof fn lemma_else_copied<'s>(branch: ElseForm<'s>, env: Bindings, set: TemplateSet)
    ensures
        is_else_copy(branch, subst_else_form(branch, env, set), env, set),
    decreases branch, 0nat,
{
    match branch {
        ElseForm::If(nested) => {
            lemma_if_copied(nested, env, set);
        },
        ElseForm::Block(block) => {
            lemma_block_copied(block, env, set);
        },
        ElseForm::Expr(expr) => {
            lemma_expr_copied(expr, env, set);
        },
    }
}

proof fn lemma_block_copied<'s>(block: BlockForm<'s>, env: Bindings, set: TemplateSet)
    ensures
        is_block_copy(block, subst_block_form(block, env, set), env, set),
    decreases block, 1nat,
{
    let copies = subst_statement_forms(block.statements, env, set);
    assert forall|i: int| 0 <= i < block.statements.len() implies is_statement_copy(
        block.statements[i],
        #[trigger] copies[i],
        env,
        set,
    ) by {
        lemma_statement_copied(block.statements[i], env, set);
    }
    assert(are_statement_copies(block.statements, copies, env, set));
}

/// Whether a function is the copy of another: the same parameters and body, with its types replaced.
pub open spec fn is_function_copy<'s>(
    source: FunctionForm<'s>,
    copy: FunctionForm<'s>,
    env: Bindings,
    set: TemplateSet,
) -> bool {
    &&& copy.generics.len() == 0
    &&& copy.receiver == source.receiver
    &&& copy.is_const == source.is_const
    &&& copy.is_pub == source.is_pub
    &&& copy.inline == source.inline
    &&& copy.span == source.span
    &&& copy.params.len() == source.params.len()
    &&& forall|i: int|
        0 <= i < source.params.len() ==> (#[trigger] copy.params[i]).name == source.params[i].name
            && copy.params[i].mutable == source.params[i].mutable && copy.params[i].span
            == source.params[i].span && is_replaced_at(source.params[i].typ, copy.params[i].typ, env)
    &&& is_replaced_option(source.return_type, copy.return_type, env)
    &&& is_block_copy(source.body, copy.body, env, set)
}

/// The copy of a function template is one, under the name it is given.
pub proof fn lemma_function_copied<'s>(item: FunctionForm<'s>, name: Seq<char>, env: Bindings, set: TemplateSet)
    ensures
        is_function_copy(item, copy_function(item, name, env, set), env, set),
        copy_function(item, name, env, set).name == name,
        copy_function(item, name, env, set).impl_type == item.impl_type,
{
    let copy = copy_function(item, name, env, set);
    lemma_block_copied(item.body, env, set);
    if let Some(typ) = item.return_type {
        lemma_replaced(typ.shape, env);
    }
    assert forall|i: int| 0 <= i < item.params.len() implies (#[trigger] copy.params[i]).name
        == item.params[i].name && copy.params[i].mutable == item.params[i].mutable
        && copy.params[i].span == item.params[i].span && is_replaced_at(
        item.params[i].typ,
        copy.params[i].typ,
        env,
    ) by {
        lemma_replaced(item.params[i].typ.shape, env);
    }
}

/// The copy of a struct template has its fields in their order, with their types replaced, and the
/// copy of an enum template its variants.
pub proof fn lemma_types_copied<'s>(
    structure: StructForm<'s>,
    enumeration: EnumForm<'s>,
    name: Seq<char>,
    env: Bindings,
)
    ensures
        ({
            let copy = copy_struct(structure, name, env);
            &&& copy.name == name
            &&& copy.generics.len() == 0
            &&& copy.repr == structure.repr
            &&& copy.is_pub == structure.is_pub
            &&& copy.fields.len() == structure.fields.len()
            &&& forall|i: int|
                0 <= i < copy.fields.len() ==> (#[trigger] copy.fields[i]).name
                    == structure.fields[i].name && copy.fields[i].span == structure.fields[i].span
                    && is_replaced_at(structure.fields[i].typ, copy.fields[i].typ, env)
        }),
        ({
            let copy = copy_enum(enumeration, name, env);
            &&& copy.name == name
            &&& copy.generics.len() == 0
            &&& copy.repr == enumeration.repr
            &&& copy.is_pub == enumeration.is_pub
            &&& copy.variants.len() == enumeration.variants.len()
            &&& forall|i: int|
                0 <= i < copy.variants.len() ==> (#[trigger] copy.variants[i]).name
                    == enumeration.variants[i].name && copy.variants[i].value
                    == enumeration.variants[i].value && is_replaced_option(
                    enumeration.variants[i].payload,
                    copy.variants[i].payload,
                    env,
                )
        }),
{
    let first = copy_struct(structure, name, env);
    assert forall|i: int| 0 <= i < first.fields.len() implies (#[trigger] first.fields[i]).name
        == structure.fields[i].name && first.fields[i].span == structure.fields[i].span
        && is_replaced_at(structure.fields[i].typ, first.fields[i].typ, env) by {
        lemma_replaced(structure.fields[i].typ.shape, env);
    }
    let second = copy_enum(enumeration, name, env);
    assert forall|i: int| 0 <= i < second.variants.len() implies (#[trigger] second.variants[i]).name
        == enumeration.variants[i].name && second.variants[i].value
        == enumeration.variants[i].value && is_replaced_option(
        enumeration.variants[i].payload,
        second.variants[i].payload,
        env,
    ) by {
        if let Some(typ) = enumeration.variants[i].payload {
            lemma_replaced(typ.shape, env);
        }
    }
}

/// The copy of an `impl` template has a copy of each of its methods, under the method's own name.
pub proof fn lemma_impl_copied<'s>(
    item: ImplForm<'s>,
    receiver: Seq<char>,
    env: Bindings,
    set: TemplateSet,
    i: int,
)
    requires
        0 <= i < item.methods.len(),
    ensures
        ({
            let copy = copy_impl(item, receiver, env, set);
            &&& copy.name == receiver
            &&& copy.methods.len() == item.methods.len()
            &&& copy.methods[i].name == item.methods[i].name
            &&& copy.methods[i].impl_type == Some(receiver)
            &&& is_function_copy(item.methods[i], copy.methods[i], env, set)
        }),
{
    lemma_function_copied(item.methods[i], item.methods[i].name, env, set);
}

/// In a module that refers to copies, functions and default methods keep everything but their types
/// and bodies, and each use of a template in these is replaced by the name of its copy.
pub proof fn lemma_module_rewritten<'s>(
    function: FunctionForm<'s>,
    interface: InterfaceForm<'s>,
    docs: Seq<&'s str>,
    set: TemplateSet,
)
    ensures
        match rewrite_form(TopForm::Item { docs, kind: ItemForm::Fn(function) }, set) {
            TopForm::Item { docs: kept, kind: ItemForm::Fn(after) } => {
                &&& kept == docs
                &&& after == (FunctionForm {
                    params: after.params,
                    return_type: after.return_type,
                    body: after.body,
                    ..function
                })
                &&& are_params_replaced(function.params, after.params, seq![])
                &&& is_replaced_option(function.return_type, after.return_type, seq![])
                &&& is_block_copy(function.body, after.body, seq![], set)
            },
            _ => false,
        },
        match rewrite_form(TopForm::Item { docs, kind: ItemForm::Interface(interface) }, set) {
            TopForm::Item { docs: kept, kind: ItemForm::Interface(after) } => {
                &&& kept == docs
                &&& after == (InterfaceForm { methods: after.methods, ..interface })
                &&& after.methods.len() == interface.methods.len()
                &&& forall|i: int|
                    0 <= i < after.methods.len() ==> is_method_copy(
                        interface.methods[i],
                        #[trigger] after.methods[i],
                        set,
                    )
            },
            _ => false,
        },
{
    let none: Bindings = seq![];
    lemma_params_replaced(function.params, none);
    lemma_block_copied(function.body, none, set);
    if let Some(typ) = function.return_type {
        lemma_replaced(typ.shape, none);
    }
    let after = subst_interface_form(interface, none, set);
    assert forall|i: int| 0 <= i < after.methods.len() implies is_method_copy(
        interface.methods[i],
        #[trigger] after.methods[i],
        set,
    ) by {
        let method = interface.methods[i];
        lemma_params_replaced(method.params, none);
        if let Some(typ) = method.return_type {
            lemma_replaced(typ.shape, none);
        }
        if let Some(block) = method.default {
            lemma_block_copied(block, none, set);
        }
    }
}

pub open spec fn are_params_replaced<'s>(
    source: Seq<ParamForm<'s>>,
    copy: Seq<ParamForm<'s>>,
    env: Bindings,
) -> bool {
    copy.len() == source.len() && forall|i: int|
        0 <= i < source.len() ==> {
            &&& #[trigger] copy[i] == (ParamForm { typ: copy[i].typ, ..source[i] })
            &&& is_replaced_at(source[i].typ, copy[i].typ, env)
        }
}

/// Whether a method of an interface is another one with each use replaced by the name of its copy.
pub open spec fn is_method_copy<'s>(
    source: MethodForm<'s>,
    copy: MethodForm<'s>,
    set: TemplateSet,
) -> bool {
    &&& copy == (MethodForm {
        params: copy.params,
        return_type: copy.return_type,
        default: copy.default,
        ..source
    })
    &&& are_params_replaced(source.params, copy.params, seq![])
    &&& is_replaced_option(source.return_type, copy.return_type, seq![])
    &&& match (source.default, copy.default) {
        (Some(a), Some(b)) => is_block_copy(a, b, seq![], set),
        (None, None) => true,
        _ => false,
    }
}

proof fn lemma_params_replaced<'s>(params: Seq<ParamForm<'s>>, env: Bindings)
    ensures
        are_params_replaced(params, subst_param_forms(params, env), env),
{
    let copy = subst_param_forms(params, env);
    assert forall|i: int| 0 <= i < params.len() implies is_replaced_at(
        params[i].typ,
        (#[trigger] copy[i]).typ,
        env,
    ) by {
        lemma_replaced(params[i].typ.shape, env);
    }
}

} // verus!
