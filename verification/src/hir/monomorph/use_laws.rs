//! Why no use of a template is overlooked.

use crate::ast::{Impl, ItemKind, Statement};
use crate::hir::mono::MAX_INSTANCES;
use crate::hir::monomorph::collect::{Use, Uses};
use crate::hir::monomorph::copies::{copy_enum, copy_function, copy_impl, copy_struct};
use crate::hir::monomorph::expand::{
    bare_item, monomorphised, receiver_name, rewrite_forms, Progress,
};
use crate::hir::monomorph::form::{
    enum_form, function_form, impl_form, struct_form, ArmForm, BlockForm, ElseForm, ExprForm,
    FieldForm, FunctionForm, IfForm, InitForm, ItemForm, MethodForm, ParamForm, StatementForm,
    TopForm, VariantForm,
};
use crate::hir::monomorph::infer::{applied, infer_top_forms};
use crate::hir::monomorph::shape::{bare, copy_name, Shape, ShapeAt};
use crate::hir::monomorph::subst::Bindings;
use crate::hir::monomorph::templates::TemplateSet;
use vstd::prelude::*;

verus! {

/// Whether a type applies the given name to the given arguments somewhere.
pub open spec fn type_applies(typ: Shape, used: Use) -> bool
    decreases typ, 0nat,
{
    match typ {
        Shape::Ref(inner, _) => type_applies(*inner, used),
        Shape::Array(inner, _) => type_applies(*inner, used),
        Shape::Slice(inner, _) => type_applies(*inner, used),
        Shape::Generic(name, args) => (name, args) == used || types_apply(args, used),
        _ => false,
    }
}

pub open spec fn types_apply(types: Seq<Shape>, used: Use) -> bool
    decreases types, 0nat,
{
    exists|i: int| 0 <= i < types.len() && type_applies(#[trigger] types[i], used)
}

pub open spec fn written_applies(typ: Option<ShapeAt>, used: Use) -> bool {
    match typ {
        Some(typ) => type_applies(typ.shape, used),
        None => false,
    }
}

/// Whether an expression applies a name to arguments: `f<A>(..)`, `S<A> { .. }`, or `Q::m<A>(..)`,
/// where the arguments belong to `Q` if that is a template.
pub open spec fn applies(expr: ExprForm, set: TemplateSet, used: Use) -> bool {
    match expr {
        ExprForm::Call { callee, type_args, .. } => match *callee {
            ExprForm::Identifier(name, _) => type_args.len() > 0 && (name, bare(type_args)) == used,
            _ => false,
        },
        ExprForm::Struct { name, type_args, .. } => type_args.len() > 0 && (name, bare(type_args))
            == used,
        ExprForm::QualifiedCall { qualifier, name, type_args, .. } => type_args.len() > 0 && (
            if set.has(qualifier) {
                qualifier
            } else {
                name
            },
            bare(type_args),
        ) == used,
        _ => false,
    }
}

/// Whether an expression, or one that stands in it, applies a name to arguments.
pub open spec fn expr_applies(expr: ExprForm, set: TemplateSet, used: Use) -> bool
    decreases expr, 0nat,
{
    applies(expr, set, used) || match expr {
        ExprForm::Call { callee, args, .. } => expr_applies(*callee, set, used) || exprs_apply(
            args,
            set,
            used,
        ),
        ExprForm::Struct { fields, .. } => inits_apply(fields, set, used),
        ExprForm::QualifiedCall { args, .. } => exprs_apply(args, set, used),
        ExprForm::Binary { left, right, .. } => expr_applies(*left, set, used) || expr_applies(
            *right,
            set,
            used,
        ),
        ExprForm::Unary { expr, .. } => expr_applies(*expr, set, used),
        ExprForm::Field { expr, .. } => expr_applies(*expr, set, used),
        ExprForm::Assignment { target, value, .. } => expr_applies(*target, set, used)
            || expr_applies(*value, set, used),
        _ => false,
    }
}

pub open spec fn exprs_apply(items: Seq<ExprForm>, set: TemplateSet, used: Use) -> bool
    decreases items, 0nat,
{
    exists|i: int| 0 <= i < items.len() && expr_applies(#[trigger] items[i], set, used)
}

pub open spec fn inits_apply(items: Seq<InitForm>, set: TemplateSet, used: Use) -> bool
    decreases items, 0nat,
{
    exists|i: int| 0 <= i < items.len() && expr_applies((#[trigger] items[i]).value, set, used)
}

pub open spec fn value_applies(expr: Option<ExprForm>, set: TemplateSet, used: Use) -> bool {
    match expr {
        Some(expr) => expr_applies(expr, set, used),
        None => false,
    }
}

pub open spec fn arms_apply(arms: Seq<ArmForm>, set: TemplateSet, used: Use) -> bool {
    exists|i: int| 0 <= i < arms.len() && expr_applies((#[trigger] arms[i]).body, set, used)
}

/// Whether a name is applied to arguments somewhere in a block.
pub open spec fn block_applies(block: BlockForm, set: TemplateSet, used: Use) -> bool
    decreases block, 1nat,
{
    statements_apply(block.statements, set, used)
}

pub open spec fn statements_apply(items: Seq<StatementForm>, set: TemplateSet, used: Use) -> bool
    decreases items, 0nat,
{
    exists|i: int| 0 <= i < items.len() && statement_applies(#[trigger] items[i], set, used)
}

pub open spec fn if_applies(branch: IfForm, set: TemplateSet, used: Use) -> bool
    decreases branch, 1nat,
{
    expr_applies(branch.condition, set, used) || block_applies(branch.then_branch, set, used) || (
    match branch.else_branch {
        Some(other) => else_applies(*other, set, used),
        None => false,
    })
}

pub open spec fn else_applies(branch: ElseForm, set: TemplateSet, used: Use) -> bool
    decreases branch, 0nat,
{
    match branch {
        ElseForm::If(nested) => if_applies(nested, set, used),
        ElseForm::Block(block) => block_applies(block, set, used),
        ElseForm::Expr(expr) => expr_applies(expr, set, used),
    }
}

/// Whether a name is applied to arguments somewhere in a statement.
pub open spec fn statement_applies(statement: StatementForm, set: TemplateSet, used: Use) -> bool
    decreases statement, 0nat,
{
    match statement {
        StatementForm::Let(s) => written_applies(s.typ, used) || value_applies(s.value, set, used),
        StatementForm::Return(value, _) => value_applies(value, set, used),
        StatementForm::If(s) => if_applies(s, set, used),
        StatementForm::While { condition, body, .. } => expr_applies(condition, set, used)
            || block_applies(body, set, used),
        StatementForm::Match { scrutinee, arms, .. } => expr_applies(scrutinee, set, used)
            || arms_apply(arms, set, used),
        StatementForm::Expr(expr, _) => expr_applies(expr, set, used),
        StatementForm::Block(block) => block_applies(block, set, used),
        StatementForm::Const { item, .. } => type_applies(item.typ.shape, used) || expr_applies(
            item.value,
            set,
            used,
        ),
        _ => false,
    }
}

pub open spec fn params_apply(items: Seq<ParamForm>, used: Use) -> bool {
    exists|i: int| 0 <= i < items.len() && type_applies((#[trigger] items[i]).typ.shape, used)
}

pub open spec fn function_applies(item: FunctionForm, set: TemplateSet, used: Use) -> bool {
    params_apply(item.params, used) || written_applies(item.return_type, used) || block_applies(
        item.body,
        set,
        used,
    )
}

pub open spec fn method_applies(item: MethodForm, set: TemplateSet, used: Use) -> bool {
    params_apply(item.params, used) || written_applies(item.return_type, used) || match item.default {
        Some(block) => block_applies(block, set, used),
        None => false,
    }
}

/// Whether a name is applied to arguments somewhere in a statement of a module.
pub open spec fn top_applies(statement: TopForm, set: TemplateSet, used: Use) -> bool {
    match statement {
        TopForm::Item { kind, .. } => match kind {
            ItemForm::Fn(item) => function_applies(item, set, used),
            ItemForm::Impl(item) => exists|i: int|
                0 <= i < item.methods.len() && function_applies(
                    #[trigger] item.methods[i],
                    set,
                    used,
                ),
            ItemForm::Interface(item) => exists|i: int|
                0 <= i < item.methods.len() && method_applies(#[trigger] item.methods[i], set, used),
            ItemForm::Struct(item) => exists|i: int|
                0 <= i < item.fields.len() && type_applies(
                    (#[trigger] item.fields[i]).typ.shape,
                    used,
                ),
            ItemForm::Enum(item) => exists|i: int|
                0 <= i < item.variants.len() && written_applies(
                    (#[trigger] item.variants[i]).payload,
                    used,
                ),
            ItemForm::Const(item) => type_applies(item.typ.shape, used) || expr_applies(
                item.value,
                set,
                used,
            ),
            ItemForm::Use(_) => false,
        },
        TopForm::Other(statement) => statement_applies(statement, set, used),
    }
}

/// What a walk over a part of a program does to one use: it is noted afterwards if it was before,
/// or if it is one of a template and stands in the part, and not otherwise. It waits for its copy
/// if it did so before or is new.
pub open spec fn notes(before: Uses, after: Uses, set: TemplateSet, used: Use, stands: bool) -> bool {
    &&& after.seen.contains(used) <==> before.seen.contains(used) || (stands && set.has(used.0))
    &&& after.worklist.contains(used) <==> before.worklist.contains(used) || (stands && set.has(
        used.0,
    ) && !before.seen.contains(used))
}

proof fn lemma_add_use(uses: Uses, name: Seq<char>, args: Seq<Shape>, used: Use)
    ensures
        uses.add_use(name, args).seen.contains(used) <==> uses.seen.contains(used) || used == (name, args),
        uses.add_use(name, args).worklist.contains(used) <==> uses.worklist.contains(used) || (used == (
            name,
            args,
        ) && !uses.seen.contains(used)),
{
    if !uses.seen.contains((name, args)) {
        lemma_push(uses.seen, (name, args), used);
        lemma_push(uses.worklist, (name, args), used);
    }
}

proof fn lemma_push(items: Seq<Use>, added: Use, used: Use)
    ensures
        items.push(added).contains(used) <==> items.contains(used) || used == added,
{
    let after = items.push(added);
    if items.contains(used) {
        let i = choose|i: int| 0 <= i < items.len() && items[i] == used;
        assert(after[i] == used);
    }
    assert(after[items.len() as int] == added);
    if after.contains(used) && used != added {
        let i = choose|i: int| 0 <= i < after.len() && after[i] == used;
        assert(items[i] == used);
    }
}

proof fn lemma_type(uses: Uses, item: Shape, set: TemplateSet, used: Use)
    ensures
        notes(uses, uses.in_type(item, set), set, used, type_applies(item, used)),
    decreases item, 0nat,
{
    reveal_with_fuel(type_applies, 3);
    match item {
        Shape::Ref(inner, _) => lemma_type(uses, *inner, set, used),
        Shape::Array(inner, _) => lemma_type(uses, *inner, set, used),
        Shape::Slice(inner, _) => lemma_type(uses, *inner, set, used),
        Shape::Generic(name, args) => {
            lemma_types(uses, args, 0, set, used);
            lemma_add_use(uses.in_types(args, 0, set), name, args, used);
        },
        _ => {},
    }
}

proof fn lemma_types(uses: Uses, items: Seq<Shape>, at: nat, set: TemplateSet, used: Use)
    ensures
        notes(
            uses,
            uses.in_types(items, at, set),
            set,
            used,
            exists|i: int| at <= i < items.len() && type_applies(#[trigger] items[i], used),
        ),
    decreases items, (items.len() - at) as nat,
{
    if at < items.len() {
        let item = items[at as int];
        lemma_type(uses, item, set, used);
        lemma_types(uses.in_type(item, set), items, at + 1, set, used);
    }
}

proof fn lemma_written(uses: Uses, item: Option<ShapeAt>, set: TemplateSet, used: Use)
    ensures
        notes(uses, uses.in_optional_type(item, set), set, used, written_applies(item, used)),
{
    if let Some(typ) = item {
        lemma_type(uses, typ.shape, set, used);
    }
}

proof fn lemma_expr(uses: Uses, item: ExprForm, set: TemplateSet, used: Use)
    ensures
        notes(uses, uses.in_expr(item, set), set, used, expr_applies(item, set, used)),
    decreases item, 0nat,
{
    reveal_with_fuel(expr_applies, 3);
    match item {
        ExprForm::Call { callee, args, type_args, .. } => {
            let first = match *callee {
                ExprForm::Identifier(name, _) => uses.add_if(name, type_args, set),
                _ => uses,
            };
            if let ExprForm::Identifier(name, _) = *callee {
                lemma_add_use(uses, name, bare(type_args), used);
            }
            lemma_expr(first, *callee, set, used);
            lemma_exprs(first.in_expr(*callee, set), args, 0, set, used);
        },
        ExprForm::Struct { name, fields, type_args, .. } => {
            lemma_add_use(uses, name, bare(type_args), used);
            lemma_inits(uses.add_if(name, type_args, set), fields, 0, set, used);
        },
        ExprForm::QualifiedCall { qualifier, name, args, type_args, .. } => {
            let owner = if set.has(qualifier) {
                qualifier
            } else {
                name
            };
            lemma_add_use(uses, owner, bare(type_args), used);
            lemma_exprs(uses.add_if(owner, type_args, set), args, 0, set, used);
        },
        ExprForm::Binary { left, right, .. } => {
            lemma_expr(uses, *left, set, used);
            lemma_expr(uses.in_expr(*left, set), *right, set, used);
        },
        ExprForm::Unary { expr, .. } => lemma_expr(uses, *expr, set, used),
        ExprForm::Field { expr, .. } => lemma_expr(uses, *expr, set, used),
        ExprForm::Assignment { target, value, .. } => {
            lemma_expr(uses, *target, set, used);
            lemma_expr(uses.in_expr(*target, set), *value, set, used);
        },
        _ => {},
    }
}

proof fn lemma_exprs(uses: Uses, items: Seq<ExprForm>, at: nat, set: TemplateSet, used: Use)
    ensures
        notes(
            uses,
            uses.in_exprs(items, at, set),
            set,
            used,
            exists|i: int| at <= i < items.len() && expr_applies(#[trigger] items[i], set, used),
        ),
    decreases items, (items.len() - at) as nat,
{
    if at < items.len() {
        let item = items[at as int];
        lemma_expr(uses, item, set, used);
        lemma_exprs(uses.in_expr(item, set), items, at + 1, set, used);
    }
}

proof fn lemma_inits(uses: Uses, items: Seq<InitForm>, at: nat, set: TemplateSet, used: Use)
    ensures
        notes(
            uses,
            uses.in_inits(items, at, set),
            set,
            used,
            exists|i: int| at <= i < items.len() && expr_applies((#[trigger] items[i]).value, set, used),
        ),
    decreases items, (items.len() - at) as nat,
{
    if at < items.len() {
        let item = items[at as int];
        lemma_expr(uses, item.value, set, used);
        lemma_inits(uses.in_expr(item.value, set), items, at + 1, set, used);
    }
}

proof fn lemma_value(uses: Uses, item: Option<ExprForm>, set: TemplateSet, used: Use)
    ensures
        notes(uses, uses.in_optional(item, set), set, used, value_applies(item, set, used)),
{
    if let Some(expr) = item {
        lemma_expr(uses, expr, set, used);
    }
}

proof fn lemma_arms(uses: Uses, items: Seq<ArmForm>, at: nat, set: TemplateSet, used: Use)
    ensures
        notes(
            uses,
            uses.in_arms(items, at, set),
            set,
            used,
            exists|i: int| at <= i < items.len() && expr_applies((#[trigger] items[i]).body, set, used),
        ),
    decreases items.len() - at,
{
    if at < items.len() {
        let item = items[at as int];
        lemma_expr(uses, item.body, set, used);
        lemma_arms(uses.in_expr(item.body, set), items, at + 1, set, used);
    }
}

proof fn lemma_block(uses: Uses, item: BlockForm, set: TemplateSet, used: Use)
    ensures
        notes(uses, uses.in_block(item, set), set, used, block_applies(item, set, used)),
    decreases item, 1nat,
{
    lemma_statements(uses, item.statements, 0, set, used);
}

proof fn lemma_statements(uses: Uses, items: Seq<StatementForm>, at: nat, set: TemplateSet, used: Use)
    ensures
        notes(
            uses,
            uses.in_statements(items, at, set),
            set,
            used,
            exists|i: int| at <= i < items.len() && statement_applies(#[trigger] items[i], set, used),
        ),
    decreases items, (items.len() - at) as nat,
{
    if at < items.len() {
        let item = items[at as int];
        lemma_statement(uses, item, set, used);
        lemma_statements(uses.in_statement(item, set), items, at + 1, set, used);
    }
}

proof fn lemma_if(uses: Uses, item: IfForm, set: TemplateSet, used: Use)
    ensures
        notes(uses, uses.in_if(item, set), set, used, if_applies(item, set, used)),
    decreases item, 1nat,
{
    let tested = uses.in_expr(item.condition, set);
    lemma_expr(uses, item.condition, set, used);
    lemma_block(tested, item.then_branch, set, used);
    if let Some(other) = item.else_branch {
        lemma_else(tested.in_block(item.then_branch, set), *other, set, used);
    }
}

proof fn lemma_else(uses: Uses, item: ElseForm, set: TemplateSet, used: Use)
    ensures
        notes(uses, uses.in_else(item, set), set, used, else_applies(item, set, used)),
    decreases item, 0nat,
{
    match item {
        ElseForm::If(nested) => lemma_if(uses, nested, set, used),
        ElseForm::Block(block) => lemma_block(uses, block, set, used),
        ElseForm::Expr(expr) => lemma_expr(uses, expr, set, used),
    }
}

proof fn lemma_statement(uses: Uses, item: StatementForm, set: TemplateSet, used: Use)
    ensures
        notes(uses, uses.in_statement(item, set), set, used, statement_applies(item, set, used)),
    decreases item, 0nat,
{
    match item {
        StatementForm::Let(s) => {
            lemma_written(uses, s.typ, set, used);
            lemma_value(uses.in_optional_type(s.typ, set), s.value, set, used);
        },
        StatementForm::Return(value, _) => lemma_value(uses, value, set, used),
        StatementForm::If(s) => lemma_if(uses, s, set, used),
        StatementForm::While { condition, body, .. } => {
            lemma_expr(uses, condition, set, used);
            lemma_block(uses.in_expr(condition, set), body, set, used);
        },
        StatementForm::Match { scrutinee, arms, .. } => {
            lemma_expr(uses, scrutinee, set, used);
            lemma_arms(uses.in_expr(scrutinee, set), arms, 0, set, used);
        },
        StatementForm::Expr(expr, _) => lemma_expr(uses, expr, set, used),
        StatementForm::Block(block) => lemma_block(uses, block, set, used),
        StatementForm::Const { item, .. } => {
            lemma_type(uses, item.typ.shape, set, used);
            lemma_expr(uses.in_type(item.typ.shape, set), item.value, set, used);
        },
        _ => {},
    }
}

proof fn lemma_params(uses: Uses, items: Seq<ParamForm>, at: nat, set: TemplateSet, used: Use)
    ensures
        notes(
            uses,
            uses.in_params(items, at, set),
            set,
            used,
            exists|i: int| at <= i < items.len() && type_applies((#[trigger] items[i]).typ.shape, used),
        ),
    decreases items.len() - at,
{
    if at < items.len() {
        let item = items[at as int];
        lemma_type(uses, item.typ.shape, set, used);
        lemma_params(uses.in_type(item.typ.shape, set), items, at + 1, set, used);
    }
}

proof fn lemma_function(uses: Uses, item: FunctionForm, set: TemplateSet, used: Use)
    ensures
        notes(uses, uses.in_function(item, set), set, used, function_applies(item, set, used)),
{
    let params = uses.in_params(item.params, 0, set);
    lemma_params(uses, item.params, 0, set, used);
    lemma_written(params, item.return_type, set, used);
    lemma_block(params.in_optional_type(item.return_type, set), item.body, set, used);
}

proof fn lemma_functions(uses: Uses, items: Seq<FunctionForm>, at: nat, set: TemplateSet, used: Use)
    ensures
        notes(
            uses,
            uses.in_functions(items, at, set),
            set,
            used,
            exists|i: int| at <= i < items.len() && function_applies(#[trigger] items[i], set, used),
        ),
    decreases items.len() - at,
{
    if at < items.len() {
        let item = items[at as int];
        lemma_function(uses, item, set, used);
        lemma_functions(uses.in_function(item, set), items, at + 1, set, used);
    }
}

proof fn lemma_methods(uses: Uses, items: Seq<MethodForm>, at: nat, set: TemplateSet, used: Use)
    ensures
        notes(
            uses,
            uses.in_methods(items, at, set),
            set,
            used,
            exists|i: int| at <= i < items.len() && method_applies(#[trigger] items[i], set, used),
        ),
    decreases items.len() - at,
{
    if at < items.len() {
        let item = items[at as int];
        let params = uses.in_params(item.params, 0, set);
        lemma_params(uses, item.params, 0, set, used);
        lemma_written(params, item.return_type, set, used);
        let typed = params.in_optional_type(item.return_type, set);
        if let Some(block) = item.default {
            lemma_block(typed, block, set, used);
        }
        let next = match item.default {
            Some(block) => typed.in_block(block, set),
            None => typed,
        };
        lemma_methods(next, items, at + 1, set, used);
    }
}

proof fn lemma_fields(uses: Uses, items: Seq<FieldForm>, at: nat, set: TemplateSet, used: Use)
    ensures
        notes(
            uses,
            uses.in_fields(items, at, set),
            set,
            used,
            exists|i: int| at <= i < items.len() && type_applies((#[trigger] items[i]).typ.shape, used),
        ),
    decreases items.len() - at,
{
    if at < items.len() {
        let item = items[at as int];
        lemma_type(uses, item.typ.shape, set, used);
        lemma_fields(uses.in_type(item.typ.shape, set), items, at + 1, set, used);
    }
}

proof fn lemma_variants(uses: Uses, items: Seq<VariantForm>, at: nat, set: TemplateSet, used: Use)
    ensures
        notes(
            uses,
            uses.in_variants(items, at, set),
            set,
            used,
            exists|i: int| at <= i < items.len() && written_applies((#[trigger] items[i]).payload, used),
        ),
    decreases items.len() - at,
{
    if at < items.len() {
        let item = items[at as int];
        lemma_written(uses, item.payload, set, used);
        lemma_variants(uses.in_optional_type(item.payload, set), items, at + 1, set, used);
    }
}

proof fn lemma_top(uses: Uses, item: TopForm, set: TemplateSet, used: Use)
    ensures
        notes(uses, uses.in_top(item, set), set, used, top_applies(item, set, used)),
{
    match item {
        TopForm::Item { kind, .. } => match kind {
            ItemForm::Fn(item) => lemma_function(uses, item, set, used),
            ItemForm::Impl(item) => lemma_functions(uses, item.methods, 0, set, used),
            ItemForm::Interface(item) => lemma_methods(uses, item.methods, 0, set, used),
            ItemForm::Struct(item) => lemma_fields(uses, item.fields, 0, set, used),
            ItemForm::Enum(item) => lemma_variants(uses, item.variants, 0, set, used),
            ItemForm::Const(item) => {
                lemma_type(uses, item.typ.shape, set, used);
                lemma_expr(uses.in_type(item.typ.shape, set), item.value, set, used);
            },
            ItemForm::Use(_) => {},
        },
        TopForm::Other(statement) => lemma_statement(uses, statement, set, used),
    }
}

proof fn lemma_tops(uses: Uses, items: Seq<TopForm>, at: nat, set: TemplateSet, used: Use)
    ensures
        notes(
            uses,
            uses.in_tops(items, at, set),
            set,
            used,
            exists|i: int| at <= i < items.len() && top_applies(#[trigger] items[i], set, used),
        ),
    decreases items.len() - at,
{
    if at < items.len() {
        let item = items[at as int];
        lemma_top(uses, item, set, used);
        lemma_tops(uses.in_top(item, set), items, at + 1, set, used);
    }
}

/// The uses of templates in a module: exactly those that stand somewhere in it are noted, in types
/// and in expressions alike, and all of them wait for their copies.
pub proof fn lemma_all_uses(items: Seq<TopForm>, set: TemplateSet, used: Use)
    ensures
        Uses::none().in_tops(items, 0, set).seen.contains(used) <==> set.has(used.0) && exists|i: int|
            0 <= i < items.len() && top_applies(#[trigger] items[i], set, used),
        Uses::none().in_tops(items, 0, set).worklist.contains(used) <==> set.has(used.0)
            && exists|i: int| 0 <= i < items.len() && top_applies(#[trigger] items[i], set, used),
{
    lemma_tops(Uses::none(), items, 0, set, used);
}

proof fn lemma_bodies(uses: Uses, items: Seq<FunctionForm>, at: nat, set: TemplateSet, used: Use)
    ensures
        notes(
            uses,
            uses.in_bodies(items, at, set),
            set,
            used,
            exists|i: int| at <= i < items.len() && block_applies((#[trigger] items[i]).body, set, used),
        ),
    decreases items.len() - at,
{
    if at < items.len() {
        let item = items[at as int];
        lemma_block(uses, item.body, set, used);
        lemma_bodies(uses.in_block(item.body, set), items, at + 1, set, used);
    }
}

/// Whether an item is the copy of a template for the given arguments, under the name of that copy.
pub open spec fn is_made_for<'s>(made: TopForm<'s>, set: TemplateSet<'s>, used: Use) -> bool {
    let name = copy_name(used.0, used.1);
    match (set.structure(used.0), set.enumeration(used.0), set.function(used.0)) {
        (Some(item), _, _) => made == bare_item(
            ItemForm::Struct(
                copy_struct(struct_form(*item), name, applied(item.generics@, used.1)),
            ),
        ),
        (None, Some(item), _) => made == bare_item(
            ItemForm::Enum(copy_enum(enum_form(*item), name, applied(item.generics@, used.1))),
        ),
        (None, None, Some(item)) => made == bare_item(
            ItemForm::Fn(
                copy_function(function_form(*item), name, applied(item.generics@, used.1), set),
            ),
        ),
        _ => false,
    }
}

pub open spec fn has_copy<'s>(made: Seq<TopForm<'s>>, set: TemplateSet<'s>, used: Use) -> bool {
    exists|i: int| 0 <= i < made.len() && is_made_for(#[trigger] made[i], set, used)
}

/// Whether an item is the copy of an `impl` template for a type with the given arguments.
pub open spec fn is_impl_for<'s>(
    made: TopForm<'s>,
    set: TemplateSet<'s>,
    template: Impl<'s>,
    used: Use,
) -> bool {
    let name = copy_name(used.0, used.1);
    match (set.structure(used.0), set.enumeration(used.0)) {
        (Some(item), _) => made == bare_item(
            ItemForm::Impl(
                copy_impl(impl_form(template), name, applied(item.generics@, used.1), set),
            ),
        ),
        (None, Some(item)) => made == bare_item(
            ItemForm::Impl(
                copy_impl(impl_form(template), name, applied(item.generics@, used.1), set),
            ),
        ),
        _ => false,
    }
}

/// Whether a used type has its copy of the given `impl` template, if that is one for it.
pub open spec fn has_impl<'s>(
    made: Seq<TopForm<'s>>,
    set: TemplateSet<'s>,
    template: int,
    used: Use,
) -> bool {
    (set.structure(used.0) is Some || set.enumeration(used.0) is Some) && 0 <= template
        < set.impls.len() && receiver_name(impl_form(*set.impls[template])) == Some(used.0)
        ==> exists|i: int|
        0 <= i < made.len() && is_impl_for(#[trigger] made[i], set, *set.impls[template], used)
}

/// Whether a name is applied to arguments in the body of a copy.
pub open spec fn body_applies(made: TopForm, set: TemplateSet, used: Use) -> bool {
    match made {
        TopForm::Item { kind, .. } => match kind {
            ItemForm::Fn(item) => block_applies(item.body, set, used),
            ItemForm::Impl(item) => exists|i: int|
                0 <= i < item.methods.len() && block_applies(
                    (#[trigger] item.methods[i]).body,
                    set,
                    used,
                ),
            _ => false,
        },
        _ => false,
    }
}

spec fn is_served<'s>(
    progress: Progress<'s>,
    set: TemplateSet<'s>,
    template: int,
    used: Use,
) -> bool {
    progress.uses.seen.contains(used) ==> progress.uses.worklist.contains(used) || (has_copy(
        progress.made,
        set,
        used,
    ) && has_impl(progress.made, set, template, used))
}

spec fn is_noted<'s>(progress: Progress<'s>, set: TemplateSet<'s>, used: Use) -> bool {
    forall|i: int|
        0 <= i < progress.made.len() && set.has(used.0) && body_applies(
            #[trigger] progress.made[i],
            set,
            used,
        ) ==> progress.uses.seen.contains(used)
}

spec fn goes_on<'s>(before: Progress<'s>, after: Progress<'s>, used: Use) -> bool {
    &&& before.made.len() <= after.made.len()
    &&& forall|i: int| 0 <= i < before.made.len() ==> #[trigger] after.made[i] == before.made[i]
    &&& before.uses.seen.contains(used) ==> after.uses.seen.contains(used)
    &&& before.uses.worklist.contains(used) ==> after.uses.worklist.contains(used)
    &&& after.uses.seen.contains(used) && !before.uses.seen.contains(used)
        ==> after.uses.worklist.contains(used)
}

proof fn lemma_impls_made<'s>(
    progress: Progress<'s>,
    at: nat,
    base: Seq<char>,
    name: Seq<char>,
    env: Bindings,
    set: TemplateSet<'s>,
    template: int,
    used: Use,
)
    requires
        is_noted(progress, set, used),
    ensures
        is_noted(progress.impls_for(set.impls, at, base, name, env, set), set, used),
        goes_on(progress, progress.impls_for(set.impls, at, base, name, env, set), used),
        at <= template < set.impls.len() && receiver_name(impl_form(*set.impls[template])) == Some(base)
            ==> ({
            let made = progress.impls_for(set.impls, at, base, name, env, set).made;
            exists|i: int|
                0 <= i < made.len() && #[trigger] made[i] == bare_item(
                    ItemForm::Impl(copy_impl(impl_form(*set.impls[template]), name, env, set)),
                )
        }),
    decreases set.impls.len() - at,
{
    if at < set.impls.len() {
        let item = impl_form(*set.impls[at as int]);
        let after = progress.impls_for(set.impls, at, base, name, env, set);
        if receiver_name(item) == Some(base) {
            let copy = copy_impl(item, name, env, set);
            let next = Progress {
                uses: progress.uses.in_bodies(copy.methods, 0, set),
                made: progress.made.push(bare_item(ItemForm::Impl(copy))),
            };
            lemma_bodies(progress.uses, copy.methods, 0, set, used);
            assert(is_noted(next, set, used)) by {
                assert forall|i: int|
                    0 <= i < next.made.len() && set.has(used.0) && body_applies(
                        #[trigger] next.made[i],
                        set,
                        used,
                    ) implies next.uses.seen.contains(used) by {
                    if i < progress.made.len() {
                        assert(next.made[i] == progress.made[i]);
                    }
                }
            }
            lemma_impls_made(next, at + 1, base, name, env, set, template, used);
            assert(next.made[progress.made.len() as int] == bare_item(ItemForm::Impl(copy)));
            assert(after.made[progress.made.len() as int] == bare_item(ItemForm::Impl(copy)));
            assert forall|i: int| 0 <= i < progress.made.len() implies #[trigger] after.made[i]
                == progress.made[i] by {
                assert(next.made[i] == progress.made[i]);
            }
        } else {
            lemma_impls_made(progress, at + 1, base, name, env, set, template, used);
        }
    }
}

proof fn lemma_expanded<'s>(
    progress: Progress<'s>,
    now: Use,
    set: TemplateSet<'s>,
    template: int,
    used: Use,
)
    requires
        is_noted(progress, set, used),
    ensures
        is_noted(progress.expand(now, set), set, used),
        goes_on(progress, progress.expand(now, set), used),
        set.has(now.0) ==> has_copy(progress.expand(now, set).made, set, now),
        has_impl(progress.expand(now, set).made, set, template, now),
{
    let after = progress.expand(now, set);
    let name = copy_name(now.0, now.1);
    let at = progress.made.len() as int;
    if set.structure(now.0) is Some || set.enumeration(now.0) is Some {
        let (item, env): (ItemForm<'s>, Bindings) = match (
            set.structure(now.0),
            set.enumeration(now.0),
        ) {
            (Some(item), _) => {
                let env = applied(item.generics@, now.1);
                (ItemForm::Struct(copy_struct(struct_form(*item), name, env)), env)
            },
            (None, Some(item)) => {
                let env = applied(item.generics@, now.1);
                (ItemForm::Enum(copy_enum(enum_form(*item), name, env)), env)
            },
            _ => arbitrary(),
        };
        let next = Progress { made: progress.made.push(bare_item(item)), ..progress };
        assert(is_noted(next, set, used)) by {
            assert forall|i: int|
                0 <= i < next.made.len() && set.has(used.0) && body_applies(
                    #[trigger] next.made[i],
                    set,
                    used,
                ) implies next.uses.seen.contains(used) by {
                if i < progress.made.len() {
                    assert(next.made[i] == progress.made[i]);
                }
            }
        }
        lemma_impls_made(next, 0, now.0, name, env, set, template, used);
        assert(after == next.impls_for(set.impls, 0, now.0, name, env, set));
        assert(next.made[at] == bare_item(item));
        assert(is_made_for(after.made[at], set, now));
        assert forall|i: int| 0 <= i < progress.made.len() implies #[trigger] after.made[i]
            == progress.made[i] by {
            assert(next.made[i] == progress.made[i]);
        }
    } else if let Some(item) = set.function(now.0) {
        let copy = copy_function(function_form(*item), name, applied(item.generics@, now.1), set);
        lemma_block(progress.uses, copy.body, set, used);
        assert(is_made_for(after.made[at], set, now));
        assert forall|i: int|
            0 <= i < after.made.len() && set.has(used.0) && body_applies(
                #[trigger] after.made[i],
                set,
                used,
            ) implies after.uses.seen.contains(used) by {
            if i < progress.made.len() {
                assert(after.made[i] == progress.made[i]);
            }
        }
    }
}

proof fn lemma_drained<'s>(
    progress: Progress<'s>,
    fuel: nat,
    set: TemplateSet<'s>,
    template: int,
    used: Use,
)
    requires
        set.has(used.0),
        is_served(progress, set, template, used),
        is_noted(progress, set, used),
    ensures
        match progress.drain(fuel, set) {
            Ok(made) => {
                &&& progress.uses.seen.contains(used) || (exists|i: int|
                    0 <= i < made.len() && body_applies(#[trigger] made[i], set, used))
                    ==> has_copy(made, set, used) && has_impl(made, set, template, used)
            },
            Err(_) => true,
        },
    decreases fuel,
{
    let waiting = progress.uses.worklist;
    if waiting.len() > 0 && fuel > 0 {
        let now = waiting.last();
        let taken = Progress {
            uses: Uses { worklist: waiting.drop_last(), ..progress.uses },
            ..progress
        };
        let next = taken.expand(now, set);
        assert(is_noted(taken, set, used));
        lemma_expanded(taken, now, set, template, used);
        assert(is_served(next, set, template, used)) by {
            if next.uses.seen.contains(used) && progress.uses.seen.contains(used) && used != now {
                if waiting.contains(used) {
                    let i = choose|i: int| 0 <= i < waiting.len() && waiting[i] == used;
                    assert(taken.uses.worklist[i] == used);
                } else {
                    lemma_copies_stay(taken.made, next.made, set, template, used);
                }
            }
        }
        lemma_drained(next, (fuel - 1) as nat, set, template, used);
    } else if waiting.len() == 0 {
        assert(!waiting.contains(used));
    }
}

proof fn lemma_copies_stay<'s>(
    before: Seq<TopForm<'s>>,
    after: Seq<TopForm<'s>>,
    set: TemplateSet<'s>,
    template: int,
    used: Use,
)
    requires
        before.len() <= after.len(),
        forall|i: int| 0 <= i < before.len() ==> #[trigger] after[i] == before[i],
    ensures
        has_copy(before, set, used) ==> has_copy(after, set, used),
        has_impl(before, set, template, used) ==> has_impl(after, set, template, used),
{
    if has_copy(before, set, used) {
        let i = choose|i: int| 0 <= i < before.len() && is_made_for(#[trigger] before[i], set, used);
        assert(is_made_for(after[i], set, used));
    }
    if exists|i: int|
        0 <= i < before.len() && is_impl_for(#[trigger] before[i], set, *set.impls[template], used) {
        let i = choose|i: int|
            0 <= i < before.len() && is_impl_for(
                #[trigger] before[i],
                set,
                *set.impls[template],
                used,
            );
        assert(is_impl_for(after[i], set, *set.impls[template], used));
    }
}

/// Every use of a template in a module, or in the body of a copy that stands behind it, has its copy
/// there; a type also has a copy of each `impl` template for it.
pub proof fn lemma_every_use_copied<'s>(
    statements: Seq<TopForm<'s>>,
    set: TemplateSet<'s>,
    whole: Seq<TopForm<'s>>,
    template: int,
    used: Use,
)
    requires
        !set.is_bare(),
        set.has(used.0),
        monomorphised(statements, set) matches Ok(all) && all == whole,
        (exists|i: int|
            0 <= i < statements.len() && top_applies(
                #[trigger] infer_top_forms(statements, set)[i],
                set,
                used,
            )) || (exists|i: int|
            statements.len() <= i < whole.len() && body_applies(#[trigger] whole[i], set, used)),
    ensures
        has_copy(whole.skip(statements.len() as int), set, used),
        has_impl(whole.skip(statements.len() as int), set, template, used),
{
    let inferred = infer_top_forms(statements, set);
    let found = Progress { uses: Uses::none().in_tops(inferred, 0, set), made: seq![] };
    lemma_all_uses(inferred, set, used);
    lemma_drained(found, MAX_INSTANCES as nat, set, template, used);
    if let Ok(made) = found.drain(MAX_INSTANCES as nat, set) {
        let start = rewrite_forms(inferred, set);
        assert(start.len() == statements.len());
        assert(whole == start + made);
        assert(whole.skip(statements.len() as int) =~= made);
        if exists|i: int|
            statements.len() <= i < whole.len() && body_applies(#[trigger] whole[i], set, used) {
            let i = choose|i: int|
                statements.len() <= i < whole.len() && body_applies(#[trigger] whole[i], set, used);
            assert(body_applies(made[i - statements.len()], set, used));
        }
        if exists|i: int|
            0 <= i < statements.len() && top_applies(
                #[trigger] infer_top_forms(statements, set)[i],
                set,
                used,
            ) {
            assert(found.uses.seen.contains(used));
        }
    }
}

/// The template of a name is the last one declared under it.
pub proof fn lemma_last_template<'s>(set: TemplateSet<'s>, name: Seq<char>)
    ensures
        match set.structure(name) {
            Some(item) => item.name@ == name && exists|i: int|
                0 <= i < set.structs.len() && #[trigger] set.structs[i] == item && forall|k: int|
                    i < k < set.structs.len() ==> (#[trigger] set.structs[k]).name@ != name,
            None => forall|i: int|
                0 <= i < set.structs.len() ==> (#[trigger] set.structs[i]).name@ != name,
        },
        match set.enumeration(name) {
            Some(item) => item.name@ == name && exists|i: int|
                0 <= i < set.enums.len() && #[trigger] set.enums[i] == item && forall|k: int|
                    i < k < set.enums.len() ==> (#[trigger] set.enums[k]).name@ != name,
            None => forall|i: int|
                0 <= i < set.enums.len() ==> (#[trigger] set.enums[i]).name@ != name,
        },
        match set.function(name) {
            Some(item) => item.name@ == name && exists|i: int|
                0 <= i < set.fns.len() && #[trigger] set.fns[i] == item && forall|k: int|
                    i < k < set.fns.len() ==> (#[trigger] set.fns[k]).name@ != name,
            None => forall|i: int| 0 <= i < set.fns.len() ==> (#[trigger] set.fns[i]).name@ != name,
        },
    decreases set.structs.len() + set.enums.len() + set.fns.len(),
{
    let earlier = TemplateSet {
        structs: if set.structs.len() > 0 {
            set.structs.drop_last()
        } else {
            set.structs
        },
        enums: if set.enums.len() > 0 {
            set.enums.drop_last()
        } else {
            set.enums
        },
        fns: if set.fns.len() > 0 {
            set.fns.drop_last()
        } else {
            set.fns
        },
        ..set
    };
    if set.structs.len() + set.enums.len() + set.fns.len() > 0 {
        lemma_last_template(earlier, name);
        if set.structs.len() > 0 {
            let last = set.structs.len() - 1;
            assert(set.structs[last] == set.structs.last());
            assert forall|i: int| 0 <= i < last implies earlier.structs[i]
                == #[trigger] set.structs[i] by {}
        }
        if set.enums.len() > 0 {
            let last = set.enums.len() - 1;
            assert(set.enums[last] == set.enums.last());
            assert forall|i: int| 0 <= i < last implies earlier.enums[i]
                == #[trigger] set.enums[i] by {}
        }
        if set.fns.len() > 0 {
            let last = set.fns.len() - 1;
            assert(set.fns[last] == set.fns.last());
            assert forall|i: int| 0 <= i < last implies earlier.fns[i]
                == #[trigger] set.fns[i] by {}
        }
    }
}

/// The generic items of a module, and nothing else, are its templates.
pub proof fn lemma_templates_gathered<'s>(statements: Seq<Statement<'s>>, count: nat)
    requires
        count <= statements.len(),
    ensures
        ({
            let set = TemplateSet::none().with_all(statements, count);
            forall|i: int|
                0 <= i < count ==> match #[trigger] statements[i] {
                    Statement::Item(item) => match item.kind {
                        ItemKind::Struct(item) => item.generics@.len() > 0 ==> set.structs.contains(
                            item,
                        ),
                        ItemKind::Enum(item) => item.generics@.len() > 0 ==> set.enums.contains(item),
                        ItemKind::Fn(item) => item.generics@.len() > 0 ==> set.fns.contains(item),
                        ItemKind::Impl(item) => item.generics@.len() > 0 ==> set.impls.contains(item),
                        _ => true,
                    },
                    _ => true,
                }
        }),
        ({
            let set = TemplateSet::none().with_all(statements, count);
            &&& forall|i: int|
                0 <= i < set.structs.len() ==> (#[trigger] set.structs[i]).generics@.len() > 0
            &&& forall|i: int|
                0 <= i < set.enums.len() ==> (#[trigger] set.enums[i]).generics@.len() > 0
            &&& forall|i: int| 0 <= i < set.fns.len() ==> (#[trigger] set.fns[i]).generics@.len() > 0
            &&& forall|i: int|
                0 <= i < set.impls.len() ==> (#[trigger] set.impls[i]).generics@.len() > 0
        }),
    decreases count,
{
    if count > 0 {
        lemma_templates_gathered(statements, (count - 1) as nat);
        let earlier = TemplateSet::none().with_all(statements, (count - 1) as nat);
        let set = TemplateSet::none().with_all(statements, count);
        if let Statement::Item(item) = statements[count - 1] {
            match item.kind {
                ItemKind::Struct(item) => lemma_kept_pushed(earlier.structs, item),
                ItemKind::Enum(item) => lemma_kept_pushed(earlier.enums, item),
                ItemKind::Fn(item) => lemma_kept_pushed(earlier.fns, item),
                ItemKind::Impl(item) => lemma_kept_pushed(earlier.impls, item),
                _ => {},
            }
        }
    }
}

proof fn lemma_kept_pushed<T>(items: Seq<T>, added: T)
    ensures
        forall|item: T| items.contains(item) ==> #[trigger] items.push(added).contains(item),
        items.push(added).contains(added),
{
    let after = items.push(added);
    assert(after[items.len() as int] == added);
    assert forall|item: T| items.contains(item) implies #[trigger] after.contains(item) by {
        let i = choose|i: int| 0 <= i < items.len() && items[i] == item;
        assert(after[i] == item);
    }
}

} // verus!
