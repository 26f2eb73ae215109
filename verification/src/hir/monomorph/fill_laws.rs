//! The type arguments that are filled in are those that the values call for, and nothing else of a
//! program changes.

use crate::ast::{Enum, Function, GenericBound, Struct, UnaryOperator};
use crate::hir::monomorph::form::{
    ArmForm, BlockForm, ElseForm, ExprForm, FunctionForm, IfForm, InitForm, LetForm, StatementForm,
};
use crate::hir::monomorph::infer::{
    bind_args, bind_fields, expr_type, field_named, infer_block_form, infer_else_form, infer_form,
    infer_forms, infer_function_form, infer_if_form, infer_inits, infer_statement_form,
    infer_statement_forms, is_generic, param_env, solve_call, solve_literal, solve_variant, unify_pairs,
    unify_shapes, variant_named,
};
use crate::hir::monomorph::shape::{shape, Shape};
use crate::hir::monomorph::subst::{bound, Bindings};
use crate::hir::monomorph::templates::TemplateSet;
use vstd::prelude::*;

verus! {

/// Whether a name in a declared type stands where `typ` stands in an actual one. References on both
/// sides are looked through, and so is a declared one on its own.
pub open spec fn meets(declared: Shape, actual: Shape, name: Seq<char>, typ: Shape) -> bool
    decreases declared, 0nat,
{
    match declared {
        Shape::Named(declared) => declared == name && actual == typ,
        Shape::Ref(inner, _) => match actual {
            Shape::Ref(target, _) => meets(*inner, *target, name, typ),
            _ => meets(*inner, actual, name, typ),
        },
        Shape::Generic(generic, args) => match actual {
            Shape::Generic(other, given) => generic == other && meet(args, given, name, typ),
            _ => false,
        },
        _ => false,
    }
}

pub open spec fn meet(declared: Seq<Shape>, actual: Seq<Shape>, name: Seq<char>, typ: Shape) -> bool
    decreases declared, 0nat,
{
    exists|i: int|
        0 <= i < declared.len() && i < actual.len() && meets(
            declared[i],
            #[trigger] actual[i],
            name,
            typ,
        )
}

/// What becomes known of one name: what was known stays, a type parameter that meets a type becomes
/// known, and nothing becomes known that was not met.
pub open spec fn learns(
    before: Bindings,
    after: Bindings,
    generics: Seq<GenericBound>,
    name: Seq<char>,
    typ: Shape,
    met: bool,
) -> bool {
    &&& bound(before, name) is Some ==> bound(after, name) == bound(before, name)
    &&& is_generic(generics, name) && met ==> bound(after, name) is Some
    &&& bound(before, name) is None && bound(after, name) == Some(typ) ==> is_generic(
        generics,
        name,
    ) && met
}

proof fn lemma_bound(env: Bindings, name: Seq<char>, typ: Shape, other: Seq<char>)
    ensures
        bound(env.push((name, typ)), other) == if other == name {
            Some(typ)
        } else {
            bound(env, other)
        },
{
    assert(env.push((name, typ)).drop_last() =~= env);
}

/// Holding a declared type against an actual one.
pub proof fn lemma_unified(
    declared: Shape,
    actual: Shape,
    generics: Seq<GenericBound>,
    bindings: Bindings,
    name: Seq<char>,
    typ: Shape,
)
    ensures
        learns(
            bindings,
            unify_shapes(declared, actual, generics, bindings),
            generics,
            name,
            typ,
            meets(declared, actual, name, typ),
        ),
    decreases declared, 0nat,
{
    reveal_with_fuel(meets, 3);
    match declared {
        Shape::Ref(inner, _) => match actual {
            Shape::Ref(target, _) => lemma_unified(*inner, *target, generics, bindings, name, typ),
            _ => lemma_unified(*inner, actual, generics, bindings, name, typ),
        },
        Shape::Named(parameter) => lemma_bound(bindings, parameter, actual, name),
        Shape::Generic(generic, args) => match actual {
            Shape::Generic(other, given) => {
                lemma_pairs(args, given, 0, generics, bindings, name, typ);
            },
            _ => {},
        },
        _ => {},
    }
}

proof fn lemma_pairs(
    declared: Seq<Shape>,
    actual: Seq<Shape>,
    at: nat,
    generics: Seq<GenericBound>,
    bindings: Bindings,
    name: Seq<char>,
    typ: Shape,
)
    ensures
        learns(
            bindings,
            unify_pairs(declared, actual, at, generics, bindings),
            generics,
            name,
            typ,
            exists|i: int|
                at <= i < declared.len() && i < actual.len() && meets(
                    declared[i],
                    #[trigger] actual[i],
                    name,
                    typ,
                ),
        ),
    decreases declared, (declared.len() - at) as nat,
{
    if at < declared.len() && at < actual.len() {
        let next = unify_shapes(declared[at as int], actual[at as int], generics, bindings);
        lemma_unified(declared[at as int], actual[at as int], generics, bindings, name, typ);
        lemma_pairs(declared, actual, at + 1, generics, next, name, typ);
    }
}

/// Whether an argument of a call says that a type parameter of the function stands for a type.
pub open spec fn argument_meets(
    item: Function,
    args: Seq<ExprForm>,
    at: int,
    env: Bindings,
    set: TemplateSet,
    name: Seq<char>,
    typ: Shape,
) -> bool {
    at < item.params@.len() && match expr_type(args[at], env, set) {
        Some(actual) => meets(shape(item.params@[at].typ.value), actual, name, typ),
        None => false,
    }
}

proof fn lemma_args(
    item: Function,
    args: Seq<ExprForm>,
    at: nat,
    bindings: Bindings,
    env: Bindings,
    set: TemplateSet,
    name: Seq<char>,
    typ: Shape,
)
    ensures
        learns(
            bindings,
            bind_args(item, args, at, bindings, env, set),
            item.generics@,
            name,
            typ,
            exists|i: int|
                at <= i < args.len() && #[trigger] argument_meets(
                    item,
                    args,
                    i,
                    env,
                    set,
                    name,
                    typ,
                ),
        ),
    decreases args.len() - at,
{
    if at < args.len() && at < item.params@.len() {
        let declared = shape(item.params@[at as int].typ.value);
        let next = match expr_type(args[at as int], env, set) {
            Some(actual) => unify_shapes(declared, actual, item.generics@, bindings),
            None => bindings,
        };
        if let Some(actual) = expr_type(args[at as int], env, set) {
            lemma_unified(declared, actual, item.generics@, bindings, name, typ);
        }
        lemma_args(item, args, at + 1, next, env, set, name, typ);
        assert(argument_meets(item, args, at as int, env, set, name, typ) == match expr_type(
            args[at as int],
            env,
            set,
        ) {
            Some(actual) => meets(declared, actual, name, typ),
            None => false,
        });
    }
}

/// The type arguments found for a call: one for each type parameter in its turn, and each is a type
/// that the parameter meets in an argument.
pub proof fn lemma_call_arguments(
    item: Function,
    args: Seq<ExprForm>,
    env: Bindings,
    set: TemplateSet,
    at: int,
)
    requires
        solve_call(item, args, env, set) is Some,
        0 <= at < item.generics@.len(),
    ensures
        solve_call(item, args, env, set)->0.len() == item.generics@.len(),
        exists|i: int|
            0 <= i < args.len() && #[trigger] argument_meets(
                item,
                args,
                i,
                env,
                set,
                item.generics@[at].name@,
                solve_call(item, args, env, set)->0[at].shape,
            ),
{
    let found = solve_call(item, args, env, set)->0;
    lemma_args(item, args, 0, seq![], env, set, item.generics@[at].name@, found[at].shape);
}

/// They are found when every type parameter meets some type in an argument.
pub proof fn lemma_call_solved(
    item: Function,
    args: Seq<ExprForm>,
    env: Bindings,
    set: TemplateSet,
)
    requires
        item.generics@.len() > 0,
        forall|i: int|
            0 <= i < item.generics@.len() ==> exists|k: int, typ: Shape|
                0 <= k < args.len() && #[trigger] argument_meets(
                    item,
                    args,
                    k,
                    env,
                    set,
                    (#[trigger] item.generics@[i]).name@,
                    typ,
                ),
    ensures
        solve_call(item, args, env, set) is Some,
{
    let bindings = bind_args(item, args, 0, seq![], env, set);
    assert forall|i: int| 0 <= i < item.generics@.len() implies bound(
        bindings,
        (#[trigger] item.generics@[i]).name@,
    ) is Some by {
        let name = item.generics@[i].name@;
        let (k, typ) = choose|k: int, typ: Shape|
            0 <= k < args.len() && #[trigger] argument_meets(item, args, k, env, set, name, typ);
        lemma_args(item, args, 0, seq![], env, set, name, typ);
        assert(is_generic(item.generics@, name));
    }
}

/// Whether a field of a literal says that a type parameter of the struct stands for a type.
pub open spec fn field_meets(
    item: Struct,
    field: InitForm,
    env: Bindings,
    set: TemplateSet,
    name: Seq<char>,
    typ: Shape,
) -> bool {
    match (field_named(item.fields@, field.name, 0), expr_type(field.value, env, set)) {
        (Some(declared), Some(actual)) => meets(shape(declared.typ.value), actual, name, typ),
        _ => false,
    }
}

proof fn lemma_fields(
    item: Struct,
    fields: Seq<InitForm>,
    at: nat,
    bindings: Bindings,
    env: Bindings,
    set: TemplateSet,
    name: Seq<char>,
    typ: Shape,
)
    ensures
        learns(
            bindings,
            bind_fields(item, fields, at, bindings, env, set),
            item.generics@,
            name,
            typ,
            exists|i: int|
                at <= i < fields.len() && field_meets(
                    item,
                    #[trigger] fields[i],
                    env,
                    set,
                    name,
                    typ,
                ),
        ),
    decreases fields.len() - at,
{
    if at < fields.len() {
        let field = fields[at as int];
        let next = match (field_named(item.fields@, field.name, 0), expr_type(field.value, env, set)) {
            (Some(declared), Some(actual)) => unify_shapes(
                shape(declared.typ.value),
                actual,
                item.generics@,
                bindings,
            ),
            _ => bindings,
        };
        if let Some(declared) = field_named(item.fields@, field.name, 0) {
            if let Some(actual) = expr_type(field.value, env, set) {
                lemma_unified(
                    shape(declared.typ.value),
                    actual,
                    item.generics@,
                    bindings,
                    name,
                    typ,
                );
            }
        }
        lemma_fields(item, fields, at + 1, next, env, set, name, typ);
    }
}

/// The type arguments found for a struct literal: one for each type parameter in its turn, and each
/// is a type that the parameter meets in a field.
pub proof fn lemma_literal_arguments(
    item: Struct,
    fields: Seq<InitForm>,
    env: Bindings,
    set: TemplateSet,
    at: int,
)
    requires
        solve_literal(item, fields, env, set) is Some,
        0 <= at < item.generics@.len(),
    ensures
        solve_literal(item, fields, env, set)->0.len() == item.generics@.len(),
        exists|i: int|
            0 <= i < fields.len() && field_meets(
                item,
                #[trigger] fields[i],
                env,
                set,
                item.generics@[at].name@,
                solve_literal(item, fields, env, set)->0[at].shape,
            ),
{
    let found = solve_literal(item, fields, env, set)->0;
    lemma_fields(item, fields, 0, seq![], env, set, item.generics@[at].name@, found[at].shape);
}

/// They are found when every type parameter meets some type in a field.
pub proof fn lemma_literal_solved(
    item: Struct,
    fields: Seq<InitForm>,
    env: Bindings,
    set: TemplateSet,
)
    requires
        item.generics@.len() > 0,
        forall|i: int|
            0 <= i < item.generics@.len() ==> exists|k: int, typ: Shape|
                0 <= k < fields.len() && #[trigger] field_meets(
                    item,
                    fields[k],
                    env,
                    set,
                    (#[trigger] item.generics@[i]).name@,
                    typ,
                ),
    ensures
        solve_literal(item, fields, env, set) is Some,
{
    let bindings = bind_fields(item, fields, 0, seq![], env, set);
    assert forall|i: int| 0 <= i < item.generics@.len() implies bound(
        bindings,
        (#[trigger] item.generics@[i]).name@,
    ) is Some by {
        let name = item.generics@[i].name@;
        let (k, typ) = choose|k: int, typ: Shape|
            0 <= k < fields.len() && #[trigger] field_meets(item, fields[k], env, set, name, typ);
        lemma_fields(item, fields, 0, seq![], env, set, name, typ);
        assert(is_generic(item.generics@, name));
    }
}

/// The type arguments of a variant constructor: those that the enum's type parameters meet in the
/// payload.
pub proof fn lemma_variant_arguments(
    item: Enum,
    name: Seq<char>,
    args: Seq<ExprForm>,
    env: Bindings,
    set: TemplateSet,
    at: int,
)
    requires
        solve_variant(item, name, args, env, set) is Some,
        0 <= at < item.generics@.len(),
    ensures
        solve_variant(item, name, args, env, set)->0.len() == item.generics@.len(),
        args.len() > 0,
        match variant_named(item.variants@, name, 0) {
            Some(variant) => match (variant.payload, expr_type(args[0], env, set)) {
                (Some(payload), Some(actual)) => meets(
                    shape(payload.value),
                    actual,
                    item.generics@[at].name@,
                    solve_variant(item, name, args, env, set)->0[at].shape,
                ),
                _ => false,
            },
            None => false,
        },
{
    let found = solve_variant(item, name, args, env, set)->0;
    let generic = item.generics@[at].name@;
    let none: Bindings = seq![];
    assert(bound(none, generic) is None);
    if let Some(variant) = variant_named(item.variants@, name, 0) {
        if let Some(payload) = variant.payload {
            if args.len() > 0 {
                if let Some(actual) = expr_type(args[0], env, set) {
                    lemma_unified(
                        shape(payload.value),
                        actual,
                        item.generics@,
                        none,
                        generic,
                        found[at].shape,
                    );
                }
            }
        }
    }
}

/// Whether an expression is another with type arguments filled in: those that are written stay, and
/// so does everything else.
pub open spec fn is_filled(source: ExprForm, filled: ExprForm) -> bool
    decreases source, 0nat,
{
    match (source, filled) {
        (
            ExprForm::Call { callee: c, args: a, type_args: t, span: s },
            ExprForm::Call { callee: d, args: b, type_args: u, span: r },
        ) => c == d && s == r && (t.len() > 0 ==> u == t) && are_filled(a, b),
        (
            ExprForm::Struct { name: n, fields: a, type_args: t, span: s },
            ExprForm::Struct { name: m, fields: b, type_args: u, span: r },
        ) => n == m && s == r && (t.len() > 0 ==> u == t) && inits_filled(a, b),
        (
            ExprForm::QualifiedCall { qualifier: q, name: n, args: a, type_args: t, span: s },
            ExprForm::QualifiedCall { qualifier: p, name: m, args: b, type_args: u, span: r },
        ) => q == p && n == m && s == r && (t.len() > 0 ==> u == t) && are_filled(a, b),
        (
            ExprForm::Binary { left: a, operator: o, right: b, span: s },
            ExprForm::Binary { left: c, operator: p, right: d, span: r },
        ) => o == p && s == r && is_filled(*a, *c) && is_filled(*b, *d),
        (
            ExprForm::Unary { operator: o, expr: a, span: s },
            ExprForm::Unary { operator: p, expr: b, span: r },
        ) => o == p && s == r && is_filled(*a, *b),
        (
            ExprForm::Field { expr: a, field: f, span: s },
            ExprForm::Field { expr: b, field: g, span: r },
        ) => f == g && s == r && is_filled(*a, *b),
        (
            ExprForm::Assignment { target: a, value: b, span: s },
            ExprForm::Assignment { target: c, value: d, span: r },
        ) => s == r && is_filled(*a, *c) && is_filled(*b, *d),
        (
            ExprForm::Cast { expr: a, target_type: t, span: s },
            ExprForm::Cast { expr: b, target_type: u, span: r },
        ) => t == u && s == r && is_filled(*a, *b),
        _ => filled == source,
    }
}

pub open spec fn are_filled(source: Seq<ExprForm>, filled: Seq<ExprForm>) -> bool
    decreases source, 0nat,
{
    filled.len() == source.len() && forall|i: int|
        0 <= i < source.len() ==> is_filled(source[i], #[trigger] filled[i])
}

pub open spec fn inits_filled(source: Seq<InitForm>, filled: Seq<InitForm>) -> bool
    decreases source, 0nat,
{
    filled.len() == source.len() && forall|i: int|
        0 <= i < source.len() ==> {
            &&& (#[trigger] filled[i]).name == source[i].name
            &&& filled[i].span == source[i].span
            &&& is_filled(source[i].value, filled[i].value)
        }
}

/// Filling in type arguments changes nothing else of an expression.
pub proof fn lemma_expr_filled(expr: ExprForm, env: Bindings, set: TemplateSet)
    ensures
        is_filled(expr, infer_form(expr, env, set)),
    decreases expr, 0nat,
{
    match expr {
        ExprForm::Call { args, .. } => lemma_exprs_filled(args, env, set),
        ExprForm::QualifiedCall { args, .. } => lemma_exprs_filled(args, env, set),
        ExprForm::Struct { fields, .. } => {
            let filled = infer_inits(fields, env, set);
            assert forall|i: int| 0 <= i < fields.len() implies is_filled(
                fields[i].value,
                (#[trigger] filled[i]).value,
            ) by {
                lemma_expr_filled(fields[i].value, env, set);
            }
            assert(inits_filled(fields, filled));
        },
        ExprForm::Binary { left, right, .. } => {
            lemma_expr_filled(*left, env, set);
            lemma_expr_filled(*right, env, set);
        },
        ExprForm::Unary { expr, .. } => lemma_expr_filled(*expr, env, set),
        ExprForm::Field { expr, .. } => lemma_expr_filled(*expr, env, set),
        ExprForm::Assignment { target, value, .. } => {
            lemma_expr_filled(*target, env, set);
            lemma_expr_filled(*value, env, set);
        },
        ExprForm::Cast { expr, .. } => lemma_expr_filled(*expr, env, set),
        _ => {},
    }
}

proof fn lemma_exprs_filled(items: Seq<ExprForm>, env: Bindings, set: TemplateSet)
    ensures
        are_filled(items, infer_forms(items, env, set)),
    decreases items, 0nat,
{
    let filled = infer_forms(items, env, set);
    assert forall|i: int| 0 <= i < items.len() implies is_filled(items[i], #[trigger] filled[i]) by {
        lemma_expr_filled(items[i], env, set);
    }
}

/// A call of a generic function, a literal of a generic struct and a constructor of a generic enum
/// without type arguments get those that are found for them, if any are.
pub proof fn lemma_found_filled(expr: ExprForm, env: Bindings, set: TemplateSet)
    ensures
        match (expr, infer_form(expr, env, set)) {
            (
                ExprForm::Call { callee, type_args, .. },
                ExprForm::Call { args, type_args: filled, .. },
            ) => match *callee {
                ExprForm::Identifier(name, _) => type_args.len() == 0 ==> match set.function(name) {
                    Some(item) => match solve_call(*item, args, env, set) {
                        Some(found) => filled == found,
                        None => filled.len() == 0,
                    },
                    None => filled.len() == 0,
                },
                _ => filled == type_args,
            },
            (
                ExprForm::Struct { name, type_args, .. },
                ExprForm::Struct { fields, type_args: filled, .. },
            ) => type_args.len() == 0 ==> match set.structure(name) {
                Some(item) => match solve_literal(*item, fields, env, set) {
                    Some(found) => filled == found,
                    None => filled.len() == 0,
                },
                None => filled.len() == 0,
            },
            (
                ExprForm::QualifiedCall { qualifier, name, type_args, .. },
                ExprForm::QualifiedCall { args, type_args: filled, .. },
            ) => type_args.len() == 0 ==> match set.enumeration(qualifier) {
                Some(item) => match solve_variant(*item, name, args, env, set) {
                    Some(found) => filled == found,
                    None => filled.len() == 0,
                },
                None => filled.len() == 0,
            },
            _ => true,
        },
{
}

pub open spec fn value_filled(source: Option<ExprForm>, filled: Option<ExprForm>) -> bool {
    match (source, filled) {
        (Some(a), Some(b)) => is_filled(a, b),
        (None, None) => true,
        _ => false,
    }
}

pub open spec fn arms_filled<'s>(source: Seq<ArmForm<'s>>, filled: Seq<ArmForm<'s>>) -> bool {
    filled.len() == source.len() && forall|i: int|
        0 <= i < source.len() ==> {
            &&& (#[trigger] filled[i]).pattern == source[i].pattern
            &&& filled[i].guard == source[i].guard
            &&& filled[i].span == source[i].span
            &&& is_filled(source[i].body, filled[i].body)
        }
}

/// Whether a statement is another with type arguments filled in.
pub open spec fn is_filled_statement<'s>(source: StatementForm<'s>, filled: StatementForm<'s>) -> bool
    decreases source, 0nat,
{
    match (source, filled) {
        (StatementForm::Let(a), StatementForm::Let(b)) => b == (LetForm { value: b.value, ..a })
            && value_filled(a.value, b.value),
        (StatementForm::Return(a, s), StatementForm::Return(b, r)) => s == r && value_filled(a, b),
        (StatementForm::If(a), StatementForm::If(b)) => is_filled_if(a, b),
        (
            StatementForm::While { condition: a, body: b, span: s },
            StatementForm::While { condition: c, body: d, span: r },
        ) => s == r && is_filled(a, c) && is_filled_block(b, d),
        (StatementForm::Expr(a, s), StatementForm::Expr(b, r)) => s == r && is_filled(a, b),
        (StatementForm::Block(a), StatementForm::Block(b)) => is_filled_block(a, b),
        (
            StatementForm::Match { scrutinee: a, arms: b, span: s },
            StatementForm::Match { scrutinee: c, arms: d, span: r },
        ) => s == r && is_filled(a, c) && arms_filled(b, d),
        _ => filled == source,
    }
}

pub open spec fn is_filled_block<'s>(source: BlockForm<'s>, filled: BlockForm<'s>) -> bool
    decreases source, 1nat,
{
    filled.span == source.span && are_filled_statements(source.statements, filled.statements)
}

pub open spec fn are_filled_statements<'s>(
    source: Seq<StatementForm<'s>>,
    filled: Seq<StatementForm<'s>>,
) -> bool
    decreases source, 0nat,
{
    filled.len() == source.len() && forall|i: int|
        0 <= i < source.len() ==> is_filled_statement(source[i], #[trigger] filled[i])
}

pub open spec fn is_filled_if<'s>(source: IfForm<'s>, filled: IfForm<'s>) -> bool
    decreases source, 1nat,
{
    &&& filled.span == source.span
    &&& is_filled(source.condition, filled.condition)
    &&& is_filled_block(source.then_branch, filled.then_branch)
    &&& match (source.else_branch, filled.else_branch) {
        (Some(a), Some(b)) => is_filled_else(*a, *b),
        (None, None) => true,
        _ => false,
    }
}

pub open spec fn is_filled_else<'s>(source: ElseForm<'s>, filled: ElseForm<'s>) -> bool
    decreases source, 0nat,
{
    match (source, filled) {
        (ElseForm::If(a), ElseForm::If(b)) => is_filled_if(a, b),
        (ElseForm::Block(a), ElseForm::Block(b)) => is_filled_block(a, b),
        (ElseForm::Expr(a), ElseForm::Expr(b)) => is_filled(a, b),
        _ => false,
    }
}

/// Filling in type arguments changes nothing else of a statement.
pub proof fn lemma_statement_filled<'s>(statement: StatementForm<'s>, env: Bindings, set: TemplateSet)
    ensures
        is_filled_statement(statement, infer_statement_form(statement, env, set).0),
    decreases statement, 0nat,
{
    match statement {
        StatementForm::Let(s) => {
            if let Some(value) = s.value {
                lemma_expr_filled(value, env, set);
            }
        },
        StatementForm::Return(value, _) => {
            if let Some(value) = value {
                lemma_expr_filled(value, env, set);
            }
        },
        StatementForm::If(s) => lemma_if_filled(s, env, set),
        StatementForm::While { condition, body, .. } => {
            lemma_expr_filled(condition, env, set);
            lemma_block_filled(body, env, set);
        },
        StatementForm::Expr(expr, _) => lemma_expr_filled(expr, env, set),
        StatementForm::Block(block) => lemma_block_filled(block, env, set),
        StatementForm::Match { scrutinee, arms, .. } => {
            lemma_expr_filled(scrutinee, env, set);
            assert forall|i: int| 0 <= i < arms.len() implies is_filled(
                (#[trigger] arms[i]).body,
                infer_form(arms[i].body, env, set),
            ) by {
                lemma_expr_filled(arms[i].body, env, set);
            }
        },
        _ => {},
    }
}

proof fn lemma_block_filled<'s>(block: BlockForm<'s>, env: Bindings, set: TemplateSet)
    ensures
        is_filled_block(block, infer_block_form(block, env, set).0),
    decreases block, 1nat,
{
    lemma_statements_filled(block.statements, 0, seq![], env, set);
}

proof fn lemma_statements_filled<'s>(
    items: Seq<StatementForm<'s>>,
    at: nat,
    done: Seq<StatementForm<'s>>,
    env: Bindings,
    set: TemplateSet,
)
    requires
        at <= items.len(),
        done.len() == at,
        forall|i: int| 0 <= i < at ==> is_filled_statement(items[i], #[trigger] done[i]),
    ensures
        are_filled_statements(items, infer_statement_forms(items, at, done, env, set).0),
    decreases items, (items.len() - at) as nat,
{
    if at < items.len() {
        let (statement, known) = infer_statement_form(items[at as int], env, set);
        lemma_statement_filled(items[at as int], env, set);
        lemma_statements_filled(items, at + 1, done.push(statement), known, set);
    }
}

proof fn lemma_if_filled<'s>(statement: IfForm<'s>, env: Bindings, set: TemplateSet)
    ensures
        is_filled_if(statement, infer_if_form(statement, env, set)),
    decreases statement, 1nat,
{
    lemma_expr_filled(statement.condition, env, set);
    lemma_block_filled(statement.then_branch, env, set);
    if let Some(branch) = statement.else_branch {
        lemma_else_filled(*branch, env, set);
    }
}

proof fn lemma_else_filled<'s>(branch: ElseForm<'s>, env: Bindings, set: TemplateSet)
    ensures
        is_filled_else(branch, infer_else_form(branch, env, set)),
    decreases branch, 0nat,
{
    match branch {
        ElseForm::If(nested) => lemma_if_filled(nested, env, set),
        ElseForm::Block(block) => lemma_block_filled(block, env, set),
        ElseForm::Expr(expr) => lemma_expr_filled(expr, env, set),
    }
}

/// Filling in type arguments keeps the header of a function and changes nothing else of its body.
pub proof fn lemma_function_filled<'s>(item: FunctionForm<'s>, set: TemplateSet)
    ensures
        infer_function_form(item, set) == (FunctionForm {
            body: infer_function_form(item, set).body,
            ..item
        }),
        is_filled_block(item.body, infer_function_form(item, set).body),
{
    lemma_block_filled(item.body, param_env(item.params), set);
}

/// The variables that are known: a `let` makes its variable known under the type that is written,
/// or else under that of its value. What a branch or a block declares is forgotten after it.
pub proof fn lemma_variables_known<'s>(
    statement: StatementForm<'s>,
    env: Bindings,
    set: TemplateSet,
    name: Seq<char>,
)
    ensures
        match statement {
            StatementForm::Let(s) => {
                let after = bound(infer_statement_form(statement, env, set).1, name);
                if s.name@ != name {
                    after == bound(env, name)
                } else {
                    match (s.typ, infer_statement_form(statement, env, set).0) {
                        (Some(typ), _) => after == Some(typ.shape),
                        (None, StatementForm::Let(filled)) => match filled.value {
                            Some(value) => match expr_type(value, env, set) {
                                Some(typ) => after == Some(typ),
                                None => after == bound(env, name),
                            },
                            None => after == bound(env, name),
                        },
                        _ => false,
                    }
                }
            },
            StatementForm::If(_) | StatementForm::Block(_) | StatementForm::Match { .. }
            | StatementForm::Return(..) | StatementForm::Expr(..) => infer_statement_form(
                statement,
                env,
                set,
            ).1 == env,
            _ => true,
        },
{
    if let StatementForm::Let(s) = statement {
        if let Some(typ) = s.typ {
            lemma_bound(env, s.name@, typ.shape, name);
        } else if let StatementForm::Let(filled) = infer_statement_form(statement, env, set).0 {
            if let Some(value) = filled.value {
                if let Some(typ) = expr_type(value, env, set) {
                    lemma_bound(env, s.name@, typ, name);
                }
            }
        }
    }
}

/// The types that literals, references and casts tell of themselves.
pub proof fn lemma_told_types(expr: ExprForm, env: Bindings, set: TemplateSet)
    ensures
        match expr {
            ExprForm::Integer(..) => expr_type(expr, env, set) == Some(Shape::Word("i32"@)),
            ExprForm::Float(..) => expr_type(expr, env, set) == Some(Shape::Word("f64"@)),
            ExprForm::Bool(..) => expr_type(expr, env, set) == Some(Shape::Word("bool"@)),
            ExprForm::Char(..) => expr_type(expr, env, set) == Some(Shape::Word("char"@)),
            ExprForm::String(..) => expr_type(expr, env, set) == Some(Shape::Word("str"@)),
            ExprForm::Cast { target_type, .. } => expr_type(expr, env, set) == Some(
                target_type.shape,
            ),
            ExprForm::Unary { operator, expr: operand, .. } => match expr_type(
                *operand,
                env,
                set,
            ) {
                Some(typ) => match operator {
                    UnaryOperator::Ref => expr_type(expr, env, set) == Some(
                        Shape::Ref(Box::new(typ), false),
                    ),
                    UnaryOperator::RefMut => expr_type(expr, env, set) == Some(
                        Shape::Ref(Box::new(typ), true),
                    ),
                    UnaryOperator::Deref => match typ {
                        Shape::Ref(target, _) => expr_type(expr, env, set) == Some(*target),
                        _ => expr_type(expr, env, set) == Some(typ),
                    },
                    _ => expr_type(expr, env, set) is None,
                },
                None => expr_type(expr, env, set) is None,
            },
            _ => true,
        },
{
}

} // verus!
