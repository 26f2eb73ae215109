//! What names in a body mean, and what calls, literals and patterns are resolved to.

use crate::ast;
use crate::ast::Span;
use crate::hir::body::{last_binding, Body, BoundTree, LoweredTree};
use crate::hir::error::HirErrorKind;
use crate::hir::scope::Outcome;
use crate::hir::symbols::{symbol_of, SymbolId};
use crate::hir::tree::{
    EnumVariant, FunctionId, FunctionKind, KindTree, PatternKindTree, Res, StructField,
};
use crate::hir::types::{Type, TypeKind};
use crate::hir::typing::{
    bind_generic, bind_generics, inferred_args, missing_field, variant_position,
};
use vstd::prelude::*;

verus! {

/// Whether position `i` holds the last binding of a name.
pub open spec fn is_nearest<'hir>(
    bindings: Seq<(SymbolId, BoundTree<'hir>)>,
    symbol: SymbolId,
    i: int,
) -> bool {
    &&& 0 <= i < bindings.len()
    &&& bindings[i].0 == symbol
    &&& forall|j: int| i < j < bindings.len() ==> (#[trigger] bindings[j]).0 != symbol
}

proof fn lemma_nearest<'hir>(bindings: Seq<(SymbolId, BoundTree<'hir>)>, symbol: SymbolId)
    ensures
        match last_binding(bindings, symbol) {
            Some(bound) => exists|i: int| #[trigger]
                is_nearest(bindings, symbol, i) && bindings[i].1 == bound,
            None => forall|i: int| 0 <= i < bindings.len() ==> (#[trigger] bindings[i]).0 != symbol,
        },
    decreases bindings.len(),
{
    if bindings.len() > 0 {
        let n = bindings.len() - 1;
        if bindings.last().0 == symbol {
            assert(is_nearest(bindings, symbol, n));
        } else {
            let rest = bindings.drop_last();
            lemma_nearest(rest, symbol);
            if let Some(bound) = last_binding(rest, symbol) {
                let i = choose|i: int| #[trigger]
                    is_nearest(rest, symbol, i) && rest[i].1 == bound;
                assert forall|j: int| i < j < bindings.len() implies (#[trigger] bindings[j]).0
                    != symbol by {
                    if j < n {
                        assert(rest[j] == bindings[j]);
                    }
                }
                assert(is_nearest(bindings, symbol, i));
            } else {
                assert forall|i: int| 0 <= i < bindings.len() implies (#[trigger] bindings[i]).0
                    != symbol by {
                    if i < n {
                        assert(rest[i] == bindings[i]);
                    }
                }
            }
        }
    }
}

/// A name that is bound in the body means what the innermost binding says: a later binding hides an
/// earlier one, and any of them hides a constant of an item. Its type is that of the local.
pub proof fn lemma_identifier<'hir>(body: Body<'hir>, name: &'hir str, span: Span, hint: Option<Type>)
    ensures
        ({
            let outcome = body.lower_expr(ast::Expression::Identifier(name, span), hint).1;
            let symbol = symbol_of(body.names.symbols, name@);
            let is_bound = symbol is Some && exists|i: int|
                0 <= i < body.bindings.len() && (#[trigger] body.bindings[i]).0 == symbol->0;
            if is_bound {
                exists|i: int| #[trigger]
                    is_nearest(body.bindings, symbol->0, i) && match body.bindings[i].1 {
                        BoundTree::Local(id) => match outcome {
                            Ok(value) => !body.in_const && value.expr.kind == KindTree::<'hir>::Local(
                                id,
                            ) && (id.0 < body.locals.len() ==> value.typ
                                == body.locals[id.0 as int].typ),
                            Err(error) => body.in_const && error.kind
                                == HirErrorKind::NonConstValue { name: name@ },
                        },
                        BoundTree::Constant(constant) => outcome matches Ok(value)
                            && value.expr.kind == KindTree::Const(Box::new(constant))
                            && value.typ == constant.typ,
                    }
            } else {
                match outcome {
                    Ok(value) => value.expr.kind is Const,
                    Err(error) => error.kind == HirErrorKind::UndeclaredIdentifier { name: name@ },
                }
            }
        }),
{
    if let Some(symbol) = symbol_of(body.names.symbols, name@) {
        lemma_nearest(body.bindings, symbol);
    }
}

/// A name can be bound once in a block. Its local is the next one, has the type and place it was
/// given, and is what the name means from then on.
pub proof fn lemma_declared_local<'hir>(
    body: Body<'hir>,
    symbol: SymbolId,
    typ: Type,
    mutable: bool,
    span: Span,
)
    requires
        body.locals.len() < u32::MAX,
    ensures
        ({
            let (after, outcome) = body.declare_local(symbol, typ, mutable, span);
            let start = if body.marks.len() == 0 {
                0
            } else {
                body.marks.last() as int
            };
            let is_taken = exists|i: int|
                0 <= i < body.bindings.len() && start <= i && (#[trigger] body.bindings[i]).0
                    == symbol;
            match outcome {
                Err(error) => is_taken && after == body && error.kind is DuplicateBind && error.span
                    == span,
                Ok(id) => {
                    &&& !is_taken
                    &&& id.0 == body.locals.len()
                    &&& after.locals.len() == body.locals.len() + 1
                    &&& forall|i: int|
                        0 <= i < body.locals.len() ==> #[trigger] after.locals[i] == body.locals[i]
                    &&& after.locals[id.0 as int].typ == typ
                    &&& after.locals[id.0 as int].mutable == mutable
                    &&& after.locals[id.0 as int].name == symbol
                    &&& after.locals[id.0 as int].decl_span == span
                    &&& is_nearest(after.bindings, symbol, body.bindings.len() as int)
                    &&& after.bindings.last().1 == BoundTree::<'hir>::Local(id)
                },
            }
        }),
{
}

/// The names bound in a block end with it: what was bound before it began is bound after it, and
/// nothing else.
pub proof fn lemma_block_ends<'hir>(before: Body<'hir>, inside: Body<'hir>)
    requires
        before.bindings.len() <= usize::MAX,
        inside.marks == before.push_scope().marks,
        before.bindings.len() <= inside.bindings.len(),
        inside.bindings.take(before.bindings.len() as int) == before.bindings,
    ensures
        inside.pop_scope().bindings == before.bindings,
        inside.pop_scope().marks == before.marks,
{
    assert(before.push_scope().marks.drop_last() =~= before.marks);
}

/// Whether a parameter binds the generic parameter at a position: it is that parameter, or a
/// reference to it.
pub open spec fn binds_generic(param: Type, g: int) -> bool {
    match param.kind() {
        TypeKind::GenericParam(index) => index == g,
        TypeKind::Ref { to, .. } => match Type::from_target(to).kind() {
            TypeKind::GenericParam(index) => index == g,
            _ => false,
        },
        _ => false,
    }
}

/// What a parameter binds it to.
pub open spec fn bound_to(param: Type, actual: Type) -> Type {
    if param.kind() is Ref {
        actual.strip_reference()
    } else {
        actual
    }
}

proof fn lemma_bound(
    params: Seq<Type>,
    actual: Seq<Type>,
    bindings: Seq<Option<Type>>,
    at: int,
    g: int,
)
    requires
        0 <= g < bindings.len(),
        0 <= at,
        params.len() == actual.len(),
    ensures
        ({
            let after = bind_generics(params, actual, bindings, at);
            &&& after.len() == bindings.len()
            &&& bindings[g] is Some ==> after[g] == bindings[g]
            &&& bindings[g] is None ==> match after[g] {
                Some(typ) => exists|i: int| {
                    &&& at <= i < params.len()
                    &&& binds_generic(#[trigger] params[i], g)
                    &&& typ == bound_to(params[i], actual[i])
                    &&& forall|j: int| at <= j < i ==> !binds_generic(#[trigger] params[j], g)
                },
                None => forall|i: int| at <= i < params.len() ==> !binds_generic(#[trigger] params[i], g),
            }
        }),
    decreases params.len() - at,
{
    if at < params.len() {
        let next = bind_generic(params[at], actual[at], bindings);
        lemma_bound(params, actual, next, at + 1, g);
        let after = bind_generics(params, actual, bindings, at);
        if bindings[g] is None && !binds_generic(params[at], g) {
            assert(next[g] is None);
            if let Some(typ) = after[g] {
                let i = choose|i: int| {
                    &&& at + 1 <= i < params.len()
                    &&& binds_generic(#[trigger] params[i], g)
                    &&& typ == bound_to(params[i], actual[i])
                    &&& forall|j: int| at + 1 <= j < i ==> !binds_generic(#[trigger] params[j], g)
                };
                assert(binds_generic(params[i], g));
            }
        }
        if bindings[g] is None && binds_generic(params[at], g) {
            assert(next[g] == Some(bound_to(params[at], actual[at])));
            assert(binds_generic(params[at], g));
        }
    }
}

/// The generic arguments of a call: each is the type of the first argument whose parameter binds it,
/// or the unit where none does.
pub proof fn lemma_generic_arguments(params: Seq<Type>, actual: Seq<Type>, count: nat, g: int)
    requires
        params.len() == actual.len(),
        0 <= g < count,
    ensures
        ({
            let args = inferred_args(params, actual, count);
            &&& args.len() == count
            &&& (exists|i: int| {
                &&& 0 <= i < params.len()
                &&& binds_generic(#[trigger] params[i], g)
                &&& args[g] == bound_to(params[i], actual[i])
                &&& forall|j: int| 0 <= j < i ==> !binds_generic(#[trigger] params[j], g)
            }) || ((forall|i: int| 0 <= i < params.len() ==> !binds_generic(#[trigger] params[i], g))
                && args[g] == Type::new(TypeKind::Unit))
        }),
{
    lemma_bound(params, actual, Seq::new(count, |i: int| None), 0, g);
}

/// What a call by name is: it was resolved to the function of that name, has as many arguments as
/// that function has parameters, and the type of its result.
pub proof fn lemma_call_resolved<'hir>(body: Body<'hir>, call: ast::Call<'hir>, name: &'hir str, at: Span)
    requires
        *call.callee == ast::Expression::Identifier(name, at),
        body.nodes.len() < u32::MAX,
    ensures
        body.lower_expr(ast::Expression::Call(call), None) matches (after, Ok(value)) ==> match (
            body.names.resolve_function_call(None, name@)) {
            None => false,
            Some(id) => match body.names.signature(id) {
                None => false,
                Some(signature) => match signature.kind {
                    FunctionKind::Intrinsic(_) => body.names.generic_fns.contains_key(id.0)
                        || value.expr.kind is IntrinsicCall || value.expr.kind is Syscall,
                    _ => {
                        &&& value.expr.kind is Call
                        &&& call.args@.len() == signature.params@.len()
                        &&& after.nodes.last().def == Some(Res::Function(id))
                        &&& !body.names.generic_fns.contains_key(id.0) ==> value.typ
                            == signature.return_type
                    },
                },
            },
        },
{
    if let (after, Ok(value)) = body.lower_expr(ast::Expression::Call(call), None) {
        assert(body.lower_call(call) == (after, Outcome::<LoweredTree<'hir>>::Ok(value)));
        if let Some(id) = body.names.resolve_function_call(None, name@) {
            assert(body.lower_function_call(id, call.args@, call.type_args@, call.span).0 == after);
            if let Some(signature) = body.names.signature(id) {
                if let Some(template) = crate::hir::table::lookup(body.names.generic_fns, id.0) {
                    let (last, outcome) = body.lower_generic_call(
                        id,
                        signature,
                        *template,
                        call.args@,
                        call.type_args@,
                        call.span,
                    );
                    assert(last == after && outcome == Outcome::<LoweredTree<'hir>>::Ok(value));
                    assert(after.nodes.last().def == Some(Res::Function(id)));
                } else {
                    let (last, outcome) = body.lower_direct_call(
                        id,
                        signature,
                        call.args@,
                        call.type_args@,
                        call.span,
                    );
                    assert(last == after && outcome == Outcome::<LoweredTree<'hir>>::Ok(value));
                    if !(signature.kind is Intrinsic) {
                        assert(after.nodes.last().def == Some(Res::Function(id)));
                    }
                }
            }
        }
    }
}

/// A method that changes its receiver is only called on what may be changed: a mutable reference, or
/// a place in a mutable local.
pub proof fn lemma_method_receiver<'hir>(
    body: Body<'hir>,
    expr: ast::Call<'hir>,
    name: Seq<char>,
    receiver: LoweredTree<'hir>,
    method: SymbolId,
    function: FunctionId,
    signature: crate::hir::scope::FunctionSignature<'hir>,
)
    ensures
        ({
            let (after, outcome) = body.lower_method_args(
                expr,
                name,
                receiver,
                method,
                function,
                signature,
            );
            outcome matches Ok(value) ==> {
                let writes = match signature.kind {
                    FunctionKind::Method(method) => method.mutable,
                    _ => false,
                };
                let writable = match receiver.typ.kind() {
                    TypeKind::Ref { mutable, .. } => mutable,
                    _ => false,
                } || match crate::hir::typing_laws::base_local(receiver.expr) {
                    Some(id) => id.0 < body.locals.len() && body.locals[id.0 as int].mutable,
                    None => false,
                };
                &&& signature.receiver_mutable_spec() ==> writable
                &&& value.typ == signature.return_type
                &&& after.nodes.last().def == Some(Res::Function(function))
            }
        }),
{
    crate::hir::typing_laws::lemma_base_local(receiver.expr);
}

/// What a struct literal lacks: the first field of the definition that is not given.
pub proof fn lemma_missing_field(fields: Seq<StructField>, given: Seq<SymbolId>, at: int)
    requires
        0 <= at,
    ensures
        match missing_field(fields, given, at) {
            None => forall|i: int|
                at <= i < fields.len() ==> given.contains((#[trigger] fields[i]).name),
            Some(name) => !given.contains(name) && exists|i: int|
                at <= i < fields.len() && (#[trigger] fields[i]).name == name,
        },
    decreases fields.len() - at,
{
    if at < fields.len() && given.contains(fields[at].name) {
        lemma_missing_field(fields, given, at + 1);
    }
}

/// The variant of a name.
pub proof fn lemma_variant_found(variants: Seq<EnumVariant>, name: SymbolId, at: int)
    requires
        0 <= at,
        variants.len() <= usize::MAX,
    ensures
        match variant_position(variants, name, at) {
            Some(k) => at <= k < variants.len() && variants[k as int].name == name && forall|i: int|
                at <= i < k ==> (#[trigger] variants[i]).name != name,
            None => forall|i: int| at <= i < variants.len() ==> (#[trigger] variants[i]).name != name,
        },
    decreases variants.len() - at,
{
    if at < variants.len() && variants[at].name != name {
        lemma_variant_found(variants, name, at + 1);
    }
}

/// A pattern that names a variant is that variant of the enum that is matched, and carries a pattern
/// exactly where the variant carries a value.
pub proof fn lemma_variant_pattern<'hir>(
    body: Body<'hir>,
    scrutinee: Type,
    pattern: ast::Pattern<'hir>,
    span: Span,
)
    ensures
        body.lower_pattern(scrutinee, pattern, span).1 matches Ok(tree) ==> match (
            pattern,
            tree.kind,
        ) {
            (
                ast::Pattern::Variant { name, .. },
                PatternKindTree::Variant { id, variant_idx, sub },
            ) => {
                let state = match pattern {
                    ast::Pattern::Variant { qualifier, name, .. } => body.check_qualifier(
                        qualifier,
                        id,
                        name@,
                        span,
                    ).0,
                    _ => body,
                };
                &&& scrutinee.strip_reference().kind() == TypeKind::Enum(id)
                &&& state.names.enumeration(id) is Some
                &&& state.names.enumeration(id)->0.variants@.len() <= usize::MAX ==> {
                    let definition = state.names.enumeration(id)->0;
                    &&& variant_idx < definition.variants@.len()
                    &&& Some(definition.variants@[variant_idx as int].name) == symbol_of(
                        state.names.symbols,
                        name@,
                    )
                    &&& sub is Some == definition.variants@[variant_idx as int].payload is Some
                }
            },
            (ast::Pattern::Ident(name), PatternKindTree::Variant { id, variant_idx, sub }) => {
                scrutinee.kind() == TypeKind::Enum(id)
            },
            _ => true,
        },
{
    if let ast::Pattern::Variant { qualifier, name, sub } = pattern {
        if let TypeKind::Enum(id) = scrutinee.strip_reference().kind() {
            let state = body.check_qualifier(qualifier, id, name@, span).0;
            if let (Some(definition), Some(symbol)) = (
                state.names.enumeration(id),
                state.names.get_id(name@),
            ) {
                if definition.variants@.len() <= usize::MAX {
                    lemma_variant_found(definition.variants@, symbol, 0);
                }
            }
        }
    }
}

/// Where control does not get past a statement: past a `return`, and past an `if` only where both of
/// its branches leave. It gets past loops, and past an `if` without an `else`.
pub proof fn lemma_leaves<'hir>(body: Body<'hir>, statement: ast::Statement<'hir>, is_tail: bool)
    ensures
        body.lower_statement(statement, is_tail).1 matches Ok(step) ==> match statement {
            ast::Statement::Return(_) => step.ends,
            ast::Statement::While(_) | ast::Statement::Loop(_) => !step.ends,
            ast::Statement::Break(_) | ast::Statement::Continue(_) => !step.ends && body.loops > 0,
            ast::Statement::If(branch) => {
                let (next, taken) = body.lower_condition(branch.condition, None).0.lower_block(
                    branch.then_branch,
                    is_tail,
                );
                match (branch.else_branch, taken) {
                    (None, _) => !step.ends,
                    (Some(other), Ok((_, leaves))) => next.lower_else(*other, is_tail).1 matches Ok(
                        (_, other_leaves),
                    ) && step.ends == (leaves && other_leaves),
                    _ => false,
                }
            },
            ast::Statement::Block(block) => body.lower_block(block, is_tail).1 matches Ok(
                (_, leaves),
            ) && step.ends == leaves,
            _ => true,
        },
{
}

/// A function with a result whose body may be left without one is an error.
pub proof fn lemma_must_return<'hir>(
    body: Body<'hir>,
    function: ast::Function<'hir>,
    signature: crate::hir::scope::FunctionSignature<'hir>,
    leaves: bool,
)
    requires
        !body.names.recover,
    ensures
        ({
            let kind = signature.return_type.kind();
            let result = !(kind is Unit) && !(kind is Never) && !(kind is Error);
            match body.check_return(function, signature, leaves).1 {
                Ok(_) => leaves || !result,
                Err(error) => !leaves && result && error.kind is MissingReturn,
            }
        }),
{
}

/// Arrays only agree if they are of one length.
pub proof fn lemma_array_lengths<'hir>(body: Body<'hir>, expected: Type, found: Type, span: Span)
    requires
        !body.names.recover,
        expected != found,
        body.assert_type(expected, found, span).1 is Ok,
    ensures
        match (expected.kind(), found.kind()) {
            (TypeKind::Array(a), TypeKind::Array(b)) => match (
                body.names.arrays.find(a),
                body.names.arrays.find(b),
            ) {
                (Some(a), Some(b)) => a.len == b.len,
                _ => false,
            },
            _ => true,
        },
{
}

/// Known types that are no arrays only agree if they are one type.
pub proof fn lemma_known_types<'hir>(body: Body<'hir>, expected: Type, found: Type, span: Span)
    requires
        !body.names.recover,
        !(expected.kind() is Infer) && !(expected.kind() is Error) && !(expected.kind() is Array),
        !(found.kind() is Infer) && !(found.kind() is Error),
    ensures
        match body.assert_type(expected, found, span) {
            (after, Ok(_)) => expected == found && after == body,
            (after, Err(error)) => expected != found && after == body && error.kind
                == HirErrorKind::TypeMismatch::<Seq<char>> { expected, found } && error.span == span,
        },
{
}

/// An open type agrees with every integer type, which it then is, and with no other known type but
/// that of what never gives a value.
pub proof fn lemma_open_type<'hir>(body: Body<'hir>, open: Type, known: Type, span: Span)
    requires
        !body.names.recover,
        crate::hir::typing_laws::sound(body.infer),
        open.infer_var() matches Some(var) && var < body.infer.len(),
        body.infer.resolve_shallow(open).is_infer(),
        !(known.kind() is Infer) && !(known.kind() is Error) && !(known.kind() is Never),
    ensures
        match body.assert_type(open, known, span) {
            (after, Ok(_)) => crate::hir::typing_laws::is_integer_type(known.kind())
                && after.infer.resolve_shallow(open) == known,
            (_, Err(_)) => !crate::hir::typing_laws::is_integer_type(known.kind()),
        },
        match body.assert_type(known, open, span) {
            (after, Ok(_)) => crate::hir::typing_laws::is_integer_type(known.kind())
                && after.infer.resolve_shallow(open) == known,
            (_, Err(_)) => !crate::hir::typing_laws::is_integer_type(known.kind()),
        },
{
}

/// The arms of a match give values of one type, apart from those that never give one.
pub proof fn lemma_arm_type<'hir>(
    body: Body<'hir>,
    arm: ast::Arm<'hir>,
    scrutinee: Type,
    expected: Type,
)
    requires
        body.lower_arm(arm, scrutinee, Some(expected)).1 is Ok,
    ensures
        ({
            let next = body.lower_arm(arm, scrutinee, Some(expected)).1->Ok_0.1;
            exists|state: Body<'hir>|
                match #[trigger] state.lower_expr(arm.body, Some(expected)) {
                    (last, Ok(value)) => if value.typ.kind() is Never {
                        next == Some(value.typ)
                    } else {
                        &&& next == Some(expected)
                        &&& last.assert_type(expected, value.typ, value.span).1 is Ok
                    },
                    _ => false,
                }
        }),
{
    let start = body.push_scope();
    if let (state, Ok(_)) = start.lower_pattern(
        scrutinee,
        arm.pattern.value,
        arm.pattern.span,
    ) {
        let ready = match arm.guard {
            None => state,
            Some(guard) => state.lower_condition(guard, None).0,
        };
        let (last, outcome) = ready.lower_expr(arm.body, Some(expected));
        assert(outcome is Ok);
    }
}

/// A `let` binds its name to a new local that may be written to just where it says so. The local has
/// the type that is written, which that of the value was required to be, or else that of the value.
pub proof fn lemma_let_type<'hir>(body: Body<'hir>, statement: ast::Let<'hir>)
    requires
        !body.names.recover,
        body.locals.len() < u32::MAX,
        body.lower_let(statement).1 is Ok,
    ensures
        match (statement.typ, statement.value) {
            (Some(annotation), value) => match body.resolve_type(annotation) {
                (state, Ok(typ)) => {
                    let (named, symbol) = state.insert(statement.name@);
                    let (declared, outcome) = named.declare_local(
                        symbol,
                        typ,
                        statement.mutable,
                        statement.name_span,
                    );
                    &&& outcome is Ok
                    &&& value matches Some(value) ==> match declared.lower_expr(value, Some(typ)) {
                        (last, Ok(init)) => last.assert_type(typ, init.typ, init.span).1 is Ok,
                        _ => false,
                    }
                },
                _ => false,
            },
            (None, Some(value)) => match body.lower_expr(value, None) {
                (state, Ok(init)) => {
                    let (named, symbol) = state.insert(statement.name@);
                    let (after, outcome) = named.declare_local(
                        symbol,
                        init.typ,
                        statement.mutable,
                        statement.name_span,
                    );
                    outcome is Ok && body.lower_let(statement).0 == after
                },
                _ => false,
            },
            (None, None) => false,
        },
{
    match (statement.typ, statement.value) {
        (Some(annotation), value) => {
            body.lemma_resolve_type_grows(annotation);
            let (state, outcome) = body.resolve_type(annotation);
            lemma_still_strict(body, state);
            if let Ok(typ) = outcome {
                let (named, symbol) = state.insert(statement.name@);
                let (declared, outcome) = named.declare_local(
                    symbol,
                    typ,
                    statement.mutable,
                    statement.name_span,
                );
                if let Some(value) = value {
                    declared.lemma_lower_expr_grows(value, Some(typ));
                    lemma_still_strict(declared, declared.lower_expr(value, Some(typ)).0);
                }
            }
        },
        (None, Some(value)) => {
            body.lemma_lower_expr_grows(value, None);
            lemma_still_strict(body, body.lower_expr(value, None).0);
        },
        _ => {},
    }
}

proof fn lemma_still_strict<'hir>(before: Body<'hir>, after: Body<'hir>)
    requires
        crate::hir::growth::extends(before.ledger(), after.ledger()),
    ensures
        after.names.recover == before.names.recover,
{
    reveal(crate::hir::growth::extends);
}

/// What is returned must have the type of the function's result.
pub proof fn lemma_returned_type<'hir>(
    body: Body<'hir>,
    statement: ast::Return<'hir>,
    value: ast::Expression<'hir>,
    is_tail: bool,
)
    requires
        statement.value == Some(value),
        body.lower_statement(ast::Statement::Return(statement), is_tail).1 is Ok,
    ensures
        match body.lower_expr(value, Some(body.return_type)) {
            (state, Ok(lowered)) => state.assert_type(body.return_type, lowered.typ, lowered.span).1
                is Ok,
            _ => false,
        },
{
}

/// A constant function calls only constant functions and what is built in, and system calls are made
/// only by the standard library.
pub proof fn lemma_call_allowed<'hir>(
    body: Body<'hir>,
    id: FunctionId,
    args: Seq<ast::Expression<'hir>>,
    type_args: Seq<ast::Spanned<ast::Type<'hir>>>,
    span: Span,
)
    requires
        body.lower_function_call(id, args, type_args, span).1 is Ok,
        !body.names.generic_fns.contains_key(id.0),
    ensures
        match body.names.signature(id) {
            None => false,
            Some(signature) => match signature.kind {
                FunctionKind::Intrinsic(crate::hir::tree::Intrinsic::Syscall) => body.names.in_std
                    && 1 <= args.len() <= 7,
                FunctionKind::Intrinsic(_) => true,
                _ => body.is_const ==> signature.is_const,
            },
        },
{
}

/// `break` and `continue` stand in loops, and only there: the body of a loop is one.
pub proof fn lemma_loop_control<'hir>(body: Body<'hir>, span: Span, is_tail: bool)
    ensures
        body.lower_statement(ast::Statement::Break(span), is_tail).1 is Ok == (body.loops > 0),
        body.lower_statement(ast::Statement::Continue(span), is_tail).1 is Ok == (body.loops > 0),
{
}

/// The body of a loop is lowered with one loop more around it, and after it there are as many as
/// before.
pub proof fn lemma_loop_body<'hir>(body: Body<'hir>, block: ast::Block<'hir>)
    requires
        body.loops < usize::MAX,
    ensures
        exists|inside: Body<'hir>| {
            let (after, outcome) = #[trigger] inside.lower_block(block, false);
            &&& inside.loops == body.loops + 1
            &&& inside.bindings == body.bindings
            &&& inside.names == body.names
            &&& inside.locals == body.locals
            &&& match (outcome, body.lower_loop_body(block)) {
                (Ok((tree, _)), (last, Ok(lowered))) => tree == lowered && last.loops == body.loops
                    && last.names == after.names,
                (Err(a), (_, Err(b))) => a == b,
                _ => false,
            }
        },
{
    let inside = Body { loops: body.loops.wrapping_add(1), ..body };
    let (after, outcome) = inside.lower_block(block, false);
    assert(inside.loops == body.loops + 1);
}

/// What a loop binds: an integer of the type of the range, or an element of what is gone through.
/// Neither may be written to.
pub proof fn lemma_loop_binding<'hir>(body: Body<'hir>, header: ast::LoopHeader<'hir>)
    requires
        body.lower_header(header).1 is Ok,
    ensures
        match header {
            ast::LoopHeader::Infinite => true,
            ast::LoopHeader::Range { binding, start, end, .. } => match body.lower_expr(start, None) {
                (state, Ok(first)) => match state.lower_checked(
                    end,
                    state.infer.resolve_shallow(first.typ),
                ) {
                    (last, Ok(_)) => {
                        let typ = last.infer.resolve_shallow(first.typ);
                        &&& crate::hir::typing_laws::is_integer_type(typ.kind()) || typ.kind()
                            is Infer || typ.kind() is Error
                        &&& binding matches Some(binding) ==> {
                            let (named, symbol) = last.insert(binding.value@);
                            let (after, outcome) = named.declare_local(
                                symbol,
                                typ,
                                false,
                                binding.span,
                            );
                            outcome is Ok && after == body.lower_header(header).0
                        }
                    },
                    _ => false,
                },
                _ => false,
            },
            ast::LoopHeader::Iterable { binding, iterable } => match body.lower_expr(
                iterable,
                None,
            ) {
                (state, Ok(value)) => {
                    let element = match value.typ.strip_reference().kind() {
                        TypeKind::Slice { element, .. } => Some(Type::from_target(element)),
                        TypeKind::Array(id) => match state.names.arrays.find(id) {
                            Some(array) => Some(array.element),
                            None => None,
                        },
                        _ => None,
                    };
                    &&& element is Some
                    &&& {
                        let (named, symbol) = state.insert(binding.value@);
                        let (after, outcome) = named.declare_local(
                            symbol,
                            element->0,
                            false,
                            binding.span,
                        );
                        outcome is Ok && after == body.lower_header(header).0
                    }
                },
                _ => false,
            },
        },
{
}

/// The last statement of a block gives the value of the block: it is lowered as the end of the
/// function where the block is one, and no other is. Where control does not get past some statement
/// it does not get past the block.
pub proof fn lemma_last_statement<'hir>(
    body: Body<'hir>,
    statements: Seq<ast::Statement<'hir>>,
    at: nat,
    is_tail: bool,
    lowered: Seq<crate::hir::tree::StatementTree<'hir>>,
    ends: bool,
)
    requires
        !body.names.recover,
        at < statements.len(),
        body.lower_statements(statements, at, is_tail, lowered, ends).1 is Ok,
    ensures
        ({
            let (all, leaves) = body.lower_statements(statements, at, is_tail, lowered, ends).1->Ok_0;
            &&& ends ==> leaves
            &&& exists|state: Body<'hir>|
                match #[trigger] state.lower_statement(statements.last(), is_tail).1 {
                    Ok(step) => {
                        &&& step.ends ==> leaves
                        &&& step.statement matches Some(tree) ==> all.len() > 0 && all.last() == tree
                    },
                    Err(_) => false,
                }
        }),
    decreases statements.len() - at,
{
    let tail = is_tail && at + 1 == statements.len();
    let (next, outcome) = body.lower_statement(statements[at as int], tail);
    body.lemma_lower_statement_grows(statements[at as int], tail);
    lemma_still_strict(body, next);
    if let Ok(step) = outcome {
        let more = match step.statement {
            Some(tree) => lowered.push(tree),
            None => lowered,
        };
        if at + 1 < statements.len() {
            lemma_last_statement(next, statements, at + 1, is_tail, more, ends || step.ends);
        } else {
            assert(statements.last() == statements[at as int]);
            assert(tail == is_tail);
            assert(next.lower_statements(statements, at + 1, is_tail, more, ends || step.ends).1
                == Outcome::<(Seq<crate::hir::tree::StatementTree<'hir>>, bool)>::Ok(
                (more, ends || step.ends),
            ));
        }
    }
}

/// At the end of a function with a result, an expression and a match leave it: control does not get
/// past them.
pub proof fn lemma_tail_leaves<'hir>(body: Body<'hir>, statement: ast::Statement<'hir>)
    requires
        statement is Expr || statement is Match,
        body.lower_statement(statement, true).1 is Ok,
    ensures
        match statement {
            ast::Statement::Expr(expr, _) => {
                let state = body.lower_expr(
                    expr,
                    if body.return_type.kind() is Unit {
                        None
                    } else {
                        Some(body.return_type)
                    },
                ).0;
                !(state.return_type.kind() is Unit) ==> body.lower_statement(statement, true).1->Ok_0.ends
            },
            _ => true,
        },
{
}

} // verus!
