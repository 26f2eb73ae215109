//! Why no call is overlooked when the functions that a program needs are told.

use crate::ast::{Arm, Block, Else, Expression, FieldInit, If, ItemKind, LoopHeader, Statement};
use crate::hir::scope::Names;
use crate::hir::tree::{FunctionId, FunctionTree};
use crate::module::demand::{declared_as, width, Calls, Declared};
use crate::module::loader::Demand;
use vstd::prelude::*;

verus! {

/// Whether an expression stands somewhere in another. What a method is called on is not looked
/// into.
pub open spec fn in_expr<'s>(outer: Expression<'s>, inner: Expression<'s>) -> bool
    decreases outer, 0nat,
{
    outer == inner || match outer {
        Expression::Call(call) => in_exprs(call.args@, inner) || (!(*call.callee is Field)
            && in_expr(*call.callee, inner)),
        Expression::QualifiedCall(call) => in_exprs(call.args@, inner),
        Expression::Binary(binary) => in_expr(*binary.left, inner) || in_expr(*binary.right, inner),
        Expression::Unary(unary) => in_expr(*unary.expr, inner),
        Expression::Assignment(assignment) => in_expr(*assignment.target, inner) || in_expr(
            *assignment.value,
            inner,
        ),
        Expression::Cast(cast) => in_expr(*cast.expr, inner),
        Expression::Struct(literal) => in_fields(literal.fields@, inner),
        Expression::Field(access) => in_expr(*access.expr, inner),
        Expression::Array(literal) => in_exprs(literal.elements@, inner),
        Expression::ArrayRepeat(literal) => in_expr(*literal.value, inner),
        Expression::Index(access) => in_expr(*access.base, inner) || in_expr(*access.index, inner),
        _ => false,
    }
}

pub open spec fn in_exprs<'s>(items: Seq<Expression<'s>>, inner: Expression<'s>) -> bool
    decreases items, 0nat,
{
    exists|i: int| 0 <= i < items.len() && in_expr(#[trigger] items[i], inner)
}

pub open spec fn in_fields<'s>(items: Seq<FieldInit<'s>>, inner: Expression<'s>) -> bool
    decreases items, 0nat,
{
    exists|i: int| 0 <= i < items.len() && in_expr((#[trigger] items[i]).value, inner)
}

pub open spec fn in_optional<'s>(outer: Option<Expression<'s>>, inner: Expression<'s>) -> bool {
    outer matches Some(outer) && in_expr(outer, inner)
}

/// Whether an expression stands somewhere in a statement.
pub open spec fn in_statement<'s>(outer: Statement<'s>, inner: Expression<'s>) -> bool
    decreases outer, 0nat,
{
    match outer {
        Statement::Let(binding) => in_optional(binding.value, inner),
        Statement::Return(statement) => in_optional(statement.value, inner),
        Statement::If(branch) => in_if(branch, inner),
        Statement::While(statement) => in_expr(statement.condition, inner) || in_block(
            statement.body,
            inner,
        ),
        Statement::Loop(statement) => in_header(statement.header, inner) || in_block(
            statement.body,
            inner,
        ),
        Statement::Expr(expr, _) => in_expr(expr, inner),
        Statement::Block(block) => in_block(block, inner),
        Statement::Match(statement) => in_expr(statement.scrutinee, inner) || in_arms(
            statement.arms@,
            inner,
        ),
        Statement::Item(item) => match item.kind {
            ItemKind::Const(constant) => in_expr(constant.value, inner),
            _ => false,
        },
        Statement::Break(_) | Statement::Continue(_) => false,
    }
}

pub open spec fn in_header<'s>(header: LoopHeader<'s>, inner: Expression<'s>) -> bool {
    match header {
        LoopHeader::Infinite => false,
        LoopHeader::Range { start, end, .. } => in_expr(start, inner) || in_expr(end, inner),
        LoopHeader::Iterable { iterable, .. } => in_expr(iterable, inner),
    }
}

pub open spec fn in_if<'s>(branch: If<'s>, inner: Expression<'s>) -> bool
    decreases branch, 0nat,
{
    ||| in_expr(branch.condition, inner)
    ||| in_block(branch.then_branch, inner)
    ||| match branch.else_branch {
        Some(other) => match *other {
            Else::If(branch) => in_if(branch, inner),
            Else::Block(block) => in_block(block, inner),
            Else::Expr(expr) => in_expr(expr, inner),
        },
        None => false,
    }
}

pub open spec fn in_arms<'s>(items: Seq<Arm<'s>>, inner: Expression<'s>) -> bool {
    exists|i: int|
        0 <= i < items.len() && (in_optional((#[trigger] items[i]).guard, inner) || in_expr(
            items[i].body,
            inner,
        ))
}

/// Whether an expression stands somewhere in a block.
pub open spec fn in_block<'s>(block: Block<'s>, inner: Expression<'s>) -> bool
    decreases block, 1nat,
{
    in_statements(block.statements@, inner)
}

pub open spec fn in_statements<'s>(items: Seq<Statement<'s>>, inner: Expression<'s>) -> bool
    decreases items, 0nat,
{
    exists|i: int| 0 <= i < items.len() && in_statement(#[trigger] items[i], inner)
}

/// The function that an expression calls by name, if it does.
pub open spec fn called<'hir>(names: Names<'hir>, expr: Expression<'hir>) -> Option<FunctionId> {
    match expr {
        Expression::Call(call) => match *call.callee {
            Expression::Identifier(name, _) => names.resolve_function_call(None, name@),
            _ => None,
        },
        Expression::QualifiedCall(call) => names.resolve_function_call(
            Some(call.qualifier@),
            call.name@,
        ),
        Expression::TypeIntrinsic(question) => names.resolve_function_call(
            match question.qualifier {
                Some(qualifier) => Some(qualifier@),
                None => None,
            },
            question.kind.name()@,
        ),
        _ => None,
    }
}

/// Whether an expression may call a method: it does, or it compares.
pub open spec fn calls_method<'hir>(expr: Expression<'hir>) -> bool {
    match expr {
        Expression::Call(call) => *call.callee is Field,
        Expression::Binary(binary) => {
            let operator = binary.operator;
            operator is Eq || operator is Ne || operator is Lt || operator is LtEq || operator is Gt
                || operator is GtEq
        },
        _ => false,
    }
}

/// Whether calls account for an expression.
pub open spec fn counted<'hir>(names: Names<'hir>, calls: Calls, expr: Expression<'hir>) -> bool {
    &&& called(names, expr) matches Some(id) ==> calls.ids.contains(id)
    &&& calls_method(expr) ==> calls.methods
}

/// What was called before still is.
spec fn more(before: Calls, after: Calls) -> bool {
    &&& forall|id: FunctionId| before.ids.contains(id) ==> #[trigger] after.ids.contains(id)
    &&& before.methods ==> after.methods
}

proof fn lemma_with(calls: Calls, id: Option<FunctionId>)
    ensures
        more(calls, calls.with(id)),
        id matches Some(id) ==> calls.with(Some(id)).ids.contains(id),
{
    if let Some(id) = id {
        let after = calls.with(Some(id));
        assert forall|other: FunctionId| calls.ids.contains(other) implies #[trigger] after.ids.contains(
            other,
        ) by {
            let i = choose|i: int| 0 <= i < calls.ids.len() && calls.ids[i] == other;
            assert(after.ids[i] == other);
        }
        assert(after.ids[calls.ids.len() as int] == id);
    }
}

proof fn lemma_expr<'hir>(names: Names<'hir>, calls: Calls, expr: Expression<'hir>, inner: Expression<'hir>)
    ensures
        more(calls, names.expr_calls(calls, expr)),
        in_expr(expr, inner) ==> counted(names, names.expr_calls(calls, expr), inner),
    decreases expr, 0nat,
{
    reveal_with_fuel(in_expr, 3);
    match expr {
        Expression::Call(call) => {
            lemma_with(calls, called(names, expr));
            let named = match *call.callee {
                Expression::Identifier(name, _) => calls.with(
                    names.resolve_function_call(None, name@),
                ),
                Expression::Field(_) => calls.with_methods(),
                _ => {
                    names.expr_calls(calls, *call.callee)
                },
            };
            if !(*call.callee is Identifier) && !(*call.callee is Field) {
                lemma_expr(names, calls, *call.callee, inner);
            }
            lemma_exprs(names, named, call.args@, 0, inner);
            let after = names.exprs_calls(named, call.args@, 0);
            assert(names.expr_calls(calls, expr) == after);
            if in_expr(expr, inner) {
                assert(counted(names, after, inner)) by {
                    if inner == expr {
                        assert(counted(names, named, inner));
                    } else if !in_exprs(call.args@, inner) {
                        assert(in_expr(*call.callee, inner));
                        match *call.callee {
                            Expression::Identifier(..) => {
                                assert(inner == *call.callee);
                            },
                            _ => {
                                assert(counted(names, named, inner));
                            },
                        }
                    }
                }
            }
        },
        Expression::QualifiedCall(call) => {
            lemma_with(calls, called(names, expr));
            let named = calls.with(called(names, expr));
            lemma_exprs(names, named, call.args@, 0, inner);
        },
        Expression::TypeIntrinsic(question) => {
            lemma_with(calls, called(names, expr));
        },
        Expression::Binary(binary) => {
            let compared = if calls_method(expr) {
                calls.with_methods()
            } else {
                calls
            };
            lemma_expr(names, compared, *binary.left, inner);
            let next = names.expr_calls(compared, *binary.left);
            lemma_expr(names, next, *binary.right, inner);
        },
        Expression::Unary(unary) => {
            lemma_expr(names, calls, *unary.expr, inner);
        },
        Expression::Assignment(assignment) => {
            lemma_expr(names, calls, *assignment.target, inner);
            let next = names.expr_calls(calls, *assignment.target);
            lemma_expr(names, next, *assignment.value, inner);
        },
        Expression::Cast(cast) => {
            lemma_expr(names, calls, *cast.expr, inner);
        },
        Expression::Struct(literal) => {
            lemma_fields(names, calls, literal.fields@, 0, inner);
        },
        Expression::Field(access) => {
            lemma_expr(names, calls, *access.expr, inner);
        },
        Expression::Array(literal) => {
            lemma_exprs(names, calls, literal.elements@, 0, inner);
        },
        Expression::ArrayRepeat(literal) => {
            lemma_expr(names, calls, *literal.value, inner);
        },
        Expression::Index(access) => {
            lemma_expr(names, calls, *access.base, inner);
            let next = names.expr_calls(calls, *access.base);
            lemma_expr(names, next, *access.index, inner);
        },
        _ => {},
    }
}

proof fn lemma_exprs<'hir>(
    names: Names<'hir>,
    calls: Calls,
    items: Seq<Expression<'hir>>,
    at: nat,
    inner: Expression<'hir>,
)
    ensures
        more(calls, names.exprs_calls(calls, items, at)),
        forall|i: int|
            at <= i < items.len() && in_expr(#[trigger] items[i], inner) ==> counted(
                names,
                names.exprs_calls(calls, items, at),
                inner,
            ),
    decreases items, (items.len() - at) as nat,
{
    if at < items.len() {
        lemma_expr(names, calls, items[at as int], inner);
        let next = names.expr_calls(calls, items[at as int]);
        lemma_exprs(names, next, items, at + 1, inner);
    }
}

proof fn lemma_fields<'hir>(
    names: Names<'hir>,
    calls: Calls,
    items: Seq<FieldInit<'hir>>,
    at: nat,
    inner: Expression<'hir>,
)
    ensures
        more(calls, names.fields_calls(calls, items, at)),
        forall|i: int|
            at <= i < items.len() && in_expr((#[trigger] items[i]).value, inner) ==> counted(
                names,
                names.fields_calls(calls, items, at),
                inner,
            ),
    decreases items, (items.len() - at) as nat,
{
    if at < items.len() {
        lemma_expr(names, calls, items[at as int].value, inner);
        let next = names.expr_calls(calls, items[at as int].value);
        lemma_fields(names, next, items, at + 1, inner);
    }
}

proof fn lemma_statement<'hir>(
    names: Names<'hir>,
    calls: Calls,
    statement: Statement<'hir>,
    inner: Expression<'hir>,
)
    ensures
        more(calls, names.statement_calls(calls, statement)),
        in_statement(statement, inner) ==> counted(
            names,
            names.statement_calls(calls, statement),
            inner,
        ),
    decreases statement, 0nat,
{
    match statement {
        Statement::Let(binding) => if let Some(value) = binding.value {
            lemma_expr(names, calls, value, inner);
        },
        Statement::Return(statement) => if let Some(value) = statement.value {
            lemma_expr(names, calls, value, inner);
        },
        Statement::If(branch) => {
            lemma_if(names, calls, branch, inner);
        },
        Statement::While(statement) => {
            lemma_expr(names, calls, statement.condition, inner);
            let next = names.expr_calls(calls, statement.condition);
            lemma_block(names, next, statement.body, inner);
        },
        Statement::Loop(statement) => {
            let next = match statement.header {
                LoopHeader::Infinite => calls,
                LoopHeader::Range { start, end, .. } => {
                    names.expr_calls(names.expr_calls(calls, start), end)
                },
                LoopHeader::Iterable { iterable, .. } => names.expr_calls(calls, iterable),
            };
            match statement.header {
                LoopHeader::Infinite => {},
                LoopHeader::Range { start, end, .. } => {
                    lemma_expr(names, calls, start, inner);
                    lemma_expr(names, names.expr_calls(calls, start), end, inner);
                },
                LoopHeader::Iterable { iterable, .. } => {
                    lemma_expr(names, calls, iterable, inner);
                },
            }
            lemma_block(names, next, statement.body, inner);
        },
        Statement::Expr(expr, _) => {
            lemma_expr(names, calls, expr, inner);
        },
        Statement::Block(block) => {
            lemma_block(names, calls, block, inner);
        },
        Statement::Match(statement) => {
            lemma_expr(names, calls, statement.scrutinee, inner);
            let next = names.expr_calls(calls, statement.scrutinee);
            lemma_arms(names, next, statement.arms@, 0, inner);
        },
        Statement::Item(item) => match item.kind {
            ItemKind::Const(constant) => {
                lemma_expr(names, calls, constant.value, inner);
            },
            _ => {},
        },
        _ => {},
    }
}

proof fn lemma_if<'hir>(names: Names<'hir>, calls: Calls, branch: If<'hir>, inner: Expression<'hir>)
    ensures
        more(calls, names.if_calls(calls, branch)),
        in_if(branch, inner) ==> counted(names, names.if_calls(calls, branch), inner),
    decreases branch, 0nat,
{
    lemma_expr(names, calls, branch.condition, inner);
    let tested = names.expr_calls(calls, branch.condition);
    lemma_block(names, tested, branch.then_branch, inner);
    let taken = names.block_calls(tested, branch.then_branch);
    if let Some(other) = branch.else_branch {
        match *other {
            Else::If(branch) => {
                lemma_if(names, taken, branch, inner);
            },
            Else::Block(block) => {
                lemma_block(names, taken, block, inner);
            },
            Else::Expr(expr) => {
                lemma_expr(names, taken, expr, inner);
            },
        }
    }
}

proof fn lemma_arms<'hir>(
    names: Names<'hir>,
    calls: Calls,
    items: Seq<Arm<'hir>>,
    at: nat,
    inner: Expression<'hir>,
)
    ensures
        more(calls, names.arms_calls(calls, items, at)),
        forall|i: int|
            at <= i < items.len() && (in_optional((#[trigger] items[i]).guard, inner) || in_expr(
                items[i].body,
                inner,
            )) ==> counted(names, names.arms_calls(calls, items, at), inner),
    decreases items.len() - at,
{
    if at < items.len() {
        let arm = items[at as int];
        let guarded = match arm.guard {
            Some(guard) => names.expr_calls(calls, guard),
            None => calls,
        };
        if let Some(guard) = arm.guard {
            lemma_expr(names, calls, guard, inner);
        }
        lemma_expr(names, guarded, arm.body, inner);
        let next = names.expr_calls(guarded, arm.body);
        lemma_arms(names, next, items, at + 1, inner);
    }
}

proof fn lemma_block<'hir>(names: Names<'hir>, calls: Calls, block: Block<'hir>, inner: Expression<'hir>)
    ensures
        more(calls, names.block_calls(calls, block)),
        in_block(block, inner) ==> counted(names, names.block_calls(calls, block), inner),
    decreases block, 1nat,
{
    lemma_statements(names, calls, block.statements@, 0, inner);
}

proof fn lemma_statements<'hir>(
    names: Names<'hir>,
    calls: Calls,
    items: Seq<Statement<'hir>>,
    at: nat,
    inner: Expression<'hir>,
)
    ensures
        more(calls, names.statements_calls(calls, items, at)),
        forall|i: int|
            at <= i < items.len() && in_statement(#[trigger] items[i], inner) ==> counted(
                names,
                names.statements_calls(calls, items, at),
                inner,
            ),
    decreases items, (items.len() - at) as nat,
{
    if at < items.len() {
        lemma_statement(names, calls, items[at as int], inner);
        let next = names.statement_calls(calls, items[at as int]);
        lemma_statements(names, next, items, at + 1, inner);
    }
}

/// Whether every call that came in stands at a place.
spec fn placed<'hir>(
    names: Names<'hir>,
    before: Calls,
    after: Calls,
    place: spec_fn(Expression<'hir>) -> bool,
) -> bool {
    &&& forall|id: FunctionId| #[trigger]
        after.ids.contains(id) ==> before.ids.contains(id) || exists|inner: Expression<'hir>|
            place(inner) && #[trigger] called(names, inner) == Some(id)
    &&& after.methods ==> before.methods || exists|inner: Expression<'hir>|
        place(inner) && #[trigger] calls_method(inner)
}

proof fn lemma_placed<'hir>(
    names: Names<'hir>,
    a: Calls,
    b: Calls,
    c: Calls,
    first: spec_fn(Expression<'hir>) -> bool,
    second: spec_fn(Expression<'hir>) -> bool,
    whole: spec_fn(Expression<'hir>) -> bool,
)
    requires
        placed(names, a, b, first),
        placed(names, b, c, second),
        forall|inner: Expression<'hir>| first(inner) ==> #[trigger] whole(inner),
        forall|inner: Expression<'hir>| second(inner) ==> #[trigger] whole(inner),
    ensures
        placed(names, a, c, whole),
{
    assert forall|id: FunctionId| #[trigger]
        c.ids.contains(id) implies a.ids.contains(id) || exists|inner: Expression<'hir>|
        whole(inner) && #[trigger] called(names, inner) == Some(id) by {
        if !a.ids.contains(id) {
            if b.ids.contains(id) {
                let inner = choose|inner: Expression<'hir>|
                    first(inner) && #[trigger] called(names, inner) == Some(id);
                assert(whole(inner));
            } else {
                let inner = choose|inner: Expression<'hir>|
                    second(inner) && #[trigger] called(names, inner) == Some(id);
                assert(whole(inner));
            }
        }
    }
    if c.methods && !a.methods {
        if b.methods {
            let inner = choose|inner: Expression<'hir>|
                first(inner) && #[trigger] calls_method(inner);
            assert(whole(inner));
        } else {
            let inner = choose|inner: Expression<'hir>|
                second(inner) && #[trigger] calls_method(inner);
            assert(whole(inner));
        }
    }
}

/// What a single expression adds.
proof fn lemma_added<'hir>(names: Names<'hir>, calls: Calls, expr: Expression<'hir>, after: Calls)
    requires
        after == calls.with(called(names, expr)) || (calls_method(expr) && after
            == calls.with_methods()) || after == calls,
    ensures
        placed(names, calls, after, |inner: Expression<'hir>| inner == expr),
{
    let place = |inner: Expression<'hir>| inner == expr;
    assert(place(expr));
    assert forall|id: FunctionId| #[trigger]
        after.ids.contains(id) implies calls.ids.contains(id) || exists|inner: Expression<'hir>|
        place(inner) && #[trigger] called(names, inner) == Some(id) by {
        let i = choose|i: int| 0 <= i < after.ids.len() && after.ids[i] == id;
        if i < calls.ids.len() {
            assert(calls.ids[i] == id);
        } else {
            assert(called(names, expr) == Some(id));
        }
    }
    if after.methods && !calls.methods {
        assert(calls_method(expr));
    }
}

spec fn inside_expr<'s>(outer: Expression<'s>) -> spec_fn(Expression<'s>) -> bool {
    |inner: Expression<'s>| in_expr(outer, inner)
}

spec fn inside_exprs<'s>(items: Seq<Expression<'s>>) -> spec_fn(Expression<'s>) -> bool {
    |inner: Expression<'s>| in_exprs(items, inner)
}

spec fn inside_fields<'s>(items: Seq<FieldInit<'s>>) -> spec_fn(Expression<'s>) -> bool {
    |inner: Expression<'s>| in_fields(items, inner)
}

spec fn inside_statement<'s>(outer: Statement<'s>) -> spec_fn(Expression<'s>) -> bool {
    |inner: Expression<'s>| in_statement(outer, inner)
}

spec fn inside_statements<'s>(items: Seq<Statement<'s>>) -> spec_fn(Expression<'s>) -> bool {
    |inner: Expression<'s>| in_statements(items, inner)
}

spec fn inside_block<'s>(outer: Block<'s>) -> spec_fn(Expression<'s>) -> bool {
    |inner: Expression<'s>| in_block(outer, inner)
}

spec fn inside_if<'s>(outer: If<'s>) -> spec_fn(Expression<'s>) -> bool {
    |inner: Expression<'s>| in_if(outer, inner)
}

spec fn inside_arms<'s>(items: Seq<Arm<'s>>) -> spec_fn(Expression<'s>) -> bool {
    |inner: Expression<'s>| in_arms(items, inner)
}

proof fn lemma_nothing<'hir>(names: Names<'hir>, calls: Calls, place: spec_fn(Expression<'hir>) -> bool)
    ensures
        placed(names, calls, calls, place),
{
}

proof fn lemma_expr_placed<'hir>(names: Names<'hir>, calls: Calls, expr: Expression<'hir>)
    ensures
        placed(names, calls, names.expr_calls(calls, expr), inside_expr(expr)),
    decreases expr, 0nat,
{
    let whole = inside_expr(expr);
    let own = |inner: Expression<'hir>| inner == expr;
    let after = names.expr_calls(calls, expr);
    match expr {
        Expression::Call(call) => {
            let named = match *call.callee {
                Expression::Identifier(name, _) => calls.with(
                    names.resolve_function_call(None, name@),
                ),
                Expression::Field(_) => calls.with_methods(),
                _ => names.expr_calls(calls, *call.callee),
            };
            lemma_exprs_placed(names, named, call.args@, 0);
            if *call.callee is Identifier || *call.callee is Field {
                lemma_added(names, calls, expr, named);
                lemma_placed(names, calls, named, after, own, inside_exprs(call.args@), whole);
            } else {
                lemma_expr_placed(names, calls, *call.callee);
                lemma_placed(
                    names,
                    calls,
                    named,
                    after,
                    inside_expr(*call.callee),
                    inside_exprs(call.args@),
                    whole,
                );
            }
        },
        Expression::QualifiedCall(call) => {
            let named = calls.with(called(names, expr));
            lemma_added(names, calls, expr, named);
            lemma_exprs_placed(names, named, call.args@, 0);
            lemma_placed(names, calls, named, after, own, inside_exprs(call.args@), whole);
        },
        Expression::TypeIntrinsic(question) => {
            lemma_added(names, calls, expr, after);
            lemma_nothing(names, after, own);
            lemma_placed(names, calls, after, after, own, own, whole);
        },
        Expression::Binary(binary) => {
            let compared = if calls_method(expr) {
                calls.with_methods()
            } else {
                calls
            };
            lemma_added(names, calls, expr, compared);
            lemma_expr_placed(names, compared, *binary.left);
            let next = names.expr_calls(compared, *binary.left);
            lemma_expr_placed(names, next, *binary.right);
            lemma_placed(names, calls, compared, next, own, inside_expr(*binary.left), whole);
            lemma_placed(names, calls, next, after, whole, inside_expr(*binary.right), whole);
        },
        Expression::Unary(unary) => {
            lemma_expr_placed(names, calls, *unary.expr);
            lemma_nothing(names, calls, own);
            lemma_placed(names, calls, calls, after, own, inside_expr(*unary.expr), whole);
        },
        Expression::Assignment(assignment) => {
            let next = names.expr_calls(calls, *assignment.target);
            lemma_expr_placed(names, calls, *assignment.target);
            lemma_expr_placed(names, next, *assignment.value);
            let first = inside_expr(*assignment.target);
            let second = inside_expr(*assignment.value);
            lemma_placed(names, calls, next, after, first, second, whole);
        },
        Expression::Cast(cast) => {
            lemma_expr_placed(names, calls, *cast.expr);
            lemma_nothing(names, calls, own);
            lemma_placed(names, calls, calls, after, own, inside_expr(*cast.expr), whole);
        },
        Expression::Struct(literal) => {
            lemma_fields_placed(names, calls, literal.fields@, 0);
            lemma_nothing(names, calls, own);
            lemma_placed(names, calls, calls, after, own, inside_fields(literal.fields@), whole);
        },
        Expression::Field(access) => {
            lemma_expr_placed(names, calls, *access.expr);
            lemma_nothing(names, calls, own);
            lemma_placed(names, calls, calls, after, own, inside_expr(*access.expr), whole);
        },
        Expression::Array(literal) => {
            lemma_exprs_placed(names, calls, literal.elements@, 0);
            lemma_nothing(names, calls, own);
            lemma_placed(names, calls, calls, after, own, inside_exprs(literal.elements@), whole);
        },
        Expression::ArrayRepeat(literal) => {
            lemma_expr_placed(names, calls, *literal.value);
            lemma_nothing(names, calls, own);
            lemma_placed(names, calls, calls, after, own, inside_expr(*literal.value), whole);
        },
        Expression::Index(access) => {
            let next = names.expr_calls(calls, *access.base);
            lemma_expr_placed(names, calls, *access.base);
            lemma_expr_placed(names, next, *access.index);
            let first = inside_expr(*access.base);
            let second = inside_expr(*access.index);
            lemma_placed(names, calls, next, after, first, second, whole);
        },
        _ => {},
    }
}

proof fn lemma_exprs_placed<'hir>(names: Names<'hir>, calls: Calls, items: Seq<Expression<'hir>>, at: nat)
    ensures
        placed(names, calls, names.exprs_calls(calls, items, at), inside_exprs(items)),
    decreases items, (items.len() - at) as nat,
{
    if at < items.len() {
        let expr = items[at as int];
        lemma_expr_placed(names, calls, expr);
        let next = names.expr_calls(calls, expr);
        lemma_exprs_placed(names, next, items, at + 1);
        let after = names.exprs_calls(calls, items, at);
        let whole = inside_exprs(items);
        lemma_placed(names, calls, next, after, inside_expr(expr), whole, whole);
    }
}

proof fn lemma_fields_placed<'hir>(names: Names<'hir>, calls: Calls, items: Seq<FieldInit<'hir>>, at: nat)
    ensures
        placed(names, calls, names.fields_calls(calls, items, at), inside_fields(items)),
    decreases items, (items.len() - at) as nat,
{
    if at < items.len() {
        let expr = items[at as int].value;
        lemma_expr_placed(names, calls, expr);
        let next = names.expr_calls(calls, expr);
        lemma_fields_placed(names, next, items, at + 1);
        let after = names.fields_calls(calls, items, at);
        let whole = inside_fields(items);
        lemma_placed(names, calls, next, after, inside_expr(expr), whole, whole);
    }
}

proof fn lemma_statement_placed<'hir>(names: Names<'hir>, calls: Calls, statement: Statement<'hir>)
    ensures
        placed(names, calls, names.statement_calls(calls, statement), inside_statement(statement)),
    decreases statement, 0nat,
{
    let whole = inside_statement(statement);
    let after = names.statement_calls(calls, statement);
    lemma_nothing(names, calls, whole);
    match statement {
        Statement::Let(binding) => if let Some(value) = binding.value {
            lemma_expr_placed(names, calls, value);
            lemma_placed(names, calls, calls, after, whole, inside_expr(value), whole);
        },
        Statement::Return(returned) => if let Some(value) = returned.value {
            lemma_expr_placed(names, calls, value);
            lemma_placed(names, calls, calls, after, whole, inside_expr(value), whole);
        },
        Statement::If(branch) => {
            lemma_if_placed(names, calls, branch);
            lemma_placed(names, calls, calls, after, whole, inside_if(branch), whole);
        },
        Statement::While(looped) => {
            let next = names.expr_calls(calls, looped.condition);
            lemma_expr_placed(names, calls, looped.condition);
            lemma_block_placed(names, next, looped.body);
            let first = inside_expr(looped.condition);
            lemma_placed(names, calls, next, after, first, inside_block(looped.body), whole);
        },
        Statement::Loop(looped) => {
            let body = inside_block(looped.body);
            match looped.header {
                LoopHeader::Infinite => {
                    lemma_block_placed(names, calls, looped.body);
                    lemma_placed(names, calls, calls, after, whole, body, whole);
                },
                LoopHeader::Range { start, end, .. } => {
                    let next = names.expr_calls(calls, start);
                    let last = names.expr_calls(next, end);
                    lemma_expr_placed(names, calls, start);
                    lemma_expr_placed(names, next, end);
                    lemma_block_placed(names, last, looped.body);
                    let first = inside_expr(start);
                    lemma_placed(names, calls, next, last, first, inside_expr(end), whole);
                    lemma_placed(names, calls, last, after, whole, body, whole);
                },
                LoopHeader::Iterable { iterable, .. } => {
                    let next = names.expr_calls(calls, iterable);
                    lemma_expr_placed(names, calls, iterable);
                    lemma_block_placed(names, next, looped.body);
                    lemma_placed(names, calls, next, after, inside_expr(iterable), body, whole);
                },
            }
        },
        Statement::Expr(expr, _) => {
            lemma_expr_placed(names, calls, expr);
            lemma_placed(names, calls, calls, after, whole, inside_expr(expr), whole);
        },
        Statement::Block(block) => {
            lemma_block_placed(names, calls, block);
            lemma_placed(names, calls, calls, after, whole, inside_block(block), whole);
        },
        Statement::Match(matched) => {
            let next = names.expr_calls(calls, matched.scrutinee);
            lemma_expr_placed(names, calls, matched.scrutinee);
            lemma_arms_placed(names, next, matched.arms@, 0);
            let first = inside_expr(matched.scrutinee);
            lemma_placed(names, calls, next, after, first, inside_arms(matched.arms@), whole);
        },
        Statement::Item(item) => match item.kind {
            ItemKind::Const(constant) => {
                lemma_expr_placed(names, calls, constant.value);
                let second = inside_expr(constant.value);
                lemma_placed(names, calls, calls, after, whole, second, whole);
            },
            _ => {},
        },
        _ => {},
    }
}

proof fn lemma_if_placed<'hir>(names: Names<'hir>, calls: Calls, branch: If<'hir>)
    ensures
        placed(names, calls, names.if_calls(calls, branch), inside_if(branch)),
    decreases branch, 0nat,
{
    let whole = inside_if(branch);
    let after = names.if_calls(calls, branch);
    let tested = names.expr_calls(calls, branch.condition);
    let taken = names.block_calls(tested, branch.then_branch);
    lemma_expr_placed(names, calls, branch.condition);
    lemma_block_placed(names, tested, branch.then_branch);
    let first = inside_expr(branch.condition);
    lemma_placed(names, calls, tested, taken, first, inside_block(branch.then_branch), whole);
    if let Some(other) = branch.else_branch {
        match *other {
            Else::If(nested) => {
                lemma_if_placed(names, taken, nested);
                lemma_placed(names, calls, taken, after, whole, inside_if(nested), whole);
            },
            Else::Block(block) => {
                lemma_block_placed(names, taken, block);
                lemma_placed(names, calls, taken, after, whole, inside_block(block), whole);
            },
            Else::Expr(expr) => {
                lemma_expr_placed(names, taken, expr);
                lemma_placed(names, calls, taken, after, whole, inside_expr(expr), whole);
            },
        }
    }
}

proof fn lemma_arms_placed<'hir>(names: Names<'hir>, calls: Calls, items: Seq<Arm<'hir>>, at: nat)
    ensures
        placed(names, calls, names.arms_calls(calls, items, at), inside_arms(items)),
    decreases items.len() - at,
{
    if at < items.len() {
        let arm = items[at as int];
        let whole = inside_arms(items);
        let after = names.arms_calls(calls, items, at);
        let guarded = match arm.guard {
            Some(guard) => names.expr_calls(calls, guard),
            None => calls,
        };
        let next = names.expr_calls(guarded, arm.body);
        lemma_nothing(names, calls, whole);
        if let Some(guard) = arm.guard {
            lemma_expr_placed(names, calls, guard);
            let first = inside_expr(guard);
            assert forall|inner: Expression<'hir>| first(inner) implies #[trigger] whole(inner) by {
                assert(in_optional(items[at as int].guard, inner));
            }
            lemma_placed(names, calls, calls, guarded, whole, first, whole);
        }
        lemma_expr_placed(names, guarded, arm.body);
        let second = inside_expr(arm.body);
        assert forall|inner: Expression<'hir>| second(inner) implies #[trigger] whole(inner) by {
            assert(in_expr(items[at as int].body, inner));
        }
        lemma_placed(names, calls, guarded, next, whole, second, whole);
        lemma_arms_placed(names, next, items, at + 1);
        lemma_placed(names, calls, next, after, whole, whole, whole);
    }
}

proof fn lemma_block_placed<'hir>(names: Names<'hir>, calls: Calls, block: Block<'hir>)
    ensures
        placed(names, calls, names.block_calls(calls, block), inside_block(block)),
    decreases block, 1nat,
{
    lemma_statements_placed(names, calls, block.statements@, 0);
    let whole = inside_block(block);
    let after = names.block_calls(calls, block);
    lemma_nothing(names, calls, whole);
    let inside = inside_statements(block.statements@);
    lemma_placed(names, calls, calls, after, whole, inside, whole);
}

proof fn lemma_statements_placed<'hir>(names: Names<'hir>, calls: Calls, items: Seq<Statement<'hir>>, at: nat)
    ensures
        placed(names, calls, names.statements_calls(calls, items, at), inside_statements(items)),
    decreases items, (items.len() - at) as nat,
{
    if at < items.len() {
        let statement = items[at as int];
        lemma_statement_placed(names, calls, statement);
        let next = names.statement_calls(calls, statement);
        lemma_statements_placed(names, next, items, at + 1);
        let after = names.statements_calls(calls, items, at);
        let whole = inside_statements(items);
        lemma_placed(names, calls, next, after, inside_statement(statement), whole, whole);
    }
}

/// Every call that stands anywhere in a block is among its calls, whatever statements and
/// expressions it stands in, except in what a method is called on; and nothing else is.
pub proof fn lemma_calls_of_block<'hir>(names: Names<'hir>, block: Block<'hir>)
    ensures
        ({
            let calls = names.block_calls(Calls::none(), block);
            &&& forall|inner: Expression<'hir>| #[trigger]
                in_block(block, inner) ==> counted(names, calls, inner)
            &&& forall|id: FunctionId| #[trigger]
                calls.ids.contains(id) ==> exists|inner: Expression<'hir>|
                    in_block(block, inner) && #[trigger] called(names, inner) == Some(id)
            &&& calls.methods ==> exists|inner: Expression<'hir>|
                in_block(block, inner) && #[trigger] calls_method(inner)
        }),
{
    let calls = names.block_calls(Calls::none(), block);
    assert forall|inner: Expression<'hir>| #[trigger] in_block(block, inner) implies counted(
        names,
        calls,
        inner,
    ) by {
        lemma_block(names, Calls::none(), block, inner);
    }
    lemma_block_placed(names, Calls::none(), block);
    let place = inside_block(block);
    assert forall|id: FunctionId| #[trigger]
        calls.ids.contains(id) implies exists|inner: Expression<'hir>|
        in_block(block, inner) && #[trigger] called(names, inner) == Some(id) by {
        let inner = choose|inner: Expression<'hir>|
            place(inner) && #[trigger] called(names, inner) == Some(id);
        assert(in_block(block, inner));
    }
    if calls.methods {
        let inner = choose|inner: Expression<'hir>| place(inner) && #[trigger] calls_method(inner);
        assert(in_block(block, inner));
    }
}

proof fn lemma_last_declared<'hir>(all: Seq<Declared<'hir>>, k: int, end: nat)
    requires
        0 <= k < end <= all.len(),
        forall|j: int| k < j < end ==> (#[trigger] all[j]).id != all[k].id,
    ensures
        declared_as(all, all[k].id, end) == Some(all[k]),
    decreases end,
{
    if k < end - 1 {
        lemma_last_declared(all, k, (end - 1) as nat);
    }
}

/// A program needs every function that the body of a function it needs calls, wherever the call
/// stands; and where that body calls a method, it needs all of them.
pub proof fn lemma_callees_needed<'hir>(
    names: Names<'hir>,
    all: Seq<Declared<'hir>>,
    keep_all: bool,
    k: int,
    inner: Expression<'hir>,
    callee: FunctionId,
)
    requires
        0 <= k < all.len(),
        forall|j: int| k < j < all.len() ==> (#[trigger] all[j]).id != all[k].id,
        names.is_needed(all, keep_all, all[k].id),
        in_block(all[k].function.body, inner),
        called(names, inner) == Some(callee) || (calls_method(inner)
            && names.methods.values().contains(callee)),
        callee.0 < names.signatures.len(),
    ensures
        names.is_needed(all, keep_all, callee),
{
    lemma_last_declared(all, k, all.len());
    lemma_calls_of_block(names, all[k].function.body);
    let calls = names.block_calls(Calls::none(), all[k].function.body);
    assert(counted(names, calls, inner));
    assert(names.may_call(all, all[k].id, callee));
    crate::module::demand::lemma_demand_closed(names, all, keep_all, all[k].id, callee);
}

/// `main` is needed.
pub proof fn lemma_main_needed<'hir>(names: Names<'hir>, all: Seq<Declared<'hir>>, keep_all: bool, id: FunctionId)
    requires
        names.function_named(names.item("main"@)) == Some(id),
        id.0 < names.signatures.len(),
    ensures
        names.is_needed(all, keep_all, id),
{
    crate::module::demand::lemma_demand_closed(names, all, keep_all, id, id);
}

/// What is lowered: every function that is needed, and every one of the project.
pub proof fn lemma_wanted<'hir>(demand: Demand<'hir>, at: nat, ids: Seq<FunctionId>, id: FunctionId)
    requires
        at <= id.0 < width(demand.names) || ids.contains(id),
        ids.contains(id) || demand.has(id) || crate::module::demand::in_project(demand.all, id),
    ensures
        demand.wanted(at, ids).contains(id),
    decreases width(demand.names) - at,
{
    if at < width(demand.names) {
        let next = FunctionId(at as u32);
        let more = if demand.has(next) || crate::module::demand::in_project(demand.all, next) {
            ids.push(next)
        } else {
            ids
        };
        if ids.contains(id) {
            let i = choose|i: int| 0 <= i < ids.len() && ids[i] == id;
            assert(more[i] == id);
        } else if id.0 == at {
            assert(next == id);
            assert(more[ids.len() as int] == id);
        }
        lemma_wanted(demand, at + 1, more, id);
    }
}

/// What is kept of lowered functions: those that are needed, and what was kept before.
pub proof fn lemma_kept<'hir>(
    demand: Demand<'hir>,
    functions: Seq<FunctionTree<'hir>>,
    at: nat,
    kept: Seq<FunctionTree<'hir>>,
    tree: FunctionTree<'hir>,
)
    requires
        at <= functions.len(),
    ensures
        demand.kept(functions, at, kept).contains(tree) <==> kept.contains(tree) || (functions.skip(
            at as int,
        ).contains(tree) && demand.has(tree.id)),
    decreases functions.len() - at,
{
    let rest = functions.skip(at as int);
    if at < functions.len() {
        let next = functions[at as int];
        let more = if demand.has(next.id) {
            kept.push(next)
        } else {
            kept
        };
        let others = functions.skip(at as int + 1);
        lemma_kept(demand, functions, at + 1, more, tree);
        assert(rest[0] == next);
        assert(rest.contains(tree) <==> tree == next || others.contains(tree)) by {
            if rest.contains(tree) {
                let i = choose|i: int| 0 <= i < rest.len() && rest[i] == tree;
                if i > 0 {
                    assert(others[i - 1] == tree);
                }
            }
            if others.contains(tree) {
                let i = choose|i: int| 0 <= i < others.len() && others[i] == tree;
                assert(rest[i + 1] == tree);
            }
        }
        assert(more.contains(tree) <==> kept.contains(tree) || (tree == next && demand.has(next.id)))
            by {
            if kept.contains(tree) {
                let i = choose|i: int| 0 <= i < kept.len() && kept[i] == tree;
                assert(more[i] == tree);
            }
            if demand.has(next.id) {
                assert(more[kept.len() as int] == next);
            }
            if more.contains(tree) {
                let i = choose|i: int| 0 <= i < more.len() && more[i] == tree;
                if i < kept.len() {
                    assert(kept[i] == tree);
                }
            }
        }
    } else {
        assert(rest =~= Seq::empty());
    }
}

} // verus!
