//! Why nothing of a program is left out of what an editor shows of it.

use crate::analysis::{type_at, Hover, Scene, Trail};
use crate::ast::{no_span, Span};
use crate::hir::tree::{
    Arm, Block, Constant, Expression, ExpressionKind, Function, FunctionId, LocalId, LoopKind, Res,
    Statement,
};
use crate::hir::symbols::SymbolId;
use crate::hir::types::Type;
use vstd::prelude::*;

verus! {

/// Whether an expression stands somewhere in another, outside the uses of constants.
pub open spec fn shown_in<'h>(
    scene: Scene<'h>,
    function: Function<'h>,
    outer: Expression<'h>,
    inner: Expression<'h>,
) -> bool
    decreases outer, 0nat,
{
    outer == inner || (scene.used_constant(function, outer.id) is None && match outer.kind {
        ExpressionKind::Call { args, .. } => shown_among(scene, function, args@, inner),
        ExpressionKind::MethodCall { receiver, args, .. } => shown_in(
            scene,
            function,
            *receiver,
            inner,
        ) || shown_among(scene, function, args@, inner),
        ExpressionKind::Unary { expr, .. } => shown_in(scene, function, *expr, inner),
        ExpressionKind::Binary { left, right, .. } => shown_in(scene, function, *left, inner)
            || shown_in(scene, function, *right, inner),
        ExpressionKind::Field { base, .. } => shown_in(scene, function, *base, inner),
        ExpressionKind::Assign { target, value } => shown_in(scene, function, *target, inner)
            || shown_in(scene, function, *value, inner),
        ExpressionKind::Struct { fields, .. } => shown_in_fields(scene, function, fields@, inner),
        ExpressionKind::Array { elements } => shown_among(scene, function, elements@, inner),
        ExpressionKind::ArrayRepeat { value, .. } => shown_in(scene, function, *value, inner),
        ExpressionKind::Index { base, index } => shown_in(scene, function, *base, inner)
            || shown_in(scene, function, *index, inner),
        ExpressionKind::Syscall { args, .. } => shown_among(scene, function, args@, inner),
        ExpressionKind::IntrinsicCall { args, .. } => shown_among(scene, function, args@, inner),
        ExpressionKind::Cast { from, .. } => shown_in(scene, function, *from, inner),
        ExpressionKind::Match { scrutinee, arms } => shown_in(scene, function, *scrutinee, inner)
            || shown_in_arms(scene, function, arms@, inner),
        _ => false,
    })
}

pub open spec fn shown_among<'h>(
    scene: Scene<'h>,
    function: Function<'h>,
    items: Seq<&'h Expression<'h>>,
    inner: Expression<'h>,
) -> bool
    decreases items, 0nat,
{
    exists|i: int|
        0 <= i < items.len() && shown_in(scene, function, *(#[trigger] items[i]), inner)
}

pub open spec fn shown_in_fields<'h>(
    scene: Scene<'h>,
    function: Function<'h>,
    items: Seq<(SymbolId, &'h Expression<'h>)>,
    inner: Expression<'h>,
) -> bool
    decreases items, 0nat,
{
    exists|i: int|
        0 <= i < items.len() && shown_in(scene, function, *(#[trigger] items[i]).1, inner)
}

pub open spec fn shown_in_arms<'h>(
    scene: Scene<'h>,
    function: Function<'h>,
    items: Seq<Arm<'h>>,
    inner: Expression<'h>,
) -> bool
    decreases items, 0nat,
{
    exists|i: int| 0 <= i < items.len() && shown_in_arm(scene, function, #[trigger] items[i], inner)
}

pub open spec fn shown_in_arm<'h>(
    scene: Scene<'h>,
    function: Function<'h>,
    arm: Arm<'h>,
    inner: Expression<'h>,
) -> bool
    decreases arm, 0nat,
{
    shown_in(scene, function, *arm.body, inner) || match arm.guard {
        Some(guard) => shown_in(scene, function, *guard, inner),
        None => false,
    }
}

/// Whether an expression stands somewhere in a statement.
pub open spec fn stands_in<'h>(
    scene: Scene<'h>,
    function: Function<'h>,
    outer: Statement<'h>,
    inner: Expression<'h>,
) -> bool
    decreases outer, 0nat,
{
    match outer {
        Statement::LetInit { init, .. } => shown_in(scene, function, *init, inner),
        Statement::LetUninit { .. } => false,
        Statement::Expr(expr) => shown_in(scene, function, *expr, inner),
        Statement::Return(Some(expr)) => shown_in(scene, function, *expr, inner),
        Statement::Return(None) => false,
        Statement::If { condition, then_block, else_block } => {
            ||| shown_in(scene, function, *condition, inner)
            ||| stands_in_block(scene, function, then_block, inner)
            ||| match else_block {
                Some(block) => stands_in_block(scene, function, block, inner),
                None => false,
            }
        },
        Statement::While { condition, body } => shown_in(scene, function, *condition, inner)
            || stands_in_block(scene, function, body, inner),
        Statement::Loop { kind, body } => stands_in_block(scene, function, body, inner)
            || match kind {
            LoopKind::Infinite => false,
            LoopKind::Range { start, end, .. } => shown_in(scene, function, *start, inner)
                || shown_in(scene, function, *end, inner),
            LoopKind::Iterable { iterable, .. } => shown_in(scene, function, *iterable, inner),
        },
        Statement::Block(block) => stands_in_block(scene, function, block, inner),
        Statement::Break | Statement::Continue => false,
    }
}

pub open spec fn stands_in_block<'h>(
    scene: Scene<'h>,
    function: Function<'h>,
    block: Block<'h>,
    inner: Expression<'h>,
) -> bool
    decreases block, 1nat,
{
    stands_among(scene, function, block.statements@, inner)
}

pub open spec fn stands_among<'h>(
    scene: Scene<'h>,
    function: Function<'h>,
    items: Seq<Statement<'h>>,
    inner: Expression<'h>,
) -> bool
    decreases items, 0nat,
{
    exists|i: int| 0 <= i < items.len() && stands_in(scene, function, #[trigger] items[i], inner)
}

/// Whether a statement, or one in it, binds a local.
pub open spec fn binds<'h>(outer: Statement<'h>, id: LocalId) -> bool
    decreases outer, 0nat,
{
    match outer {
        Statement::LetInit { id: bound, .. } => bound == id,
        Statement::LetUninit { id: bound } => bound == id,
        Statement::If { then_block, else_block, .. } => binds_in(then_block.statements@, id)
            || match else_block {
            Some(block) => binds_in(block.statements@, id),
            None => false,
        },
        Statement::While { body, .. } => binds_in(body.statements@, id),
        Statement::Loop { kind, body } => binds_in(body.statements@, id) || match kind {
            LoopKind::Infinite => false,
            LoopKind::Range { binding, .. } => binding == Some(id),
            LoopKind::Iterable { binding, .. } => binding == id,
        },
        Statement::Block(block) => binds_in(block.statements@, id),
        _ => false,
    }
}

pub open spec fn binds_in<'h>(items: Seq<Statement<'h>>, id: LocalId) -> bool
    decreases items, 0nat,
{
    exists|i: int| 0 <= i < items.len() && binds(#[trigger] items[i], id)
}

/// The function that a call was resolved to.
pub open spec fn resolved<'h>(function: Function<'h>, expr: Expression<'h>) -> Option<FunctionId> {
    if (expr.kind is Call || expr.kind is MethodCall) && expr.id.0 < function.typeck.nodes@.len() {
        match function.typeck.nodes@[expr.id.0 as int].def {
            Some(Res::Function(id)) => Some(id),
            _ => None,
        }
    } else {
        None
    }
}

/// What is shown at an expression: the constant it is a use of, the function it calls, the type it
/// names, or the type of its value.
pub open spec fn is_shown<'h>(
    scene: Scene<'h>,
    function: Function<'h>,
    expr: Expression<'h>,
    hover: Hover,
) -> bool {
    let typ = type_at(function, expr.id);
    let named = scene.type_hover(typ);
    if uses_constant(scene, function, expr) {
        exists|i: int|
            0 <= i < scene.constants.len() && is_use(function, expr, *#[trigger] scene.constants[i])
                && hover == scene.const_hover(*scene.constants[i])
    } else if reaches_function(scene, function, expr) {
        exists|i: int|
            0 <= i < scene.functions.len() && resolved(function, expr) == Some(
                (#[trigger] scene.functions[i]).id,
            ) && hover == scene.fn_hover(scene.functions[i])
    } else if (expr.kind is Struct || expr.kind is Path || expr.kind is Literal) && named is Some {
        named == Some(hover)
    } else {
        &&& hover.ty == scene.format_type(typ, function.generics@)
        &&& hover.layout == scene.closed_layout(typ)
        &&& hover.docs is None
        &&& hover.path is None
    }
}

/// Whether an expression is a use of a constant.
pub open spec fn is_use<'h>(function: Function<'h>, expr: Expression<'h>, constant: Constant<'h>) -> bool {
    let nodes = function.typeck.nodes@;
    expr.id.0 < nodes.len() && nodes[expr.id.0 as int].const_use == Some(constant.name)
}

pub open spec fn uses_constant<'h>(scene: Scene<'h>, function: Function<'h>, expr: Expression<'h>) -> bool {
    exists|i: int|
        0 <= i < scene.constants.len() && is_use(function, expr, *#[trigger] scene.constants[i])
}

/// Whether an expression calls a function of the program.
pub open spec fn reaches_function<'h>(scene: Scene<'h>, function: Function<'h>, expr: Expression<'h>) -> bool {
    exists|i: int|
        0 <= i < scene.functions.len() && resolved(function, expr) == Some(
            (#[trigger] scene.functions[i]).id,
        )
}

/// What was found stays found.
pub open spec fn keeps_all(before: Trail, after: Trail) -> bool {
    &&& forall|item: (Span, Hover)|
        before.hover.contains(item) ==> #[trigger] after.hover.contains(item)
    &&& forall|item: (Span, Seq<char>)|
        before.hints.contains(item) ==> #[trigger] after.hints.contains(item)
    &&& forall|key: u64| before.defs.contains_key(key) ==> #[trigger] after.defs.contains_key(key)
}

/// Whether something is shown at an expression, and at a use of a local where it is declared.
pub open spec fn is_covered<'h>(
    scene: Scene<'h>,
    function: Function<'h>,
    expr: Expression<'h>,
    trail: Trail,
) -> bool {
    &&& exists|hover: Hover|
        is_shown(scene, function, expr, hover) && #[trigger] trail.hover.contains(
            (expr.span, hover),
        )
    &&& match expr.kind {
        ExpressionKind::Local(id) => id.0 < function.locals@.len() ==> trail.defs.contains_key(
            crate::analysis::span_key(expr.span),
        ),
        _ => true,
    } || scene.used_constant(function, expr.id) is Some
}

proof fn lemma_hover(trail: Trail, span: Span, hover: Hover)
    ensures
        keeps_all(trail, trail.hover(span, hover)),
        trail.hover(span, hover).hover.contains((span, hover)),
{
    let after = trail.hover(span, hover);
    assert(after.hover[trail.hover.len() as int] == (span, hover));
    assert forall|item: (Span, Hover)|
        trail.hover.contains(item) implies #[trigger] after.hover.contains(item) by {
        let i = choose|i: int| 0 <= i < trail.hover.len() && trail.hover[i] == item;
        assert(after.hover[i] == item);
    }
}

proof fn lemma_covered<'h>(
    scene: Scene<'h>,
    function: Function<'h>,
    expr: Expression<'h>,
    before: Trail,
    after: Trail,
)
    requires
        is_covered(scene, function, expr, before),
        keeps_all(before, after),
    ensures
        is_covered(scene, function, expr, after),
{
    let hover = choose|hover: Hover|
        is_shown(scene, function, expr, hover) && #[trigger] before.hover.contains(
            (expr.span, hover),
        );
    assert(after.hover.contains((expr.span, hover)));
}

proof fn lemma_constant_found<'h>(constants: Seq<&'h Constant<'h>>, name: SymbolId, end: nat)
    requires
        end <= constants.len(),
    ensures
        match crate::analysis::constant_with(constants, name, end) {
            Some(constant) => constant.name == name && exists|i: int|
                0 <= i < constants.len() && *#[trigger] constants[i] == constant,
            None => forall|i: int| 0 <= i < end ==> (#[trigger] constants[i]).name != name,
        },
    decreases end,
{
    if end > 0 && constants[end - 1].name != name {
        lemma_constant_found(constants, name, (end - 1) as nat);
    }
}

proof fn lemma_function_found<'h>(functions: Seq<Function<'h>>, id: FunctionId, end: nat)
    requires
        end <= functions.len(),
    ensures
        match crate::analysis::function_with(functions, id, end) {
            Some(function) => function.id == id && exists|i: int|
                0 <= i < functions.len() && #[trigger] functions[i] == function,
            None => forall|i: int| 0 <= i < end ==> (#[trigger] functions[i]).id != id,
        },
    decreases end,
{
    if end > 0 && functions[end - 1].id != id {
        lemma_function_found(functions, id, (end - 1) as nat);
    }
}

/// The first thing found at an expression.
proof fn lemma_own<'h>(scene: Scene<'h>, trail: Trail, function: Function<'h>, expr: Expression<'h>)
    ensures
        ({
            let hover = match scene.used_constant(function, expr.id) {
                Some(constant) => scene.const_hover(constant),
                None => scene.expr_hover(function, expr, scene.callee(function, expr)),
            };
            &&& is_shown(scene, function, expr, hover)
            &&& uses_constant(scene, function, expr) == (scene.used_constant(function, expr.id)
                is Some)
        }),
{
    if let Some(name) = crate::analysis::const_at(function, expr.id) {
        lemma_constant_found(scene.constants, name, scene.constants.len());
    }
    if let Some(id) = resolved(function, expr) {
        lemma_function_found(scene.functions, id, scene.functions.len());
    }
}

/// Whether a walk kept what was found, and covered an expression if it stands there.
spec fn walked<'h>(
    scene: Scene<'h>,
    function: Function<'h>,
    before: Trail,
    after: Trail,
    inner: Expression<'h>,
    there: bool,
) -> bool {
    keeps_all(before, after) && (there ==> is_covered(scene, function, inner, after))
}

proof fn lemma_then<'h>(
    scene: Scene<'h>,
    function: Function<'h>,
    a: Trail,
    b: Trail,
    c: Trail,
    inner: Expression<'h>,
    first: bool,
    second: bool,
)
    requires
        walked(scene, function, a, b, inner, first),
        walked(scene, function, b, c, inner, second),
    ensures
        walked(scene, function, a, c, inner, first || second),
{
    if first {
        lemma_covered(scene, function, inner, b, c);
    }
}

/// The trail after what an expression itself shows.
spec fn own_trail<'h>(scene: Scene<'h>, trail: Trail, function: Function<'h>, expr: Expression<'h>) -> Trail {
    let callee = scene.callee(function, expr);
    let next = trail.hover(expr.span, scene.expr_hover(function, expr, callee));
    match expr.kind {
        ExpressionKind::Local(id) => if id.0 < function.locals@.len() {
            next.def(expr.span, function.locals@[id.0 as int].decl_span)
        } else {
            next
        },
        ExpressionKind::Call { callee: named, args } => match callee {
            Some(target) => next.def(named.span, target.decl_span),
            None => next,
        },
        ExpressionKind::MethodCall { receiver, args, .. } => match callee {
            Some(target) => next.def(expr.span, target.decl_span),
            None => next,
        },
        _ => next,
    }
}

proof fn lemma_own_trail<'h>(scene: Scene<'h>, trail: Trail, function: Function<'h>, expr: Expression<'h>, inner: Expression<'h>)
    requires
        scene.used_constant(function, expr.id) is None,
    ensures
        walked(scene, function, trail, own_trail(scene, trail, function, expr), inner, inner == expr),
{
    let hover = scene.expr_hover(function, expr, scene.callee(function, expr));
    lemma_own(scene, trail, function, expr);
    lemma_hover(trail, expr.span, hover);
    let after = own_trail(scene, trail, function, expr);
    assert(after.hover.contains((expr.span, hover)));
}

#[verifier::rlimit(40)]
proof fn lemma_expr<'h>(scene: Scene<'h>, trail: Trail, function: Function<'h>, expr: Expression<'h>, inner: Expression<'h>)
    ensures
        walked(
            scene,
            function,
            trail,
            scene.expr(trail, function, expr),
            inner,
            shown_in(scene, function, expr, inner),
        ),
    decreases expr, 0nat,
{
    let after = scene.expr(trail, function, expr);
    lemma_own(scene, trail, function, expr);
    if let Some(constant) = scene.used_constant(function, expr.id) {
        let hover = scene.const_hover(constant);
        lemma_hover(trail, expr.span, hover);
        assert(after.hover.contains((expr.span, hover)));
        assert(is_covered(scene, function, expr, after));
    } else {
        let own = own_trail(scene, trail, function, expr);
        let this = inner == expr;
        lemma_own_trail(scene, trail, function, expr, inner);
        match expr.kind {
            ExpressionKind::Call { args, .. } => {
                lemma_exprs(scene, own, function, args@, 0, inner);
                let there = shown_among(scene, function, args@, inner);
                lemma_then(scene, function, trail, own, after, inner, this, there);
            },
            ExpressionKind::MethodCall { receiver, args, .. } => {
                let next = scene.expr(own, function, *receiver);
                lemma_expr(scene, own, function, *receiver, inner);
                lemma_exprs(scene, next, function, args@, 0, inner);
                let first = shown_in(scene, function, *receiver, inner);
                let second = shown_among(scene, function, args@, inner);
                lemma_then(scene, function, own, next, after, inner, first, second);
                lemma_then(scene, function, trail, own, after, inner, this, first || second);
            },
            ExpressionKind::Unary { expr: part, .. } => {
                lemma_expr(scene, own, function, *part, inner);
                let there = shown_in(scene, function, *part, inner);
                lemma_then(scene, function, trail, own, after, inner, this, there);
            },
            ExpressionKind::Binary { left, right, .. } => {
                let next = scene.expr(own, function, *left);
                lemma_expr(scene, own, function, *left, inner);
                lemma_expr(scene, next, function, *right, inner);
                let first = shown_in(scene, function, *left, inner);
                let second = shown_in(scene, function, *right, inner);
                lemma_then(scene, function, own, next, after, inner, first, second);
                lemma_then(scene, function, trail, own, after, inner, this, first || second);
            },
            ExpressionKind::Field { base, .. } => {
                lemma_expr(scene, own, function, *base, inner);
                let there = shown_in(scene, function, *base, inner);
                lemma_then(scene, function, trail, own, after, inner, this, there);
            },
            ExpressionKind::Assign { target, value } => {
                let next = scene.expr(own, function, *target);
                lemma_expr(scene, own, function, *target, inner);
                lemma_expr(scene, next, function, *value, inner);
                let first = shown_in(scene, function, *target, inner);
                let second = shown_in(scene, function, *value, inner);
                lemma_then(scene, function, own, next, after, inner, first, second);
                lemma_then(scene, function, trail, own, after, inner, this, first || second);
            },
            ExpressionKind::Struct { fields, .. } => {
                lemma_fields(scene, own, function, fields@, 0, inner);
                let there = shown_in_fields(scene, function, fields@, inner);
                lemma_then(scene, function, trail, own, after, inner, this, there);
            },
            ExpressionKind::Array { elements } => {
                lemma_exprs(scene, own, function, elements@, 0, inner);
                let there = shown_among(scene, function, elements@, inner);
                lemma_then(scene, function, trail, own, after, inner, this, there);
            },
            ExpressionKind::ArrayRepeat { value, .. } => {
                lemma_expr(scene, own, function, *value, inner);
                let there = shown_in(scene, function, *value, inner);
                lemma_then(scene, function, trail, own, after, inner, this, there);
            },
            ExpressionKind::Index { base, index } => {
                let next = scene.expr(own, function, *base);
                lemma_expr(scene, own, function, *base, inner);
                lemma_expr(scene, next, function, *index, inner);
                let first = shown_in(scene, function, *base, inner);
                let second = shown_in(scene, function, *index, inner);
                lemma_then(scene, function, own, next, after, inner, first, second);
                lemma_then(scene, function, trail, own, after, inner, this, first || second);
            },
            ExpressionKind::Syscall { args, .. } => {
                lemma_exprs(scene, own, function, args@, 0, inner);
                let there = shown_among(scene, function, args@, inner);
                lemma_then(scene, function, trail, own, after, inner, this, there);
            },
            ExpressionKind::IntrinsicCall { args, .. } => {
                lemma_exprs(scene, own, function, args@, 0, inner);
                let there = shown_among(scene, function, args@, inner);
                lemma_then(scene, function, trail, own, after, inner, this, there);
            },
            ExpressionKind::Cast { from, .. } => {
                lemma_expr(scene, own, function, *from, inner);
                let there = shown_in(scene, function, *from, inner);
                lemma_then(scene, function, trail, own, after, inner, this, there);
            },
            ExpressionKind::Match { scrutinee, arms } => {
                let next = scene.expr(own, function, *scrutinee);
                lemma_expr(scene, own, function, *scrutinee, inner);
                lemma_arms(scene, next, function, arms@, 0, inner);
                let first = shown_in(scene, function, *scrutinee, inner);
                let second = shown_in_arms(scene, function, arms@, inner);
                lemma_then(scene, function, own, next, after, inner, first, second);
                lemma_then(scene, function, trail, own, after, inner, this, first || second);
            },
            _ => {},
        }
    }
}

proof fn lemma_exprs<'h>(
    scene: Scene<'h>,
    trail: Trail,
    function: Function<'h>,
    items: Seq<&'h Expression<'h>>,
    at: nat,
    inner: Expression<'h>,
)
    ensures
        keeps_all(trail, scene.exprs(trail, function, items, at)),
        forall|i: int|
            at <= i < items.len() && shown_in(scene, function, *(#[trigger] items[i]), inner)
                ==> is_covered(scene, function, inner, scene.exprs(trail, function, items, at)),
    decreases items, (items.len() - at) as nat,
{
    if at < items.len() {
        let expr = *items[at as int];
        lemma_expr(scene, trail, function, expr, inner);
        let next = scene.expr(trail, function, expr);
        lemma_exprs(scene, next, function, items, at + 1, inner);
        let after = scene.exprs(trail, function, items, at);
        if shown_in(scene, function, expr, inner) {
            lemma_covered(scene, function, inner, next, after);
        }
    }
}

proof fn lemma_fields<'h>(
    scene: Scene<'h>,
    trail: Trail,
    function: Function<'h>,
    items: Seq<(SymbolId, &'h Expression<'h>)>,
    at: nat,
    inner: Expression<'h>,
)
    ensures
        keeps_all(trail, scene.fields(trail, function, items, at)),
        forall|i: int|
            at <= i < items.len() && shown_in(scene, function, *(#[trigger] items[i]).1, inner)
                ==> is_covered(scene, function, inner, scene.fields(trail, function, items, at)),
    decreases items, (items.len() - at) as nat,
{
    if at < items.len() {
        let expr = *items[at as int].1;
        lemma_expr(scene, trail, function, expr, inner);
        let next = scene.expr(trail, function, expr);
        lemma_fields(scene, next, function, items, at + 1, inner);
        let after = scene.fields(trail, function, items, at);
        if shown_in(scene, function, expr, inner) {
            lemma_covered(scene, function, inner, next, after);
        }
    }
}

proof fn lemma_arms<'h>(
    scene: Scene<'h>,
    trail: Trail,
    function: Function<'h>,
    items: Seq<Arm<'h>>,
    at: nat,
    inner: Expression<'h>,
)
    ensures
        keeps_all(trail, scene.arms(trail, function, items, at)),
        forall|i: int|
            at <= i < items.len() && shown_in_arm(scene, function, #[trigger] items[i], inner)
                ==> is_covered(scene, function, inner, scene.arms(trail, function, items, at)),
    decreases items, (items.len() - at) as nat,
{
    if at < items.len() {
        let arm = items[at as int];
        assert(decreases_to!(items => items[at as int]));
        lemma_expr(scene, trail, function, *arm.body, inner);
        let body = scene.expr(trail, function, *arm.body);
        let guarded = match arm.guard {
            Some(guard) => scene.expr(body, function, *guard),
            None => body,
        };
        if let Some(guard) = arm.guard {
            lemma_expr(scene, body, function, *guard, inner);
        }
        lemma_arms(scene, guarded, function, items, at + 1, inner);
        let after = scene.arms(trail, function, items, at);
        if shown_in(scene, function, *arm.body, inner) {
            lemma_covered(scene, function, inner, body, after);
        } else if shown_in_arm(scene, function, arm, inner) {
            lemma_covered(scene, function, inner, guarded, after);
        }
    }
}

/// The hint at a local's name: its type.
pub open spec fn hint_of<'h>(scene: Scene<'h>, function: Function<'h>, id: LocalId) -> (Span, Seq<char>) {
    let local = function.locals@[id.0 as int];
    (local.decl_span, scene.format_type(local.typ, function.generics@))
}

/// Whether a walk covered an expression if it stands there, and hinted at a local if it is bound
/// there.
spec fn visited<'h>(
    scene: Scene<'h>,
    function: Function<'h>,
    before: Trail,
    after: Trail,
    inner: Expression<'h>,
    there: bool,
    id: LocalId,
    bound: bool,
) -> bool {
    &&& walked(scene, function, before, after, inner, there)
    &&& bound && id.0 < function.locals@.len() ==> after.hints.contains(
        hint_of(scene, function, id),
    )
}

proof fn lemma_after<'h>(
    scene: Scene<'h>,
    function: Function<'h>,
    a: Trail,
    b: Trail,
    c: Trail,
    inner: Expression<'h>,
    first: bool,
    second: bool,
    id: LocalId,
    one: bool,
    two: bool,
)
    requires
        visited(scene, function, a, b, inner, first, id, one),
        visited(scene, function, b, c, inner, second, id, two),
    ensures
        visited(scene, function, a, c, inner, first || second, id, one || two),
{
    lemma_then(scene, function, a, b, c, inner, first, second);
}

proof fn lemma_binding<'h>(
    scene: Scene<'h>,
    trail: Trail,
    function: Function<'h>,
    bound: LocalId,
    inner: Expression<'h>,
    id: LocalId,
)
    ensures
        visited(
            scene,
            function,
            trail,
            scene.binding(trail, function, bound),
            inner,
            false,
            id,
            bound == id,
        ),
{
    if bound.0 < function.locals@.len() {
        let local = function.locals@[bound.0 as int];
        let hint = hint_of(scene, function, bound);
        let hinted = Trail { hints: trail.hints.push(hint), ..trail };
        let after = scene.binding(trail, function, bound);
        assert(hinted.hints[trail.hints.len() as int] == hint);
        assert forall|item: (Span, Seq<char>)|
            trail.hints.contains(item) implies #[trigger] hinted.hints.contains(item) by {
            let i = choose|i: int| 0 <= i < trail.hints.len() && trail.hints[i] == item;
            assert(hinted.hints[i] == item);
        }
        lemma_hover(
            hinted,
            local.decl_span,
            scene.value_hover(local.typ, function.generics@),
        );
        assert(after.hints == hinted.hints);
    }
}

#[verifier::rlimit(40)]
proof fn lemma_statement<'h>(
    scene: Scene<'h>,
    trail: Trail,
    function: Function<'h>,
    statement: Statement<'h>,
    inner: Expression<'h>,
    id: LocalId,
)
    ensures
        visited(
            scene,
            function,
            trail,
            scene.statement(trail, function, statement),
            inner,
            stands_in(scene, function, statement, inner),
            id,
            binds(statement, id),
        ),
    decreases statement, 0nat,
{
    let after = scene.statement(trail, function, statement);
    match statement {
        Statement::LetInit { id: bound, init } => {
            let next = scene.binding(trail, function, bound);
            lemma_binding(scene, trail, function, bound, inner, id);
            lemma_expr(scene, next, function, *init, inner);
            let there = shown_in(scene, function, *init, inner);
            lemma_after(scene, function, trail, next, after, inner, false, there, id, bound == id, false);
        },
        Statement::LetUninit { id: bound } => {
            lemma_binding(scene, trail, function, bound, inner, id);
        },
        Statement::Expr(expr) => {
            lemma_expr(scene, trail, function, *expr, inner);
        },
        Statement::Return(Some(expr)) => {
            lemma_expr(scene, trail, function, *expr, inner);
        },
        Statement::If { condition, then_block, else_block } => {
            let tested = scene.expr(trail, function, *condition);
            let taken = scene.block(tested, function, then_block);
            lemma_expr(scene, trail, function, *condition, inner);
            lemma_block(scene, tested, function, then_block, inner, id);
            let first = shown_in(scene, function, *condition, inner);
            let second = stands_in_block(scene, function, then_block, inner);
            let bound = binds_in(then_block.statements@, id);
            lemma_after(scene, function, trail, tested, taken, inner, first, second, id, false, bound);
            if let Some(block) = else_block {
                lemma_block(scene, taken, function, block, inner, id);
                let third = stands_in_block(scene, function, block, inner);
                let other = binds_in(block.statements@, id);
                lemma_after(scene, function, trail, taken, after, inner, first || second, third, id, bound, other);
            }
        },
        Statement::While { condition, body } => {
            let next = scene.expr(trail, function, *condition);
            lemma_expr(scene, trail, function, *condition, inner);
            lemma_block(scene, next, function, body, inner, id);
            let first = shown_in(scene, function, *condition, inner);
            let second = stands_in_block(scene, function, body, inner);
            let bound = binds_in(body.statements@, id);
            lemma_after(scene, function, trail, next, after, inner, first, second, id, false, bound);
        },
        Statement::Loop { kind, body } => {
            let second = stands_in_block(scene, function, body, inner);
            let bound = binds_in(body.statements@, id);
            match kind {
                LoopKind::Infinite => {
                    lemma_block(scene, trail, function, body, inner, id);
                },
                LoopKind::Range { binding, start, end, .. } => {
                    let named = match binding {
                        Some(local) => scene.binding(trail, function, local),
                        None => trail,
                    };
                    let own = binding == Some(id);
                    if let Some(local) = binding {
                        lemma_binding(scene, trail, function, local, inner, id);
                    }
                    let begun = scene.expr(named, function, *start);
                    let ended = scene.expr(begun, function, *end);
                    lemma_expr(scene, named, function, *start, inner);
                    lemma_expr(scene, begun, function, *end, inner);
                    lemma_block(scene, ended, function, body, inner, id);
                    let first = shown_in(scene, function, *start, inner);
                    let last = shown_in(scene, function, *end, inner);
                    lemma_after(scene, function, trail, named, begun, inner, false, first, id, own, false);
                    lemma_after(scene, function, trail, begun, ended, inner, first, last, id, own, false);
                    lemma_after(scene, function, trail, ended, after, inner, first || last, second, id, own, bound);
                },
                LoopKind::Iterable { binding, iterable } => {
                    let named = scene.binding(trail, function, binding);
                    let next = scene.expr(named, function, *iterable);
                    let own = binding == id;
                    lemma_binding(scene, trail, function, binding, inner, id);
                    lemma_expr(scene, named, function, *iterable, inner);
                    lemma_block(scene, next, function, body, inner, id);
                    let first = shown_in(scene, function, *iterable, inner);
                    lemma_after(scene, function, trail, named, next, inner, false, first, id, own, false);
                    lemma_after(scene, function, trail, next, after, inner, first, second, id, own, bound);
                },
            }
        },
        Statement::Block(block) => {
            lemma_block(scene, trail, function, block, inner, id);
        },
        _ => {},
    }
}

proof fn lemma_block<'h>(
    scene: Scene<'h>,
    trail: Trail,
    function: Function<'h>,
    block: Block<'h>,
    inner: Expression<'h>,
    id: LocalId,
)
    ensures
        visited(
            scene,
            function,
            trail,
            scene.block(trail, function, block),
            inner,
            stands_in_block(scene, function, block, inner),
            id,
            binds_in(block.statements@, id),
        ),
    decreases block, 1nat,
{
    lemma_statements(scene, trail, function, block.statements@, 0, inner, id);
}

proof fn lemma_statements<'h>(
    scene: Scene<'h>,
    trail: Trail,
    function: Function<'h>,
    items: Seq<Statement<'h>>,
    at: nat,
    inner: Expression<'h>,
    id: LocalId,
)
    ensures
        keeps_all(trail, scene.statements(trail, function, items, at)),
        forall|i: int|
            at <= i < items.len() && stands_in(scene, function, #[trigger] items[i], inner)
                ==> is_covered(scene, function, inner, scene.statements(trail, function, items, at)),
        forall|i: int|
            at <= i < items.len() && binds(#[trigger] items[i], id) && id.0 < function.locals@.len()
                ==> scene.statements(trail, function, items, at).hints.contains(
                hint_of(scene, function, id),
            ),
    decreases items, (items.len() - at) as nat,
{
    if at < items.len() {
        let statement = items[at as int];
        assert(decreases_to!(items => items[at as int]));
        lemma_statement(scene, trail, function, statement, inner, id);
        let next = scene.statement(trail, function, statement);
        lemma_statements(scene, next, function, items, at + 1, inner, id);
        let after = scene.statements(trail, function, items, at);
        if stands_in(scene, function, statement, inner) {
            lemma_covered(scene, function, inner, next, after);
        }
    }
}

proof fn lemma_params<'h>(scene: Scene<'h>, trail: Trail, function: Function<'h>, at: nat)
    ensures
        keeps_all(trail, scene.params(trail, function, at)),
    decreases function.params@.len() - at,
{
    if at < function.params@.len() {
        let param = function.params@[at as int];
        let next = if param.id.0 < function.locals@.len()
            && function.locals@[param.id.0 as int].decl_span != no_span() {
            let hover = Hover {
                path: None,
                ty: scene.format_type(param.typ, function.generics@),
                layout: scene.layout(param.typ),
                docs: None,
            };
            let span = function.locals@[param.id.0 as int].decl_span;
            lemma_hover(trail, span, hover);
            trail.hover(span, hover)
        } else {
            trail
        };
        lemma_params(scene, next, function, at + 1);
    }
}

proof fn lemma_functions<'h>(
    scene: Scene<'h>,
    trail: Trail,
    at: nat,
    k: int,
    inner: Expression<'h>,
    id: LocalId,
)
    requires
        0 <= k < scene.functions.len(),
    ensures
        keeps_all(trail, scene.functions(trail, at)),
        at <= k ==> {
            let function = scene.functions[k];
            let after = scene.functions(trail, at);
            &&& visited(
                scene,
                function,
                trail,
                after,
                inner,
                stands_in_block(scene, function, function.body, inner),
                id,
                binds_in(function.body.statements@, id),
            )
            &&& function.decl_span != no_span() ==> after.hover.contains(
                (function.decl_span, scene.fn_hover(function)),
            )
        },
    decreases scene.functions.len() - at,
{
    if at < scene.functions.len() {
        let function = scene.functions[at as int];
        let declared = if function.decl_span != no_span() {
            lemma_hover(trail, function.decl_span, scene.fn_hover(function));
            trail.hover(function.decl_span, scene.fn_hover(function))
        } else {
            trail
        };
        lemma_params(scene, declared, function, 0);
        let listed = scene.params(declared, function, 0);
        lemma_block(scene, listed, function, function.body, inner, id);
        let next = scene.block(listed, function, function.body);
        lemma_functions(scene, next, at + 1, k, inner, id);
        let after = scene.functions(trail, at);
        if at == k && stands_in_block(scene, function, function.body, inner) {
            lemma_covered(scene, function, inner, next, after);
        }
    }
}

proof fn lemma_declarations<'h>(scene: Scene<'h>, trail: Trail, kind: nat, at: nat)
    requires
        kind < 3,
    ensures
        kind == 0 ==> keeps_all(trail, scene.struct_decls(trail, at)),
        kind == 1 ==> keeps_all(trail, scene.enum_decls(trail, at)),
        kind == 2 ==> keeps_all(trail, scene.const_decls(trail, at)) && forall|i: int|
            at <= i < scene.constants.len() && (#[trigger] scene.constants[i]).decl_span
                != no_span() ==> scene.const_decls(trail, at).hover.contains(
                (scene.constants[i].decl_span, scene.const_hover(*scene.constants[i])),
            ),
    decreases
            (if kind == 0 {
                scene.structs.len() - at
            } else if kind == 1 {
                scene.enums.len() - at
            } else {
                scene.constants.len() - at
            }),
{
    if kind == 0 && at < scene.structs.len() {
        let span = scene.structs[at as int].decl_span;
        let typ = Type::structure(crate::hir::types::StructId(at as u32));
        if let Some(hover) = scene.type_hover(typ) {
            lemma_hover(trail, span, hover);
        }
        lemma_declarations(scene, scene.declared_type(trail, typ, span), 0, at + 1);
    }
    if kind == 1 && at < scene.enums.len() {
        let span = scene.enums[at as int].decl_span;
        let typ = Type::enumerable(scene.enums[at as int].id);
        if let Some(hover) = scene.type_hover(typ) {
            lemma_hover(trail, span, hover);
        }
        lemma_declarations(scene, scene.declared_type(trail, typ, span), 1, at + 1);
    }
    if kind == 2 && at < scene.constants.len() {
        let constant = *scene.constants[at as int];
        let next = if constant.decl_span != no_span() {
            lemma_hover(trail, constant.decl_span, scene.const_hover(constant));
            trail.hover(constant.decl_span, scene.const_hover(constant))
        } else {
            trail
        };
        lemma_declarations(scene, next, 2, at + 1);
    }
}

/// Everything in the body of every function is shown: each expression, with the constant it uses,
/// the function it calls or its type, and each local that is bound, with a hint of its type. So is
/// each declaration of a function and a constant.
pub proof fn lemma_all_shown<'h>(scene: Scene<'h>, k: int, inner: Expression<'h>, id: LocalId)
    requires
        0 <= k < scene.functions.len(),
    ensures
        ({
            let function = scene.functions[k];
            let trail = scene.trail();
            &&& stands_in_block(scene, function, function.body, inner) ==> is_covered(
                scene,
                function,
                inner,
                trail,
            )
            &&& binds_in(function.body.statements@, id) && id.0 < function.locals@.len()
                ==> trail.hints.contains(hint_of(scene, function, id))
            &&& function.decl_span != no_span() ==> trail.hover.contains(
                (function.decl_span, scene.fn_hover(function)),
            )
            &&& forall|i: int|
                0 <= i < scene.constants.len() && (#[trigger] scene.constants[i]).decl_span
                    != no_span() ==> trail.hover.contains(
                    (scene.constants[i].decl_span, scene.const_hover(*scene.constants[i])),
                )
        }),
{
    let start = Trail { hover: Seq::empty(), defs: Map::empty(), hints: Seq::empty() };
    let walked = scene.functions(start, 0);
    let structs = scene.struct_decls(walked, 0);
    let enums = scene.enum_decls(structs, 0);
    lemma_functions(scene, start, 0, k, inner, id);
    lemma_declarations(scene, walked, 0, 0);
    lemma_declarations(scene, structs, 1, 0);
    lemma_declarations(scene, enums, 2, 0);
    let function = scene.functions[k];
    if stands_in_block(scene, function, function.body, inner) {
        lemma_covered(scene, function, inner, walked, structs);
        lemma_covered(scene, function, inner, structs, enums);
        lemma_covered(scene, function, inner, enums, scene.trail());
    }
}

/// A use of a local leads to where it is declared, and a call to where the function is declared: to
/// the function that the call was resolved to.
pub proof fn lemma_definitions<'h>(scene: Scene<'h>, trail: Trail, function: Function<'h>, expr: Expression<'h>)
    requires
        !uses_constant(scene, function, expr),
    ensures
        match expr.kind {
            ExpressionKind::Local(id) => id.0 < function.locals@.len() ==> scene.expr(
                trail,
                function,
                expr,
            ).defs == trail.defs.insert(
                crate::analysis::span_key(expr.span),
                function.locals@[id.0 as int].decl_span,
            ),
            ExpressionKind::Call { callee, args } => args@.len() == 0 ==> match resolved(
                function,
                expr,
            ) {
                Some(id) => reaches_function(scene, function, expr) ==> exists|i: int|
                    0 <= i < scene.functions.len() && (#[trigger] scene.functions[i]).id == id
                        && scene.expr(trail, function, expr).defs == trail.defs.insert(
                        crate::analysis::span_key(callee.span),
                        scene.functions[i].decl_span,
                    ),
                None => scene.expr(trail, function, expr).defs == trail.defs,
            },
            _ => true,
        },
{
    lemma_own(scene, trail, function, expr);
    if let Some(id) = resolved(function, expr) {
        lemma_function_found(scene.functions, id, scene.functions.len());
    }
    if let ExpressionKind::Call { callee, args } = expr.kind {
        if args@.len() == 0 {
            let own = own_trail(scene, trail, function, expr);
            assert(scene.exprs(own, function, args@, 0) == own);
            assert(scene.expr(trail, function, expr) == own);
            if let Some(target) = scene.callee(function, expr) {
                let i = choose|i: int|
                    0 <= i < scene.functions.len() && #[trigger] scene.functions[i] == target;
                assert(scene.functions[i].id == target.id);
            }
        }
    }
}

} // verus!
