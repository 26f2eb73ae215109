//! A tree stands for an expression part by part.

use crate::hir::tree::{
    arm_tree, arm_trees, block_tree, const_tree, expr_tree, expr_trees, field_trees, kind_tree,
    loop_tree, pattern_kind_tree, pattern_tree, pattern_trees, statement_tree, Arm, Block, Constant, Expression, ExpressionKind, Function, KindTree, LoopKind,
    LoopTree, Pattern, PatternKind, PatternKindTree, Statement, StatementTree,
};
use vstd::prelude::*;

verus! {

/// Whether a list of trees stands for a list of expressions.
pub open spec fn same_list<'h>(
    items: Seq<&'h Expression<'h>>,
    trees: Seq<crate::hir::tree::ExprTree<'h>>,
) -> bool {
    trees.len() == items.len() && forall|i: int|
        0 <= i < items.len() ==> #[trigger] trees[i] == expr_tree(*items[i])
}

/// The tree of an expression has its id, its place and its parts, each in its position.
pub proof fn lemma_expression_tree<'h>(e: Expression<'h>)
    ensures
        expr_tree(e).id == e.id,
        expr_tree(e).span == e.span,
        match (e.kind, expr_tree(e).kind) {
            (ExpressionKind::Literal(a), KindTree::Literal(b)) => a == b,
            (ExpressionKind::Local(a), KindTree::Local(b)) => a == b,
            (ExpressionKind::Unary { operator: o, expr: a }, KindTree::Unary { operator, expr }) =>
                operator == o && *expr == expr_tree(*a),
            (
                ExpressionKind::Binary { operator: o, left: a, right: b },
                KindTree::Binary { operator, left, right },
            ) => operator == o && *left == expr_tree(*a) && *right == expr_tree(*b),
            (ExpressionKind::Field { base: a, field: f }, KindTree::Field { base, field }) => *base
                == expr_tree(*a) && field == f,
            (
                ExpressionKind::Assign { target: a, value: b },
                KindTree::Assign { target, value },
            ) => *target == expr_tree(*a) && *value == expr_tree(*b),
            (ExpressionKind::Struct { id: a, fields: f }, KindTree::Struct { id, fields }) => id == a
                && fields.len() == f@.len() && forall|i: int|
                0 <= i < fields.len() ==> (#[trigger] fields[i]).0 == f@[i].0 && fields[i].1
                    == expr_tree(*f@[i].1),
            (ExpressionKind::Array { elements: a }, KindTree::Array { elements }) => same_list(
                a@,
                elements,
            ),
            (
                ExpressionKind::ArrayRepeat { value: a, count: n },
                KindTree::ArrayRepeat { value, count },
            ) => *value == expr_tree(*a) && count == n,
            (ExpressionKind::Index { base: a, index: b }, KindTree::Index { base, index }) => *base
                == expr_tree(*a) && *index == expr_tree(*b),
            (ExpressionKind::Path(a), KindTree::Path(b)) => a == b,
            (ExpressionKind::Const(a), KindTree::Const(b)) => *b == const_tree(*a),
            (ExpressionKind::Call { callee: a, args: b }, KindTree::Call { callee, args }) => *callee
                == expr_tree(*a) && same_list(b@, args),
            (
                ExpressionKind::MethodCall { name: n, receiver: a, args: b },
                KindTree::MethodCall { name, receiver, args },
            ) => name == n && *receiver == expr_tree(*a) && same_list(b@, args),
            (ExpressionKind::Syscall { code: c, args: b }, KindTree::Syscall { code, args }) => code
                == c && same_list(b@, args),
            (
                ExpressionKind::IntrinsicCall { intrinsic: n, args: b },
                KindTree::IntrinsicCall { intrinsic, args },
            ) => intrinsic == n && same_list(b@, args),
            (
                ExpressionKind::TypeIntrinsic { kind: k, typ: t },
                KindTree::TypeIntrinsic { kind, typ },
            ) => kind == k && typ == t,
            (ExpressionKind::Cast { from: a, to: t }, KindTree::Cast { from, to }) => *from
                == expr_tree(*a) && to == t,
            (
                ExpressionKind::Match { scrutinee: a, arms: b },
                KindTree::Match { scrutinee, arms },
            ) => *scrutinee == expr_tree(*a) && arms.len() == b@.len() && forall|i: int|
                0 <= i < arms.len() ==> #[trigger] arms[i] == arm_tree(b@[i]),
            _ => false,
        },
{
    reveal_with_fuel(expr_tree, 2);
    reveal_with_fuel(kind_tree, 2);
    assert(expr_tree(e).kind == kind_tree(e.kind));
    match e.kind {
        ExpressionKind::Array { elements } => {
            lemma_list(elements@);
        },
        ExpressionKind::Call { args, .. } => {
            lemma_list(args@);
        },
        ExpressionKind::MethodCall { args, .. } => {
            lemma_list(args@);
        },
        ExpressionKind::Syscall { args, .. } => {
            lemma_list(args@);
        },
        ExpressionKind::IntrinsicCall { args, .. } => {
            lemma_list(args@);
        },
        ExpressionKind::Struct { fields, .. } => {
            let trees = field_trees(fields@);
            assert forall|i: int| 0 <= i < trees.len() implies (#[trigger] trees[i]).0
                == fields@[i].0 && trees[i].1 == expr_tree(*fields@[i].1) by {
                assert(trees[i] == (fields@[i].0, expr_tree(*fields@[i].1)));
            }
        },
        ExpressionKind::Match { arms, .. } => {
            let trees = arm_trees(arms@);
            assert forall|i: int| 0 <= i < trees.len() implies #[trigger] trees[i] == arm_tree(
                arms@[i],
            ) by {}
        },
        _ => {},
    }
}

proof fn lemma_list<'h>(items: Seq<&'h Expression<'h>>)
    ensures
        same_list(items, expr_trees(items)),
{
}

pub proof fn lemma_arm_tree<'h>(arm: Arm<'h>)
    ensures
        arm_tree(arm).pattern == pattern_tree(*arm.pattern),
        arm_tree(arm).body == expr_tree(*arm.body),
        arm_tree(arm).span == arm.span,
        match (arm.guard, arm_tree(arm).guard) {
            (Some(a), Some(b)) => b == expr_tree(*a),
            (None, None) => true,
            _ => false,
        },
{
}

pub proof fn lemma_pattern_tree(pattern: Pattern)
    ensures
        pattern_tree(pattern).span == pattern.span,
        match (pattern.kind, pattern_tree(pattern).kind) {
            (PatternKind::Wildcard, PatternKindTree::Wildcard) => true,
            (PatternKind::Binding(a), PatternKindTree::Binding(b)) => a == b,
            (PatternKind::Literal(a), PatternKindTree::Literal(b)) => a == b,
            (
                PatternKind::Variant { id: a, variant_idx: n, sub: s },
                PatternKindTree::Variant { id, variant_idx, sub },
            ) => id == a && variant_idx == n && match (s, sub) {
                (Some(a), Some(b)) => *b == pattern_tree(*a),
                (None, None) => true,
                _ => false,
            },
            (PatternKind::Or(a), PatternKindTree::Or(b)) => b.len() == a@.len() && forall|i: int|
                0 <= i < b.len() ==> #[trigger] b[i] == pattern_tree(a@[i]),
            _ => false,
        },
{
    reveal_with_fuel(pattern_tree, 2);
    reveal_with_fuel(pattern_kind_tree, 2);
    assert(pattern_tree(pattern).kind == pattern_kind_tree(pattern.kind));
    if let PatternKind::Or(items) = pattern.kind {
        let trees = pattern_trees(items@);
        assert forall|i: int| 0 <= i < trees.len() implies #[trigger] trees[i] == pattern_tree(
            items@[i],
        ) by {}
    }
}

/// The tree of a statement has its parts, each in its position.
pub proof fn lemma_statement_tree<'h>(statement: Statement<'h>)
    ensures
        match (statement, statement_tree(statement)) {
            (Statement::LetInit { id: a, init: b }, StatementTree::LetInit { id, init }) => id == a
                && init == expr_tree(*b),
            (Statement::LetUninit { id: a }, StatementTree::LetUninit { id }) => id == a,
            (Statement::Expr(a), StatementTree::Expr(b)) => b == expr_tree(*a),
            (Statement::Return(Some(a)), StatementTree::Return(Some(b))) => b == expr_tree(*a),
            (Statement::Return(None), StatementTree::Return(None)) => true,
            (
                Statement::If { condition: a, then_block: b, else_block: c },
                StatementTree::If { condition, then_block, else_block },
            ) => condition == expr_tree(*a) && then_block == block_tree(b) && match (c, else_block) {
                (Some(a), Some(b)) => b == block_tree(a),
                (None, None) => true,
                _ => false,
            },
            (
                Statement::While { condition: a, body: b },
                StatementTree::While { condition, body },
            ) => condition == expr_tree(*a) && body == block_tree(b),
            (Statement::Loop { kind: a, body: b }, StatementTree::Loop { kind, body }) => kind
                == loop_tree(a) && body == block_tree(b),
            (Statement::Break, StatementTree::Break) => true,
            (Statement::Continue, StatementTree::Continue) => true,
            (Statement::Block(a), StatementTree::Block(b)) => b == block_tree(a),
            _ => false,
        },
{
}

pub proof fn lemma_block_tree<'h>(block: Block<'h>)
    ensures
        block_tree(block).span == block.span,
        block_tree(block).statements.len() == block.statements@.len(),
        forall|i: int|
            0 <= i < block.statements@.len() ==> #[trigger] block_tree(block).statements[i]
                == statement_tree(block.statements@[i]),
{
}

/// The tree of a loop's header has its parts: a range its start and end and whether the end belongs
/// to it.
pub proof fn lemma_loop_tree<'h>(kind: LoopKind<'h>)
    ensures
        match (kind, loop_tree(kind)) {
            (LoopKind::Infinite, LoopTree::Infinite) => true,
            (
                LoopKind::Range { binding: a, start: b, end: c, inclusive: d },
                LoopTree::Range { binding, start, end, inclusive },
            ) => binding == a && start == expr_tree(*b) && end == expr_tree(*c) && inclusive == d,
            (
                LoopKind::Iterable { binding: a, iterable: b },
                LoopTree::Iterable { binding, iterable },
            ) => binding == a && iterable == expr_tree(*b),
            _ => false,
        },
{
}

pub proof fn lemma_function_tree<'h>(function: Function<'h>)
    ensures
        function@.id == function.id,
        function@.name == function.name,
        function@.decl_span == function.decl_span,
        function@.kind == function.kind,
        function@.params == function.params@,
        function@.locals == function.locals@,
        function@.return_type == function.return_type,
        function@.is_const == function.is_const,
        function@.is_pub == function.is_pub,
        function@.inline == function.inline,
        function@.nodes == function.typeck.nodes@,
        function@.body == block_tree(function.body),
        function@.generics == function.generics@,
{
}

pub proof fn lemma_constant_tree<'h>(constant: Constant<'h>)
    ensures
        const_tree(constant).name == constant.name,
        const_tree(constant).typ == constant.typ,
        const_tree(constant).value == expr_tree(*constant.value),
        const_tree(constant).typeck == constant.typeck,
        const_tree(constant).is_pub == constant.is_pub,
        const_tree(constant).decl_span == constant.decl_span,
{
}

} // verus!
