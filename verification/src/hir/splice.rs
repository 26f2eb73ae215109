//! Inlining a constant: copying its expression into the body that uses it.

use crate::ast::Span;
use crate::hir::body::{Body, FunctionBuilder, Lowered, LoweredTree};
use crate::hir::symbols::SymbolId;
use crate::hir::tree::{
    arm_tree, arm_trees, expr_tree, expr_trees, field_trees, kind_tree, pattern_tree, pattern_trees,
    Arm, ArmTree, ExprId, ExprTree, Expression, ExpressionKind, KindTree, Node, Pattern,
    PatternKind, TypeckResults,
};
use vstd::prelude::*;

verus! {

/// Whether every expression of a tree is among the first `count` of its body.
pub open spec fn ids_within(tree: ExprTree, count: nat) -> bool
    decreases tree, 1nat,
{
    tree.id.0 < count && kind_within(tree.kind, count)
}

/// Whether every expression below one of the given kind is among the first `count`.
pub open spec fn kind_within(kind: KindTree, count: nat) -> bool
    decreases kind, 0nat,
{
    match kind {
        KindTree::Unary { operator, expr } => ids_within(*expr, count),
        KindTree::Binary { operator, left, right } => ids_within(*left, count) && ids_within(
            *right,
            count,
        ),
        KindTree::Field { base, field } => ids_within(*base, count),
        KindTree::Assign { target, value } => ids_within(*target, count) && ids_within(
            *value,
            count,
        ),
        KindTree::Struct { id, fields } => fields_within(fields, count),
        KindTree::Array { elements } => list_within(elements, count),
        KindTree::ArrayRepeat { value, count: _ } => ids_within(*value, count),
        KindTree::Index { base, index } => ids_within(*base, count) && ids_within(*index, count),
        KindTree::Call { callee, args } => ids_within(*callee, count) && list_within(args, count),
        KindTree::MethodCall { name, receiver, args } => ids_within(*receiver, count)
            && list_within(args, count),
        KindTree::Syscall { code, args } => list_within(args, count),
        KindTree::IntrinsicCall { intrinsic, args } => list_within(args, count),
        KindTree::Cast { from, to } => ids_within(*from, count),
        KindTree::Match { scrutinee, arms } => ids_within(*scrutinee, count) && arms_within(
            arms,
            count,
        ),
        _ => true,
    }
}

pub open spec fn list_within(items: Seq<ExprTree>, count: nat) -> bool
    decreases items, 2nat,
{
    forall|i: int| 0 <= i < items.len() ==> ids_within(#[trigger] items[i], count)
}

pub open spec fn fields_within(items: Seq<(SymbolId, ExprTree)>, count: nat) -> bool
    decreases items, 2nat,
{
    forall|i: int| 0 <= i < items.len() ==> ids_within((#[trigger] items[i]).1, count)
}

pub open spec fn arms_within(items: Seq<ArmTree>, count: nat) -> bool
    decreases items, 3nat,
{
    forall|i: int| 0 <= i < items.len() ==> arm_within(#[trigger] items[i], count)
}

pub open spec fn arm_within(arm: ArmTree, count: nat) -> bool
    decreases arm, 2nat,
{
    &&& match arm.guard {
        Some(guard) => ids_within(guard, count),
        None => true,
    }
    &&& ids_within(arm.body, count)
}

/// What is known of the copy of an expression: all that is known of the expression, except that
/// the copy does not count as a use of a constant by itself.
pub open spec fn copied_node<'hir>(typeck: TypeckResults<'hir>, id: ExprId) -> Node<'hir> {
    Node { const_use: None, ..typeck.nodes@[id.0 as int] }
}

impl<'hir> Body<'hir> {
    /// A copy of a tree: every expression is made anew, after those it consists of, and stands
    /// at `span`.
    pub open spec fn splice(self, tree: ExprTree<'hir>, typeck: TypeckResults<'hir>, span: Span) -> (
        Body<'hir>,
        LoweredTree<'hir>,
    )
        decreases tree, 1nat,
    {
        let (body, kind) = self.splice_kind(tree.kind, typeck, span);
        body.alloc_node(kind, copied_node(typeck, tree.id), span)
    }

    pub open spec fn splice_kind(
        self,
        kind: KindTree<'hir>,
        typeck: TypeckResults<'hir>,
        span: Span,
    ) -> (Body<'hir>, KindTree<'hir>)
        decreases kind, 0nat,
    {
        match kind {
            KindTree::Literal(literal) => (self, kind),
            KindTree::Local(id) => (self, kind),
            KindTree::Path(symbol) => (self, kind),
            KindTree::Const(constant) => (self, kind),
            KindTree::TypeIntrinsic { kind: question, typ } => (self, kind),
            KindTree::Unary { operator, expr } => {
                let (body, expr) = self.splice(*expr, typeck, span);
                (body, KindTree::Unary { operator, expr: Box::new(expr.expr) })
            },
            KindTree::Binary { operator, left, right } => {
                let (body, left) = self.splice(*left, typeck, span);
                let (body, right) = body.splice(*right, typeck, span);
                (
                    body,
                    KindTree::Binary {
                        operator,
                        left: Box::new(left.expr),
                        right: Box::new(right.expr),
                    },
                )
            },
            KindTree::Field { base, field } => {
                let (body, base) = self.splice(*base, typeck, span);
                (body, KindTree::Field { base: Box::new(base.expr), field })
            },
            KindTree::Assign { target, value } => {
                let (body, target) = self.splice(*target, typeck, span);
                let (body, value) = body.splice(*value, typeck, span);
                (
                    body,
                    KindTree::Assign { target: Box::new(target.expr), value: Box::new(value.expr) },
                )
            },
            KindTree::Struct { id, fields } => {
                let (body, fields) = self.splice_fields(fields, 0, seq![], typeck, span);
                (body, KindTree::Struct { id, fields })
            },
            KindTree::Array { elements } => {
                let (body, elements) = self.splice_list(elements, 0, seq![], typeck, span);
                (body, KindTree::Array { elements })
            },
            KindTree::ArrayRepeat { value, count } => {
                let (body, value) = self.splice(*value, typeck, span);
                (body, KindTree::ArrayRepeat { value: Box::new(value.expr), count })
            },
            KindTree::Index { base, index } => {
                let (body, base) = self.splice(*base, typeck, span);
                let (body, index) = body.splice(*index, typeck, span);
                (body, KindTree::Index { base: Box::new(base.expr), index: Box::new(index.expr) })
            },
            KindTree::Call { callee, args } => {
                let (body, callee) = self.splice(*callee, typeck, span);
                let (body, args) = body.splice_list(args, 0, seq![], typeck, span);
                (body, KindTree::Call { callee: Box::new(callee.expr), args })
            },
            KindTree::MethodCall { name, receiver, args } => {
                let (body, receiver) = self.splice(*receiver, typeck, span);
                let (body, args) = body.splice_list(args, 0, seq![], typeck, span);
                (body, KindTree::MethodCall { name, receiver: Box::new(receiver.expr), args })
            },
            KindTree::Syscall { code, args } => {
                let (body, args) = self.splice_list(args, 0, seq![], typeck, span);
                (body, KindTree::Syscall { code, args })
            },
            KindTree::IntrinsicCall { intrinsic, args } => {
                let (body, args) = self.splice_list(args, 0, seq![], typeck, span);
                (body, KindTree::IntrinsicCall { intrinsic, args })
            },
            KindTree::Cast { from, to } => {
                let (body, from) = self.splice(*from, typeck, span);
                (body, KindTree::Cast { from: Box::new(from.expr), to })
            },
            KindTree::Match { scrutinee, arms } => {
                let (body, scrutinee) = self.splice(*scrutinee, typeck, span);
                let (body, arms) = body.splice_arms(arms, 0, seq![], typeck, span);
                (body, KindTree::Match { scrutinee: Box::new(scrutinee.expr), arms })
            },
        }
    }

    pub open spec fn splice_list(
        self,
        items: Seq<ExprTree<'hir>>,
        at: nat,
        done: Seq<ExprTree<'hir>>,
        typeck: TypeckResults<'hir>,
        span: Span,
    ) -> (Body<'hir>, Seq<ExprTree<'hir>>)
        decreases items, (items.len() - at) as nat,
    {
        if at >= items.len() {
            (self, done)
        } else {
            let (body, item) = self.splice(items[at as int], typeck, span);
            body.splice_list(items, at + 1, done.push(item.expr), typeck, span)
        }
    }

    pub open spec fn splice_fields(
        self,
        items: Seq<(SymbolId, ExprTree<'hir>)>,
        at: nat,
        done: Seq<(SymbolId, ExprTree<'hir>)>,
        typeck: TypeckResults<'hir>,
        span: Span,
    ) -> (Body<'hir>, Seq<(SymbolId, ExprTree<'hir>)>)
        decreases items, (items.len() - at) as nat,
    {
        if at >= items.len() {
            (self, done)
        } else {
            let (body, item) = self.splice(items[at as int].1, typeck, span);
            body.splice_fields(
                items,
                at + 1,
                done.push((items[at as int].0, item.expr)),
                typeck,
                span,
            )
        }
    }

    pub open spec fn splice_arm(self, arm: ArmTree<'hir>, typeck: TypeckResults<'hir>, span: Span) -> (
        Body<'hir>,
        ArmTree<'hir>,
    )
        decreases arm, 2nat,
    {
        let (body, guard) = match arm.guard {
            Some(guard) => {
                let (body, guard) = self.splice(guard, typeck, span);
                (body, Some(guard.expr))
            },
            None => (self, None),
        };
        let (body, value) = body.splice(arm.body, typeck, span);
        (body, ArmTree { pattern: arm.pattern, guard, body: value.expr, span: arm.span })
    }

    pub open spec fn splice_arms(
        self,
        items: Seq<ArmTree<'hir>>,
        at: nat,
        done: Seq<ArmTree<'hir>>,
        typeck: TypeckResults<'hir>,
        span: Span,
    ) -> (Body<'hir>, Seq<ArmTree<'hir>>)
        decreases items, (items.len() - at) as nat,
    {
        if at >= items.len() {
            (self, done)
        } else {
            let (body, arm) = self.splice_arm(items[at as int], typeck, span);
            body.splice_arms(items, at + 1, done.push(arm), typeck, span)
        }
    }
}

/// Whether the second state is the first with more expressions at the end.
pub open spec fn grows<'hir>(before: Body<'hir>, after: Body<'hir>) -> bool {
    &&& before.nodes.len() <= after.nodes.len()
    &&& after.nodes.take(before.nodes.len() as int) == before.nodes
    &&& after == Body { nodes: after.nodes, ..before }
}

proof fn lemma_grows_on<'hir>(a: Body<'hir>, b: Body<'hir>, c: Body<'hir>)
    requires
        grows(a, b),
        grows(b, c),
    ensures
        grows(a, c),
{
    assert(c.nodes.take(a.nodes.len() as int) =~= c.nodes.take(b.nodes.len() as int).take(
        a.nodes.len() as int,
    ));
}

/// Inlining a constant leaves what was in the body as it was: it only adds expressions, the
/// last of which is the copy itself, with the type and the call target that the constant has.
pub proof fn lemma_splice<'hir>(
    body: Body<'hir>,
    tree: ExprTree<'hir>,
    typeck: TypeckResults<'hir>,
    span: Span,
)
    ensures
        grows(body, body.splice(tree, typeck, span).0),
        body.splice(tree, typeck, span).0.nodes.len() > body.nodes.len(),
        body.splice(tree, typeck, span).0.nodes.last() == copied_node(typeck, tree.id),
    decreases tree, 1nat,
{
    lemma_splice_kind(body, tree.kind, typeck, span);
    let (inner, kind) = body.splice_kind(tree.kind, typeck, span);
    let after = body.splice(tree, typeck, span).0;
    assert(after.nodes.take(inner.nodes.len() as int) =~= inner.nodes);
    lemma_grows_on(body, inner, after);
}

proof fn lemma_splice_kind<'hir>(
    body: Body<'hir>,
    kind: KindTree<'hir>,
    typeck: TypeckResults<'hir>,
    span: Span,
)
    ensures
        grows(body, body.splice_kind(kind, typeck, span).0),
    decreases kind, 0nat,
{
    assert(body.nodes.take(body.nodes.len() as int) =~= body.nodes);
    match kind {
        KindTree::Unary { operator, expr } => lemma_splice(body, *expr, typeck, span),
        KindTree::Binary { operator, left, right } => {
            lemma_splice(body, *left, typeck, span);
            let middle = body.splice(*left, typeck, span).0;
            lemma_splice(middle, *right, typeck, span);
            lemma_grows_on(body, middle, body.splice_kind(kind, typeck, span).0);
        },
        KindTree::Field { base, field } => lemma_splice(body, *base, typeck, span),
        KindTree::Assign { target, value } => {
            lemma_splice(body, *target, typeck, span);
            let middle = body.splice(*target, typeck, span).0;
            lemma_splice(middle, *value, typeck, span);
            lemma_grows_on(body, middle, body.splice_kind(kind, typeck, span).0);
        },
        KindTree::Struct { id, fields } => {
            lemma_splice_fields(body, fields, 0, seq![], typeck, span);
        },
        KindTree::Array { elements } => {
            lemma_splice_list(body, elements, 0, seq![], typeck, span);
        },
        KindTree::ArrayRepeat { value, count } => lemma_splice(body, *value, typeck, span),
        KindTree::Index { base, index } => {
            lemma_splice(body, *base, typeck, span);
            let middle = body.splice(*base, typeck, span).0;
            lemma_splice(middle, *index, typeck, span);
            lemma_grows_on(body, middle, body.splice_kind(kind, typeck, span).0);
        },
        KindTree::Call { callee, args } => {
            lemma_splice(body, *callee, typeck, span);
            let middle = body.splice(*callee, typeck, span).0;
            lemma_splice_list(middle, args, 0, seq![], typeck, span);
            lemma_grows_on(body, middle, body.splice_kind(kind, typeck, span).0);
        },
        KindTree::MethodCall { name, receiver, args } => {
            lemma_splice(body, *receiver, typeck, span);
            let middle = body.splice(*receiver, typeck, span).0;
            lemma_splice_list(middle, args, 0, seq![], typeck, span);
            lemma_grows_on(body, middle, body.splice_kind(kind, typeck, span).0);
        },
        KindTree::Syscall { code, args } => {
            lemma_splice_list(body, args, 0, seq![], typeck, span);
        },
        KindTree::IntrinsicCall { intrinsic, args } => {
            lemma_splice_list(body, args, 0, seq![], typeck, span);
        },
        KindTree::Cast { from, to } => lemma_splice(body, *from, typeck, span),
        KindTree::Match { scrutinee, arms } => {
            lemma_splice(body, *scrutinee, typeck, span);
            let middle = body.splice(*scrutinee, typeck, span).0;
            lemma_splice_arms(middle, arms, 0, seq![], typeck, span);
            lemma_grows_on(body, middle, body.splice_kind(kind, typeck, span).0);
        },
        _ => {},
    }
}

proof fn lemma_splice_list<'hir>(
    body: Body<'hir>,
    items: Seq<ExprTree<'hir>>,
    at: nat,
    done: Seq<ExprTree<'hir>>,
    typeck: TypeckResults<'hir>,
    span: Span,
)
    ensures
        grows(body, body.splice_list(items, at, done, typeck, span).0),
    decreases items, (items.len() - at) as nat,
{
    assert(body.nodes.take(body.nodes.len() as int) =~= body.nodes);
    if at < items.len() {
        lemma_splice(body, items[at as int], typeck, span);
        let (next, item) = body.splice(items[at as int], typeck, span);
        lemma_splice_list(next, items, at + 1, done.push(item.expr), typeck, span);
        lemma_grows_on(body, next, body.splice_list(items, at, done, typeck, span).0);
    }
}

proof fn lemma_splice_fields<'hir>(
    body: Body<'hir>,
    items: Seq<(SymbolId, ExprTree<'hir>)>,
    at: nat,
    done: Seq<(SymbolId, ExprTree<'hir>)>,
    typeck: TypeckResults<'hir>,
    span: Span,
)
    ensures
        grows(body, body.splice_fields(items, at, done, typeck, span).0),
    decreases items, (items.len() - at) as nat,
{
    assert(body.nodes.take(body.nodes.len() as int) =~= body.nodes);
    if at < items.len() {
        lemma_splice(body, items[at as int].1, typeck, span);
        let (next, item) = body.splice(items[at as int].1, typeck, span);
        lemma_splice_fields(
            next,
            items,
            at + 1,
            done.push((items[at as int].0, item.expr)),
            typeck,
            span,
        );
        lemma_grows_on(body, next, body.splice_fields(items, at, done, typeck, span).0);
    }
}

proof fn lemma_splice_arms<'hir>(
    body: Body<'hir>,
    items: Seq<ArmTree<'hir>>,
    at: nat,
    done: Seq<ArmTree<'hir>>,
    typeck: TypeckResults<'hir>,
    span: Span,
)
    ensures
        grows(body, body.splice_arms(items, at, done, typeck, span).0),
    decreases items, (items.len() - at) as nat,
{
    assert(body.nodes.take(body.nodes.len() as int) =~= body.nodes);
    if at < items.len() {
        let arm = items[at as int];
        let guarded = match arm.guard {
            Some(guard) => {
                lemma_splice(body, guard, typeck, span);
                body.splice(guard, typeck, span).0
            },
            None => body,
        };
        lemma_splice(guarded, arm.body, typeck, span);
        let (next, copy) = body.splice_arm(arm, typeck, span);
        lemma_grows_on(body, guarded, next);
        lemma_splice_arms(next, items, at + 1, done.push(copy), typeck, span);
        lemma_grows_on(body, next, body.splice_arms(items, at, done, typeck, span).0);
    }
}

impl<'hir> FunctionBuilder<'hir> {
    /// Copies a constant's expression, with all that is known of it, into this body. Every
    /// expression of the copy stands at `span`, where the constant is used.
    pub fn splice_const(
        &mut self,
        expr: &Expression<'hir>,
        typeck: TypeckResults<'hir>,
        span: Span,
    ) -> (lowered: Lowered<'hir>)
        requires
            old(self).wf(),
            ids_within(expr_tree(*expr), typeck.nodes@.len()),
        ensures
            final(self).wf(),
            (final(self)@, lowered@) == old(self)@.splice(expr_tree(*expr), typeck, span),
        decreases expr, 1nat,
    {
        let kind = self.splice_kind(&expr.kind, typeck, span);
        let node = typeck.nodes[expr.id.0 as usize];
        self.alloc_node(kind, Node { const_use: None, ..node }, span)
    }

    fn splice_kind(
        &mut self,
        kind: &ExpressionKind<'hir>,
        typeck: TypeckResults<'hir>,
        span: Span,
    ) -> (copy: ExpressionKind<'hir>)
        requires
            old(self).wf(),
            kind_within(kind_tree(*kind), typeck.nodes@.len()),
        ensures
            final(self).wf(),
            (final(self)@, kind_tree(copy)) == old(self)@.splice_kind(
                kind_tree(*kind),
                typeck,
                span,
            ),
        decreases kind, 0nat,
    {
        match *kind {
            ExpressionKind::Literal(_) => *kind,
            ExpressionKind::Local(_) => *kind,
            ExpressionKind::Path(_) => *kind,
            ExpressionKind::Const(_) => *kind,
            ExpressionKind::TypeIntrinsic { .. } => *kind,
            ExpressionKind::Unary { operator, expr } => {
                let expr = self.splice_const(expr, typeck, span);
                ExpressionKind::Unary { operator, expr: expr.expr }
            },
            ExpressionKind::Binary { operator, left, right } => {
                let left = self.splice_const(left, typeck, span);
                let right = self.splice_const(right, typeck, span);
                ExpressionKind::Binary { operator, left: left.expr, right: right.expr }
            },
            ExpressionKind::Field { base, field } => {
                let base = self.splice_const(base, typeck, span);
                ExpressionKind::Field { base: base.expr, field }
            },
            ExpressionKind::Assign { target, value } => {
                let target = self.splice_const(target, typeck, span);
                let value = self.splice_const(value, typeck, span);
                ExpressionKind::Assign { target: target.expr, value: value.expr }
            },
            ExpressionKind::Struct { id, fields } => {
                let fields = self.splice_fields(fields, typeck, span);
                ExpressionKind::Struct { id, fields }
            },
            ExpressionKind::Array { elements } => {
                let elements = self.splice_list(elements, typeck, span);
                ExpressionKind::Array { elements }
            },
            ExpressionKind::ArrayRepeat { value, count } => {
                let value = self.splice_const(value, typeck, span);
                ExpressionKind::ArrayRepeat { value: value.expr, count }
            },
            ExpressionKind::Index { base, index } => {
                let base = self.splice_const(base, typeck, span);
                let index = self.splice_const(index, typeck, span);
                ExpressionKind::Index { base: base.expr, index: index.expr }
            },
            ExpressionKind::Call { callee, args } => {
                let callee = self.splice_const(callee, typeck, span);
                let args = self.splice_list(args, typeck, span);
                ExpressionKind::Call { callee: callee.expr, args }
            },
            ExpressionKind::MethodCall { name, receiver, args } => {
                let receiver = self.splice_const(receiver, typeck, span);
                let args = self.splice_list(args, typeck, span);
                ExpressionKind::MethodCall { name, receiver: receiver.expr, args }
            },
            ExpressionKind::Syscall { code, args } => {
                let args = self.splice_list(args, typeck, span);
                ExpressionKind::Syscall { code, args }
            },
            ExpressionKind::IntrinsicCall { intrinsic, args } => {
                let args = self.splice_list(args, typeck, span);
                ExpressionKind::IntrinsicCall { intrinsic, args }
            },
            ExpressionKind::Cast { from, to } => {
                let from = self.splice_const(from, typeck, span);
                ExpressionKind::Cast { from: from.expr, to }
            },
            ExpressionKind::Match { scrutinee, arms } => {
                let scrutinee = self.splice_const(scrutinee, typeck, span);
                let arms = self.splice_arms(arms, typeck, span);
                ExpressionKind::Match { scrutinee: scrutinee.expr, arms }
            },
        }
    }

    fn splice_list(
        &mut self,
        items: &Vec<&'hir Expression<'hir>>,
        typeck: TypeckResults<'hir>,
        span: Span,
    ) -> (copies: &'hir Vec<&'hir Expression<'hir>>)
        requires
            old(self).wf(),
            list_within(expr_trees(items@), typeck.nodes@.len()),
        ensures
            final(self).wf(),
            (final(self)@, expr_trees(copies@)) == old(self)@.splice_list(
                expr_trees(items@),
                0,
                seq![],
                typeck,
                span,
            ),
        decreases items@, 0nat,
    {
        let ghost trees = expr_trees(items@);
        let mut copies: Vec<&'hir Expression<'hir>> = Vec::new();
        assert(expr_trees(copies@) =~= seq![]);
        let mut i: usize = 0;
        while i < items.len()
            invariant
                self.wf(),
                i <= items@.len(),
                trees == expr_trees(items@),
                list_within(trees, typeck.nodes@.len()),
                self@.splice_list(trees, i as nat, expr_trees(copies@), typeck, span)
                    == old(self)@.splice_list(trees, 0, seq![], typeck, span),
            decreases items@.len() - i,
        {
            assert(trees[i as int] == expr_tree(*items@[i as int]));
            assert(decreases_to!(items@ => items@[i as int]));
            let copy = self.splice_const(items[i], typeck, span);
            let ghost before = copies@;
            copies.push(copy.expr);
            assert(expr_trees(copies@) =~= expr_trees(before).push(expr_tree(*copy.expr)));
            i += 1;
        }
        self.scope.arena.place(copies)
    }

    fn splice_fields(
        &mut self,
        items: &Vec<(SymbolId, &'hir Expression<'hir>)>,
        typeck: TypeckResults<'hir>,
        span: Span,
    ) -> (copies: &'hir Vec<(SymbolId, &'hir Expression<'hir>)>)
        requires
            old(self).wf(),
            fields_within(field_trees(items@), typeck.nodes@.len()),
        ensures
            final(self).wf(),
            (final(self)@, field_trees(copies@)) == old(self)@.splice_fields(
                field_trees(items@),
                0,
                seq![],
                typeck,
                span,
            ),
        decreases items@, 0nat,
    {
        let ghost trees = field_trees(items@);
        let mut copies: Vec<(SymbolId, &'hir Expression<'hir>)> = Vec::new();
        assert(field_trees(copies@) =~= seq![]);
        let mut i: usize = 0;
        while i < items.len()
            invariant
                self.wf(),
                i <= items@.len(),
                trees == field_trees(items@),
                fields_within(trees, typeck.nodes@.len()),
                self@.splice_fields(trees, i as nat, field_trees(copies@), typeck, span)
                    == old(self)@.splice_fields(trees, 0, seq![], typeck, span),
            decreases items@.len() - i,
        {
            assert(trees[i as int] == (items@[i as int].0, expr_tree(*items@[i as int].1)));
            assert(decreases_to!(items@ => items@[i as int]));
            let copy = self.splice_const(items[i].1, typeck, span);
            let ghost before = copies@;
            copies.push((items[i].0, copy.expr));
            assert(field_trees(copies@) =~= field_trees(before).push(
                (items@[i as int].0, expr_tree(*copy.expr)),
            ));
            i += 1;
        }
        self.scope.arena.place(copies)
    }

    fn splice_arm(&mut self, arm: &Arm<'hir>, typeck: TypeckResults<'hir>, span: Span) -> (copy: Arm<
        'hir,
    >)
        requires
            old(self).wf(),
            arm_within(arm_tree(*arm), typeck.nodes@.len()),
        ensures
            final(self).wf(),
            (final(self)@, arm_tree(copy)) == old(self)@.splice_arm(arm_tree(*arm), typeck, span),
        decreases arm, 2nat,
    {
        let pattern = self.splice_pattern(arm.pattern);
        let guard = match arm.guard {
            Some(guard) => Some(self.splice_const(guard, typeck, span).expr),
            None => None,
        };
        let body = self.splice_const(arm.body, typeck, span);
        Arm { pattern: self.scope.arena.place(pattern), guard, body: body.expr, span: arm.span }
    }

    fn splice_arms(&mut self, items: &Vec<Arm<'hir>>, typeck: TypeckResults<'hir>, span: Span) -> (copies:
        &'hir Vec<Arm<'hir>>)
        requires
            old(self).wf(),
            arms_within(arm_trees(items@), typeck.nodes@.len()),
        ensures
            final(self).wf(),
            (final(self)@, arm_trees(copies@)) == old(self)@.splice_arms(
                arm_trees(items@),
                0,
                seq![],
                typeck,
                span,
            ),
        decreases items@, 0nat,
    {
        let ghost trees = arm_trees(items@);
        let mut copies: Vec<Arm<'hir>> = Vec::new();
        assert(arm_trees(copies@) =~= seq![]);
        let mut i: usize = 0;
        while i < items.len()
            invariant
                self.wf(),
                i <= items@.len(),
                trees == arm_trees(items@),
                arms_within(trees, typeck.nodes@.len()),
                self@.splice_arms(trees, i as nat, arm_trees(copies@), typeck, span)
                    == old(self)@.splice_arms(trees, 0, seq![], typeck, span),
            decreases items@.len() - i,
        {
            assert(trees[i as int] == arm_tree(items@[i as int]));
            assert(decreases_to!(items@ => items@[i as int]));
            let copy = self.splice_arm(&items[i], typeck, span);
            let ghost before = copies@;
            copies.push(copy);
            assert(arm_trees(copies@) =~= arm_trees(before).push(arm_tree(copy)));
            i += 1;
        }
        self.scope.arena.place(copies)
    }

    /// A copy of a pattern, which needs no new expressions.
    pub fn splice_pattern(&self, pattern: &Pattern<'hir>) -> (copy: Pattern<'hir>)
        ensures
            pattern_tree(copy) == pattern_tree(*pattern),
        decreases pattern, 0nat,
    {
        let kind = match pattern.kind {
            PatternKind::Wildcard => PatternKind::Wildcard,
            PatternKind::Literal(literal) => PatternKind::Literal(literal),
            PatternKind::Binding(id) => PatternKind::Binding(id),
            PatternKind::Or(items) => PatternKind::Or(self.splice_patterns(items)),
            PatternKind::Variant { id, variant_idx, sub } => {
                let sub = match sub {
                    Some(sub) => {
                        let copy = self.splice_pattern(sub);
                        let placed: &'hir Pattern<'hir> = self.scope.arena.place(copy);
                        Some(placed)
                    },
                    None => None,
                };
                PatternKind::Variant { id, variant_idx, sub }
            },
        };
        Pattern { kind, span: pattern.span }
    }

    fn splice_patterns(&self, items: &Vec<Pattern<'hir>>) -> (copies: &'hir Vec<Pattern<'hir>>)
        ensures
            pattern_trees(copies@) == pattern_trees(items@),
        decreases items@, 0nat,
    {
        let mut copies: Vec<Pattern<'hir>> = Vec::new();
        let mut i: usize = 0;
        while i < items.len()
            invariant
                i <= items@.len(),
                copies@.len() == i,
                forall|j: int|
                    0 <= j < i ==> pattern_tree(#[trigger] copies@[j]) == pattern_tree(items@[j]),
            decreases items@.len() - i,
        {
            assert(decreases_to!(items@ => items@[i as int]));
            copies.push(self.splice_pattern(&items[i]));
            i += 1;
        }
        assert(pattern_trees(copies@) =~= pattern_trees(items@));
        self.scope.arena.place(copies)
    }
}

} // verus!
