//! Why a constant is lowered after every constant that its initialiser mentions.

use crate::ast::{Expression, FieldInit};
use crate::hir::constants::{decl_position, ConstDecl};
use crate::hir::scope::Names;
use crate::hir::symbols::SymbolId;
use crate::hir::topo::{depends, lemma_sorted_graph, sorted_graph};
use vstd::prelude::*;

verus! {

/// Whether an expression stands somewhere in another.
pub open spec fn within<'s>(outer: Expression<'s>, inner: Expression<'s>) -> bool
    decreases outer, 0nat,
{
    outer == inner || match outer {
        Expression::Call(call) => within(*call.callee, inner) || within_list(call.args@, inner),
        Expression::QualifiedCall(call) => within_list(call.args@, inner),
        Expression::Binary(binary) => within(*binary.left, inner) || within(*binary.right, inner),
        Expression::Unary(unary) => within(*unary.expr, inner),
        Expression::Assignment(assignment) => within(*assignment.target, inner) || within(
            *assignment.value,
            inner,
        ),
        Expression::Cast(cast) => within(*cast.expr, inner),
        Expression::Struct(literal) => within_fields(literal.fields@, inner),
        Expression::Field(access) => within(*access.expr, inner),
        Expression::Array(literal) => within_list(literal.elements@, inner),
        Expression::ArrayRepeat(literal) => within(*literal.value, inner),
        Expression::Index(access) => within(*access.base, inner) || within(*access.index, inner),
        _ => false,
    }
}

pub open spec fn within_list<'s>(items: Seq<Expression<'s>>, inner: Expression<'s>) -> bool
    decreases items, 0nat,
{
    exists|i: int| 0 <= i < items.len() && within(#[trigger] items[i], inner)
}

pub open spec fn within_fields<'s>(items: Seq<FieldInit<'s>>, inner: Expression<'s>) -> bool
    decreases items, 0nat,
{
    exists|i: int| 0 <= i < items.len() && within((#[trigger] items[i]).value, inner)
}

/// Whether an expression is the name of the constant at a position: a plain name stands for a
/// constant of the owner before one of the module.
pub open spec fn names_constant<'hir>(
    names: Names<'hir>,
    decls: Seq<ConstDecl<'hir>>,
    owner: Option<&'hir str>,
    expr: Expression<'hir>,
    position: usize,
) -> bool {
    match expr {
        Expression::Identifier(name, _) => {
            let own = match owner {
                Some(owner) => names.const_at(decls, names.scoped_item(owner@, name@)),
                None => None,
            };
            own == Some(position) || (own is None && names.const_at(decls, names.item(name@))
                == Some(position))
        },
        Expression::QualifiedName(name) => names.const_at(
            decls,
            names.scoped_item(name.qualifier@, name.name@),
        ) == Some(position),
        _ => false,
    }
}

proof fn lemma_push(found: Seq<usize>, added: usize)
    ensures
        forall|p: usize|
            #[trigger] found.push(added).contains(p) <==> found.contains(p) || p == added,
{
    let after = found.push(added);
    assert forall|p: usize| #[trigger] after.contains(p) <==> found.contains(p) || p == added by {
        if found.contains(p) {
            let i = choose|i: int| 0 <= i < found.len() && found[i] == p;
            assert(after[i] == p);
        }
        assert(after[found.len() as int] == added);
        if after.contains(p) && p != added {
            let i = choose|i: int| 0 <= i < after.len() && after[i] == p;
            assert(found[i] == p);
        }
    }
}

/// A mention is counted, and what was counted before stays.
proof fn lemma_counted<'hir>(
    names: Names<'hir>,
    decls: Seq<ConstDecl<'hir>>,
    owner: Option<&'hir str>,
    expr: Expression<'hir>,
    found: Seq<usize>,
    inner: Expression<'hir>,
    p: usize,
)
    requires
        names_constant(names, decls, owner, inner, p),
    ensures
        found.contains(p) || within(expr, inner) ==> names.const_deps(
            decls,
            owner,
            expr,
            found,
        ).contains(p),
    decreases expr, 0nat,
{
    reveal_with_fuel(within, 3);
    match expr {
        Expression::Identifier(name, _) => {
            if let Some(position) = names.named_const(decls, owner, name@) {
                lemma_push(found, position);
            }
        },
        Expression::QualifiedName(name) => {
            if let Some(position) = names.const_at(
                decls,
                names.scoped_item(name.qualifier@, name.name@),
            ) {
                lemma_push(found, position);
            }
        },
        Expression::Unary(e) => lemma_counted(names, decls, owner, *e.expr, found, inner, p),
        Expression::Binary(e) => {
            lemma_counted(names, decls, owner, *e.left, found, inner, p);
            let next = names.const_deps(decls, owner, *e.left, found);
            lemma_counted(names, decls, owner, *e.right, next, inner, p);
        },
        Expression::Assignment(e) => {
            lemma_counted(names, decls, owner, *e.target, found, inner, p);
            let next = names.const_deps(decls, owner, *e.target, found);
            lemma_counted(names, decls, owner, *e.value, next, inner, p);
        },
        Expression::Cast(e) => lemma_counted(names, decls, owner, *e.expr, found, inner, p),
        Expression::Struct(e) => {
            lemma_counted_fields(names, decls, owner, e.fields@, 0, found, inner, p);
        },
        Expression::Field(e) => lemma_counted(names, decls, owner, *e.expr, found, inner, p),
        Expression::Array(e) => {
            lemma_counted_list(names, decls, owner, e.elements@, 0, found, inner, p);
        },
        Expression::ArrayRepeat(e) => lemma_counted(names, decls, owner, *e.value, found, inner, p),
        Expression::Index(e) => {
            lemma_counted(names, decls, owner, *e.base, found, inner, p);
            let next = names.const_deps(decls, owner, *e.base, found);
            lemma_counted(names, decls, owner, *e.index, next, inner, p);
        },
        Expression::Call(e) => {
            lemma_counted(names, decls, owner, *e.callee, found, inner, p);
            let next = names.const_deps(decls, owner, *e.callee, found);
            lemma_counted_list(names, decls, owner, e.args@, 0, next, inner, p);
        },
        Expression::QualifiedCall(e) => {
            lemma_counted_list(names, decls, owner, e.args@, 0, found, inner, p);
        },
        _ => {},
    }
}

proof fn lemma_counted_list<'hir>(
    names: Names<'hir>,
    decls: Seq<ConstDecl<'hir>>,
    owner: Option<&'hir str>,
    items: Seq<Expression<'hir>>,
    at: nat,
    found: Seq<usize>,
    inner: Expression<'hir>,
    p: usize,
)
    requires
        names_constant(names, decls, owner, inner, p),
    ensures
        found.contains(p) || (exists|i: int|
            at <= i < items.len() && within(#[trigger] items[i], inner)) ==> names.const_deps_list(
            decls,
            owner,
            items,
            at,
            found,
        ).contains(p),
    decreases items, items.len() - at,
{
    if at < items.len() {
        lemma_counted(names, decls, owner, items[at as int], found, inner, p);
        let next = names.const_deps(decls, owner, items[at as int], found);
        lemma_counted_list(names, decls, owner, items, at + 1, next, inner, p);
    }
}

proof fn lemma_counted_fields<'hir>(
    names: Names<'hir>,
    decls: Seq<ConstDecl<'hir>>,
    owner: Option<&'hir str>,
    items: Seq<FieldInit<'hir>>,
    at: nat,
    found: Seq<usize>,
    inner: Expression<'hir>,
    p: usize,
)
    requires
        names_constant(names, decls, owner, inner, p),
    ensures
        found.contains(p) || (exists|i: int|
            at <= i < items.len() && within((#[trigger] items[i]).value, inner))
            ==> names.const_deps_fields(decls, owner, items, at, found).contains(p),
    decreases items, items.len() - at,
{
    if at < items.len() {
        lemma_counted(names, decls, owner, items[at as int].value, found, inner, p);
        let next = names.const_deps(decls, owner, items[at as int].value, found);
        lemma_counted_fields(names, decls, owner, items, at + 1, next, inner, p);
    }
}

/// Only mentions are counted: a constant that was not counted before is named somewhere.
proof fn lemma_mentioned<'hir>(
    names: Names<'hir>,
    decls: Seq<ConstDecl<'hir>>,
    owner: Option<&'hir str>,
    expr: Expression<'hir>,
    found: Seq<usize>,
    p: usize,
) -> (inner: Expression<'hir>)
    ensures
        names.const_deps(decls, owner, expr, found).contains(p) && !found.contains(p) ==> within(
            expr,
            inner,
        ) && names_constant(names, decls, owner, inner, p),
    decreases expr, 0nat,
{
    reveal_with_fuel(within, 3);
    match expr {
        Expression::Identifier(name, _) => {
            if let Some(position) = names.named_const(decls, owner, name@) {
                lemma_push(found, position);
            }
            expr
        },
        Expression::QualifiedName(name) => {
            if let Some(position) = names.const_at(
                decls,
                names.scoped_item(name.qualifier@, name.name@),
            ) {
                lemma_push(found, position);
            }
            expr
        },
        Expression::Unary(e) => lemma_mentioned(names, decls, owner, *e.expr, found, p),
        Expression::Binary(e) => {
            let next = names.const_deps(decls, owner, *e.left, found);
            let first = lemma_mentioned(names, decls, owner, *e.left, found, p);
            let second = lemma_mentioned(names, decls, owner, *e.right, next, p);
            if next.contains(p) {
                first
            } else {
                second
            }
        },
        Expression::Assignment(e) => {
            let next = names.const_deps(decls, owner, *e.target, found);
            let first = lemma_mentioned(names, decls, owner, *e.target, found, p);
            let second = lemma_mentioned(names, decls, owner, *e.value, next, p);
            if next.contains(p) {
                first
            } else {
                second
            }
        },
        Expression::Cast(e) => lemma_mentioned(names, decls, owner, *e.expr, found, p),
        Expression::Struct(e) => lemma_mentioned_fields(names, decls, owner, e.fields@, 0, found, p),
        Expression::Field(e) => lemma_mentioned(names, decls, owner, *e.expr, found, p),
        Expression::Array(e) => lemma_mentioned_list(names, decls, owner, e.elements@, 0, found, p),
        Expression::ArrayRepeat(e) => lemma_mentioned(names, decls, owner, *e.value, found, p),
        Expression::Index(e) => {
            let next = names.const_deps(decls, owner, *e.base, found);
            let first = lemma_mentioned(names, decls, owner, *e.base, found, p);
            let second = lemma_mentioned(names, decls, owner, *e.index, next, p);
            if next.contains(p) {
                first
            } else {
                second
            }
        },
        Expression::Call(e) => {
            let next = names.const_deps(decls, owner, *e.callee, found);
            let first = lemma_mentioned(names, decls, owner, *e.callee, found, p);
            let second = lemma_mentioned_list(names, decls, owner, e.args@, 0, next, p);
            if next.contains(p) {
                first
            } else {
                second
            }
        },
        Expression::QualifiedCall(e) => lemma_mentioned_list(
            names,
            decls,
            owner,
            e.args@,
            0,
            found,
            p,
        ),
        _ => expr,
    }
}

proof fn lemma_mentioned_list<'hir>(
    names: Names<'hir>,
    decls: Seq<ConstDecl<'hir>>,
    owner: Option<&'hir str>,
    items: Seq<Expression<'hir>>,
    at: nat,
    found: Seq<usize>,
    p: usize,
) -> (inner: Expression<'hir>)
    ensures
        names.const_deps_list(decls, owner, items, at, found).contains(p) && !found.contains(p)
            ==> within_list(items, inner) && names_constant(names, decls, owner, inner, p),
    decreases items, items.len() - at,
{
    if at < items.len() {
        let next = names.const_deps(decls, owner, items[at as int], found);
        let first = lemma_mentioned(names, decls, owner, items[at as int], found, p);
        let second = lemma_mentioned_list(names, decls, owner, items, at + 1, next, p);
        if next.contains(p) {
            first
        } else {
            second
        }
    } else {
        arbitrary()
    }
}

proof fn lemma_mentioned_fields<'hir>(
    names: Names<'hir>,
    decls: Seq<ConstDecl<'hir>>,
    owner: Option<&'hir str>,
    items: Seq<FieldInit<'hir>>,
    at: nat,
    found: Seq<usize>,
    p: usize,
) -> (inner: Expression<'hir>)
    ensures
        names.const_deps_fields(decls, owner, items, at, found).contains(p) && !found.contains(p)
            ==> within_fields(items, inner) && names_constant(names, decls, owner, inner, p),
    decreases items, items.len() - at,
{
    if at < items.len() {
        let next = names.const_deps(decls, owner, items[at as int].value, found);
        let first = lemma_mentioned(names, decls, owner, items[at as int].value, found, p);
        let second = lemma_mentioned_fields(names, decls, owner, items, at + 1, next, p);
        if next.contains(p) {
            first
        } else {
            second
        }
    } else {
        arbitrary()
    }
}

/// A constant depends on exactly the constants whose names stand somewhere in its initialiser.
pub proof fn lemma_constant_dependencies<'hir>(
    names: Names<'hir>,
    decls: Seq<ConstDecl<'hir>>,
    constant: int,
    on: usize,
)
    requires
        0 <= constant < decls.len(),
    ensures
        names.const_graph(decls)[constant].contains(on) <==> exists|inner: Expression<'hir>|
            #[trigger] within(decls[constant].ast.value, inner) && names_constant(
                names,
                decls,
                decls[constant].owner,
                inner,
                on,
            ),
{
    let decl = decls[constant];
    let none = Seq::<usize>::empty();
    if names.const_graph(decls)[constant].contains(on) {
        let inner = lemma_mentioned(names, decls, decl.owner, decl.ast.value, none, on);
        assert(within(decl.ast.value, inner));
    }
    if exists|inner: Expression<'hir>|
        #[trigger] within(decl.ast.value, inner) && names_constant(
            names,
            decls,
            decl.owner,
            inner,
            on,
        ) {
        let inner = choose|inner: Expression<'hir>|
            #[trigger] within(decl.ast.value, inner) && names_constant(
                names,
                decls,
                decl.owner,
                inner,
                on,
            );
        lemma_counted(names, decls, decl.owner, decl.ast.value, none, inner, on);
    }
}

/// When the constants can be ordered, each is lowered once, and after every other constant whose
/// name stands somewhere in its initialiser.
pub proof fn lemma_constant_order<'hir>(
    names: Names<'hir>,
    decls: Seq<ConstDecl<'hir>>,
    order: Seq<usize>,
    at: int,
    inner: Expression<'hir>,
    on: usize,
)
    requires
        decls.len() <= usize::MAX,
        sorted_graph(names.const_graph(decls)) == Ok::<Seq<usize>, usize>(order),
        0 <= at < order.len(),
        order[at] < decls.len(),
        on < decls.len(),
        within(decls[order[at] as int].ast.value, inner),
        names_constant(names, decls, decls[order[at] as int].owner, inner, on),
    ensures
        order.no_duplicates(),
        exists|i: int| 0 <= i < at && #[trigger] order[i] == on,
{
    let graph = names.const_graph(decls);
    lemma_sorted_graph(graph);
    lemma_constant_dependencies(names, decls, order[at] as int, on);
    assert(depends(graph, order[at], on));
    let before = order.take(at);
    assert(before.contains(on));
    let i = choose|i: int| 0 <= i < before.len() && before[i] == on;
    assert(order[i] == on);
}

/// The position of a constant: the first one declared under its canonical name.
pub proof fn lemma_constant_position<'hir>(
    names: Names<'hir>,
    decls: Seq<ConstDecl<'hir>>,
    mangled: Seq<char>,
)
    requires
        decls.len() <= usize::MAX,
    ensures
        match names.const_at(decls, mangled) {
            Some(p) => p < decls.len() && names.get_id(mangled) == Some(decls[p as int].symbol)
                && forall|i: int| 0 <= i < p ==> (#[trigger] decls[i]).symbol
                != decls[p as int].symbol,
            None => forall|i: int|
                0 <= i < decls.len() ==> names.get_id(mangled) != Some(
                    (#[trigger] decls[i]).symbol,
                ),
        },
{
    if let Some(symbol) = names.get_id(mangled) {
        lemma_position(decls, symbol, 0);
    }
}

proof fn lemma_position<'hir>(decls: Seq<ConstDecl<'hir>>, symbol: SymbolId, at: int)
    requires
        0 <= at <= decls.len() <= usize::MAX,
    ensures
        match decl_position(decls, symbol, at) {
            Some(p) => at <= p < decls.len() && decls[p as int].symbol == symbol && forall|i: int|
                at <= i < p ==> (#[trigger] decls[i]).symbol != symbol,
            None => forall|i: int| at <= i < decls.len() ==> (#[trigger] decls[i]).symbol != symbol,
        },
    decreases decls.len() - at,
{
    if at < decls.len() && decls[at].symbol != symbol {
        lemma_position(decls, symbol, at + 1);
    }
}

} // verus!
