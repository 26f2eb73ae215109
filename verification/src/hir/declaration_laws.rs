//! Every item of a module is collected, and methods come from where they should.

use crate::ast;
use crate::ast::{Const, Enum, Function, Impl, Interface, ItemKind, Statement, Struct, UseDecl};
use crate::hir::declarations::{defaults, has_method, methods_of, Items};
use crate::hir::error::HirErrorKind;
use vstd::prelude::*;

verus! {

/// The kind of the item that a statement is.
pub open spec fn item_kind<'s>(statement: Statement<'s>) -> Option<ItemKind<'s>> {
    match statement {
        Statement::Item(item) => Some(item.kind),
        _ => None,
    }
}

proof fn lemma_pushed<T>(items: Seq<T>, last: T, x: T)
    ensures
        items.push(last).contains(x) <==> items.contains(x) || x == last,
{
    let more = items.push(last);
    assert(more[items.len() as int] == last);
    if items.contains(x) {
        let i = choose|i: int| 0 <= i < items.len() && items[i] == x;
        assert(more[i] == x);
    }
    if more.contains(x) {
        let i = choose|i: int| 0 <= i < more.len() && more[i] == x;
        if i < items.len() {
            assert(items[i] == x);
        }
    }
}

proof fn lemma_collected_functions<'hir>(
    items: Items<'hir>,
    statements: Seq<Statement<'hir>>,
    at: nat,
    x: &'hir Function<'hir>,
)
    requires
        items.collect(statements, at) is Ok,
    ensures
        items.collect(statements, at)->Ok_0.functions.contains(x) <==> items.functions.contains(x) || exists|
            i: int,
        |
            at <= i < statements.len() && item_kind(#[trigger] statements[i]) == Some(
                ItemKind::Fn(x),
            ),
    decreases statements.len() - at,
{
    if at < statements.len() {
        if let Statement::Item(item) = statements[at as int] {
            let more = items.add_item(item);
            lemma_collected_functions(more, statements, at + 1, x);
            if let ItemKind::Fn(y) = item.kind {
                lemma_pushed(items.functions, y, x);
            }
            assert(item_kind(statements[at as int]) == Some(item.kind));
            assert(more.functions.contains(x) <==> items.functions.contains(x) || item.kind == ItemKind::Fn(x));
        }
    }
}

proof fn lemma_collected_structs<'hir>(
    items: Items<'hir>,
    statements: Seq<Statement<'hir>>,
    at: nat,
    x: &'hir Struct<'hir>,
)
    requires
        items.collect(statements, at) is Ok,
    ensures
        items.collect(statements, at)->Ok_0.structs.contains(x) <==> items.structs.contains(x) || exists|
            i: int,
        |
            at <= i < statements.len() && item_kind(#[trigger] statements[i]) == Some(
                ItemKind::Struct(x),
            ),
    decreases statements.len() - at,
{
    if at < statements.len() {
        if let Statement::Item(item) = statements[at as int] {
            let more = items.add_item(item);
            lemma_collected_structs(more, statements, at + 1, x);
            if let ItemKind::Struct(y) = item.kind {
                lemma_pushed(items.structs, y, x);
            }
            assert(item_kind(statements[at as int]) == Some(item.kind));
            assert(more.structs.contains(x) <==> items.structs.contains(x) || item.kind == ItemKind::Struct(x));
        }
    }
}

proof fn lemma_collected_enums<'hir>(
    items: Items<'hir>,
    statements: Seq<Statement<'hir>>,
    at: nat,
    x: &'hir Enum<'hir>,
)
    requires
        items.collect(statements, at) is Ok,
    ensures
        items.collect(statements, at)->Ok_0.enums.contains(x) <==> items.enums.contains(x) || exists|
            i: int,
        |
            at <= i < statements.len() && item_kind(#[trigger] statements[i]) == Some(
                ItemKind::Enum(x),
            ),
    decreases statements.len() - at,
{
    if at < statements.len() {
        if let Statement::Item(item) = statements[at as int] {
            let more = items.add_item(item);
            lemma_collected_enums(more, statements, at + 1, x);
            if let ItemKind::Enum(y) = item.kind {
                lemma_pushed(items.enums, y, x);
            }
            assert(item_kind(statements[at as int]) == Some(item.kind));
            assert(more.enums.contains(x) <==> items.enums.contains(x) || item.kind == ItemKind::Enum(x));
        }
    }
}

proof fn lemma_collected_constants<'hir>(
    items: Items<'hir>,
    statements: Seq<Statement<'hir>>,
    at: nat,
    x: &'hir Const<'hir>,
)
    requires
        items.collect(statements, at) is Ok,
    ensures
        items.collect(statements, at)->Ok_0.constants.contains(x) <==> items.constants.contains(x) || exists|
            i: int,
        |
            at <= i < statements.len() && item_kind(#[trigger] statements[i]) == Some(
                ItemKind::Const(x),
            ),
    decreases statements.len() - at,
{
    if at < statements.len() {
        if let Statement::Item(item) = statements[at as int] {
            let more = items.add_item(item);
            lemma_collected_constants(more, statements, at + 1, x);
            if let ItemKind::Const(y) = item.kind {
                lemma_pushed(items.constants, y, x);
            }
            assert(item_kind(statements[at as int]) == Some(item.kind));
            assert(more.constants.contains(x) <==> items.constants.contains(x) || item.kind == ItemKind::Const(x));
        }
    }
}

proof fn lemma_collected_interfaces<'hir>(
    items: Items<'hir>,
    statements: Seq<Statement<'hir>>,
    at: nat,
    x: &'hir Interface<'hir>,
)
    requires
        items.collect(statements, at) is Ok,
    ensures
        items.collect(statements, at)->Ok_0.interfaces.contains(x) <==> items.interfaces.contains(x) || exists|
            i: int,
        |
            at <= i < statements.len() && item_kind(#[trigger] statements[i]) == Some(
                ItemKind::Interface(x),
            ),
    decreases statements.len() - at,
{
    if at < statements.len() {
        if let Statement::Item(item) = statements[at as int] {
            let more = items.add_item(item);
            lemma_collected_interfaces(more, statements, at + 1, x);
            if let ItemKind::Interface(y) = item.kind {
                lemma_pushed(items.interfaces, y, x);
            }
            assert(item_kind(statements[at as int]) == Some(item.kind));
            assert(more.interfaces.contains(x) <==> items.interfaces.contains(x) || item.kind == ItemKind::Interface(x));
        }
    }
}

proof fn lemma_collected_impls<'hir>(
    items: Items<'hir>,
    statements: Seq<Statement<'hir>>,
    at: nat,
    x: &'hir Impl<'hir>,
)
    requires
        items.collect(statements, at) is Ok,
    ensures
        items.collect(statements, at)->Ok_0.impls.contains(x) <==> items.impls.contains(x) || exists|
            i: int,
        |
            at <= i < statements.len() && item_kind(#[trigger] statements[i]) == Some(
                ItemKind::Impl(x),
            ),
    decreases statements.len() - at,
{
    if at < statements.len() {
        if let Statement::Item(item) = statements[at as int] {
            let more = items.add_item(item);
            lemma_collected_impls(more, statements, at + 1, x);
            if let ItemKind::Impl(y) = item.kind {
                lemma_pushed(items.impls, y, x);
            }
            assert(item_kind(statements[at as int]) == Some(item.kind));
            assert(more.impls.contains(x) <==> items.impls.contains(x) || item.kind == ItemKind::Impl(x));
        }
    }
}

proof fn lemma_collected_uses<'hir>(
    items: Items<'hir>,
    statements: Seq<Statement<'hir>>,
    at: nat,
    x: &'hir UseDecl<'hir>,
)
    requires
        items.collect(statements, at) is Ok,
    ensures
        items.collect(statements, at)->Ok_0.uses.contains(x) <==> items.uses.contains(x) || exists|
            i: int,
        |
            at <= i < statements.len() && item_kind(#[trigger] statements[i]) == Some(
                ItemKind::Use(x),
            ),
    decreases statements.len() - at,
{
    if at < statements.len() {
        if let Statement::Item(item) = statements[at as int] {
            let more = items.add_item(item);
            lemma_collected_uses(more, statements, at + 1, x);
            if let ItemKind::Use(y) = item.kind {
                lemma_pushed(items.uses, y, x);
            }
            assert(item_kind(statements[at as int]) == Some(item.kind));
            assert(more.uses.contains(x) <==> items.uses.contains(x) || item.kind == ItemKind::Use(x));
        }
    }
}

/// A module is collected just where it holds nothing but items, and every item is then in the list
/// of its kind, which holds nothing else.
pub proof fn lemma_items_collected<'hir>(statements: Seq<Statement<'hir>>)
    ensures
        match Items::<'hir>::empty().collect(statements, 0) {
            Err(error) => error.kind == HirErrorKind::<Seq<char>>::TopLevelNonFunction && exists|i: int|
                0 <= i < statements.len() && item_kind(#[trigger] statements[i]) is None,
            Ok(items) => {
                &&& forall|i: int|
                    0 <= i < statements.len() ==> item_kind(#[trigger] statements[i]) is Some
                &&& forall|x: &'hir Function<'hir>| #[trigger]
                    items.functions.contains(x) <==> exists|i: int|
                        0 <= i < statements.len() && item_kind(#[trigger] statements[i]) == Some(
                            ItemKind::Fn(x),
                        )
                &&& forall|x: &'hir Struct<'hir>| #[trigger]
                    items.structs.contains(x) <==> exists|i: int|
                        0 <= i < statements.len() && item_kind(#[trigger] statements[i]) == Some(
                            ItemKind::Struct(x),
                        )
                &&& forall|x: &'hir Enum<'hir>| #[trigger]
                    items.enums.contains(x) <==> exists|i: int|
                        0 <= i < statements.len() && item_kind(#[trigger] statements[i]) == Some(
                            ItemKind::Enum(x),
                        )
                &&& forall|x: &'hir Const<'hir>| #[trigger]
                    items.constants.contains(x) <==> exists|i: int|
                        0 <= i < statements.len() && item_kind(#[trigger] statements[i]) == Some(
                            ItemKind::Const(x),
                        )
                &&& forall|x: &'hir Interface<'hir>| #[trigger]
                    items.interfaces.contains(x) <==> exists|i: int|
                        0 <= i < statements.len() && item_kind(#[trigger] statements[i]) == Some(
                            ItemKind::Interface(x),
                        )
                &&& forall|x: &'hir Impl<'hir>| #[trigger]
                    items.impls.contains(x) <==> exists|i: int|
                        0 <= i < statements.len() && item_kind(#[trigger] statements[i]) == Some(
                            ItemKind::Impl(x),
                        )
                &&& forall|x: &'hir UseDecl<'hir>| #[trigger]
                    items.uses.contains(x) <==> exists|i: int|
                        0 <= i < statements.len() && item_kind(#[trigger] statements[i]) == Some(
                            ItemKind::Use(x),
                        )
            },
        },
{
    let none = Items::<'hir>::empty();
    lemma_only_items(none, statements, 0);
    if let Ok(items) = none.collect(statements, 0) {
        assert forall|x: &'hir Function<'hir>| #[trigger] items.functions.contains(x) <==> exists|i: int|
            0 <= i < statements.len() && item_kind(#[trigger] statements[i]) == Some(
                ItemKind::Fn(x),
            ) by {
            lemma_collected_functions(none, statements, 0, x);
        }
        assert forall|x: &'hir Struct<'hir>| #[trigger] items.structs.contains(x) <==> exists|i: int|
            0 <= i < statements.len() && item_kind(#[trigger] statements[i]) == Some(
                ItemKind::Struct(x),
            ) by {
            lemma_collected_structs(none, statements, 0, x);
        }
        assert forall|x: &'hir Enum<'hir>| #[trigger] items.enums.contains(x) <==> exists|i: int|
            0 <= i < statements.len() && item_kind(#[trigger] statements[i]) == Some(
                ItemKind::Enum(x),
            ) by {
            lemma_collected_enums(none, statements, 0, x);
        }
        assert forall|x: &'hir Const<'hir>| #[trigger] items.constants.contains(x) <==> exists|i: int|
            0 <= i < statements.len() && item_kind(#[trigger] statements[i]) == Some(
                ItemKind::Const(x),
            ) by {
            lemma_collected_constants(none, statements, 0, x);
        }
        assert forall|x: &'hir Interface<'hir>| #[trigger] items.interfaces.contains(x) <==> exists|i: int|
            0 <= i < statements.len() && item_kind(#[trigger] statements[i]) == Some(
                ItemKind::Interface(x),
            ) by {
            lemma_collected_interfaces(none, statements, 0, x);
        }
        assert forall|x: &'hir Impl<'hir>| #[trigger] items.impls.contains(x) <==> exists|i: int|
            0 <= i < statements.len() && item_kind(#[trigger] statements[i]) == Some(
                ItemKind::Impl(x),
            ) by {
            lemma_collected_impls(none, statements, 0, x);
        }
        assert forall|x: &'hir UseDecl<'hir>| #[trigger] items.uses.contains(x) <==> exists|i: int|
            0 <= i < statements.len() && item_kind(#[trigger] statements[i]) == Some(
                ItemKind::Use(x),
            ) by {
            lemma_collected_uses(none, statements, 0, x);
        }
    }
}

proof fn lemma_only_items<'hir>(items: Items<'hir>, statements: Seq<Statement<'hir>>, at: nat)
    ensures
        match items.collect(statements, at) {
            Err(error) => error.kind == HirErrorKind::<Seq<char>>::TopLevelNonFunction && exists|i: int|
                at <= i < statements.len() && item_kind(#[trigger] statements[i]) is None,
            Ok(_) => forall|i: int|
                at <= i < statements.len() ==> item_kind(#[trigger] statements[i]) is Some,
        },
    decreases statements.len() - at,
{
    if at < statements.len() {
        match statements[at as int] {
            Statement::Item(item) => {
                lemma_only_items(items.add_item(item), statements, at + 1);
            },
            _ => {
                assert(item_kind(statements[at as int]) is None);
            },
        }
    }
}

/// The functions of a module are its free functions and the methods of its `impl` blocks.
pub proof fn lemma_all_functions<'hir>(items: Items<'hir>, x: &'hir Function<'hir>)
    ensures
        items.all_functions().contains(x) <==> items.functions.contains(x) || exists|i: int|
            0 <= i < items.impls.len() && (#[trigger] items.impls[i]).methods@.contains(x),
{
    lemma_methods(items.impls, x);
    lemma_joined(items.functions, methods_of(items.impls), x);
}

proof fn lemma_joined<T>(a: Seq<T>, b: Seq<T>, x: T)
    ensures
        (a + b).contains(x) <==> a.contains(x) || b.contains(x),
{
    if a.contains(x) {
        let i = choose|i: int| 0 <= i < a.len() && a[i] == x;
        assert((a + b)[i] == x);
    }
    if b.contains(x) {
        let i = choose|i: int| 0 <= i < b.len() && b[i] == x;
        assert((a + b)[a.len() + i] == x);
    }
    if (a + b).contains(x) {
        let i = choose|i: int| 0 <= i < (a + b).len() && (a + b)[i] == x;
        if i < a.len() {
            assert(a[i] == x);
        } else {
            assert(b[i - a.len()] == x);
        }
    }
}

proof fn lemma_methods<'hir>(impls: Seq<&'hir Impl<'hir>>, x: &'hir Function<'hir>)
    ensures
        methods_of(impls).contains(x) <==> exists|i: int|
            0 <= i < impls.len() && (#[trigger] impls[i]).methods@.contains(x),
    decreases impls.len(),
{
    if impls.len() > 0 {
        let rest = impls.drop_last();
        lemma_methods(rest, x);
        lemma_joined(methods_of(rest), impls.last().methods@, x);
        if methods_of(rest).contains(x) {
            let i = choose|i: int|
                0 <= i < rest.len() && (#[trigger] rest[i]).methods@.contains(x);
            assert(impls[i].methods@.contains(x));
        }
        if impls.last().methods@.contains(x) {
            assert(impls[impls.len() - 1].methods@.contains(x));
        }
        if exists|i: int| 0 <= i < impls.len() && (#[trigger] impls[i]).methods@.contains(x) {
            let i = choose|i: int|
                0 <= i < impls.len() && (#[trigger] impls[i]).methods@.contains(x);
            if i < impls.len() - 1 {
                assert(rest[i].methods@.contains(x));
            }
        }
    }
}

/// What an implementor gets from an interface: each method with a default body that it does not
/// define itself, with that body, those parameters and that result; and nothing else.
pub proof fn lemma_default_methods<'hir>(
    methods: Seq<ast::InterfaceMethod<'hir>>,
    own: Seq<&'hir Function<'hir>>,
    owner: &'hir str,
    at: int,
)
    requires
        0 <= at,
    ensures
        forall|i: int|
            at <= i < methods.len() && (#[trigger] methods[i]).default is Some && !has_method(
                own,
                methods[i].name@,
            ) ==> exists|k: int|
                0 <= k < defaults(methods, own, owner, at).len() && is_default(
                    methods[i],
                    *#[trigger] defaults(methods, own, owner, at)[k],
                    owner,
                ),
        forall|k: int|
            0 <= k < defaults(methods, own, owner, at).len() ==> exists|i: int|
                at <= i < methods.len() && !has_method(own, (#[trigger] methods[i]).name@)
                    && is_default(methods[i], *#[trigger] defaults(methods, own, owner, at)[k], owner),
    decreases methods.len() - at,
{
    if at < methods.len() {
        lemma_default_methods(methods, own, owner, at + 1);
        let rest = defaults(methods, own, owner, at + 1);
        let all = defaults(methods, own, owner, at);
        let adds = methods[at].default is Some && !has_method(own, methods[at].name@);
        let shift = if adds {
            1int
        } else {
            0
        };
        assert forall|k: int| 0 <= k < rest.len() implies #[trigger] rest[k] == all[k + shift] by {}
        assert forall|i: int|
            at <= i < methods.len() && (#[trigger] methods[i]).default is Some && !has_method(
                own,
                methods[i].name@,
            ) implies exists|k: int|
            0 <= k < all.len() && is_default(methods[i], *#[trigger] all[k], owner) by {
            if i == at {
                assert(is_default(methods[i], *all[0], owner));
            } else {
                let k = choose|k: int|
                    0 <= k < rest.len() && is_default(methods[i], *#[trigger] rest[k], owner);
                assert(is_default(methods[i], *all[k + shift], owner));
            }
        }
        assert forall|k: int| 0 <= k < all.len() implies exists|i: int|
            at <= i < methods.len() && !has_method(own, (#[trigger] methods[i]).name@)
                && is_default(methods[i], *#[trigger] all[k], owner) by {
            if adds && k == 0 {
                assert(is_default(methods[at], *all[k], owner));
            } else {
                let before = k - shift;
                assert(rest[before] == all[k]);
                let i = choose|i: int|
                    at + 1 <= i < methods.len() && !has_method(own, (#[trigger] methods[i]).name@)
                        && is_default(methods[i], *#[trigger] rest[before], owner);
                assert(is_default(methods[i], *all[k], owner));
            }
        }
    }
}

/// Whether a method is what an interface gives to a type by default.
pub open spec fn is_default<'hir>(
    method: ast::InterfaceMethod<'hir>,
    given: Function<'hir>,
    owner: &'hir str,
) -> bool {
    &&& method.default == Some(given.body)
    &&& given.name == method.name
    &&& given.params == method.params
    &&& given.return_type == method.return_type
    &&& given.receiver == method.receiver
    &&& given.generics == method.generics
    &&& given.impl_type == Some(owner)
}

} // verus!
