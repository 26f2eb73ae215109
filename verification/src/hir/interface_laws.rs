//! What the validation of interfaces accepts, said without the order it works in: an `impl` block
//! passes exactly when it provides what its interface asks for.

use crate::ast::{Impl, Interface};
use crate::hir::declarations::Items;
use crate::hir::error::HirErrorKind;
use crate::hir::interfaces::{method_named, params_match, required_type, subst_table};
use crate::hir::scope::{FunctionSignature, InterfaceMethodSignature, InterfaceSignature, Names};
use crate::hir::symbols::{symbol_of, SymbolId};
use crate::hir::table::lookup;
use crate::hir::types::Type;
use vstd::prelude::*;

verus! {

/// A method with this signature is what the interface asks for.
pub open spec fn meets<'hir>(
    signature: FunctionSignature<'hir>,
    has_receiver: bool,
    required: InterfaceMethodSignature<'hir>,
    table: Seq<Type>,
    receiver: Type,
) -> bool {
    &&& has_receiver == required.has_receiver
    &&& required.has_receiver ==> signature.receiver_mutable_spec() == required.receiver_mut
    &&& params_match(required.params@, signature.explicit_params_spec(), table, receiver)
    &&& signature.return_type == required_type(required.return_type, table, receiver)
}

impl<'hir> Names<'hir> {
    /// The `impl` block has the method, and its signature is what the interface asks for.
    pub open spec fn provides(
        self,
        implementation: Impl<'hir>,
        required: InterfaceMethodSignature<'hir>,
        table: Seq<Type>,
        receiver: Type,
    ) -> bool {
        let methods = implementation.methods@;
        match method_named(methods, self.name(required.name), methods.len() as int) {
            None => false,
            Some(method) => match self.function_id(
                *method,
                Some(implementation.name@),
                HirErrorKind::UnknownFunction { name: method.name@ },
            ) {
                Err(_) => false,
                Ok(id) => self.signature(id) matches Some(signature) && meets(
                    signature,
                    method.receiver is Some,
                    required,
                    table,
                    receiver,
                ),
            },
        }
    }

    /// The receiver implements all superinterfaces, and the `impl` block provides all methods.
    pub open spec fn fulfils(
        self,
        implementation: Impl<'hir>,
        interface: InterfaceSignature<'hir>,
        table: Seq<Type>,
        receiver: Type,
    ) -> bool {
        &&& forall|i: int|
            0 <= i < interface.superinterfaces@.len() ==> {
                let symbol = #[trigger] interface.superinterfaces@[i];
                &&& self.interfaces.contains_key(symbol.0)
                &&& self.interface_impls.contains((receiver, symbol))
            }
        &&& forall|i: int|
            0 <= i < interface.methods@.len() ==> self.provides(
                implementation,
                #[trigger] interface.methods@[i],
                table,
                receiver,
            )
    }

    /// An `impl` block that names an interface satisfies it.
    pub open spec fn honours(self, implementation: Impl<'hir>) -> bool {
        match implementation.interface {
            None => true,
            Some(name) => {
                let (names, symbol) = self.insert(name@);
                match lookup(names.interfaces, symbol.0) {
                    None => false,
                    Some(interface) => match names.lookup_named_type(implementation.name@) {
                        None => true,
                        Some(receiver) => match names.concrete_args(
                            implementation,
                            interface,
                            receiver,
                        ) {
                            (_, Err(_)) => false,
                            (names, Ok(args)) => names.fulfils(
                                implementation,
                                interface,
                                subst_table(args, interface.generic_params@.len()),
                                receiver,
                            ),
                        },
                    },
                }
            },
        }
    }

    /// The names once the first `count` of the `impl` blocks are validated.
    pub open spec fn after_impls(self, impls: Seq<&'hir Impl<'hir>>, count: nat) -> Names<'hir>
        decreases count,
    {
        if count == 0 {
            self
        } else {
            let before = self.after_impls(impls, (count - 1) as nat);
            before.validate_impl(*impls[count - 1]).0
        }
    }

    /// An interface with this name is declared.
    pub open spec fn declares(self, name: Seq<char>) -> bool {
        symbol_of(self.symbols, name) matches Some(symbol) && self.interfaces.contains_key(
            symbol.0,
        )
    }

    /// All superinterfaces that an interface names are declared.
    pub open spec fn rooted(self, interface: Interface<'hir>) -> bool {
        forall|i: int|
            0 <= i < interface.superinterfaces@.len() ==> self.declares(
                (#[trigger] interface.superinterfaces@[i])@,
            )
    }

    /// Interfaces are declared under names that are interned once.
    pub open spec fn interned(self) -> bool {
        &&& self.symbols.no_duplicates()
        &&& forall|key: usize| #[trigger]
            self.interfaces.contains_key(key) ==> key < self.symbols.len()
    }
}

proof fn lemma_superinterfaces<'hir>(
    names: Names<'hir>,
    implementation: Impl<'hir>,
    interface_name: Seq<char>,
    required: Seq<SymbolId>,
    receiver: Type,
    at: nat,
)
    ensures
        names.check_superinterfaces(
            implementation,
            interface_name,
            required,
            receiver,
            at,
        ) is Ok <==> forall|i: int|
            at <= i < required.len() ==> {
                let symbol = #[trigger] required[i];
                &&& names.interfaces.contains_key(symbol.0)
                &&& names.interface_impls.contains((receiver, symbol))
            },
    decreases required.len() - at,
{
    if at < required.len() {
        let symbol = required[at as int];
        lemma_superinterfaces(
            names,
            implementation,
            interface_name,
            required,
            receiver,
            at + 1,
        );
    }
}

proof fn lemma_method<'hir>(
    names: Names<'hir>,
    implementation: Impl<'hir>,
    interface_name: Seq<char>,
    required: InterfaceMethodSignature<'hir>,
    table: Seq<Type>,
    receiver: Type,
)
    ensures
        names.check_method(implementation, interface_name, required, table, receiver) is Ok
            <==> names.provides(implementation, required, table, receiver),
{
}

proof fn lemma_methods<'hir>(
    names: Names<'hir>,
    implementation: Impl<'hir>,
    interface_name: Seq<char>,
    required: Seq<InterfaceMethodSignature<'hir>>,
    table: Seq<Type>,
    receiver: Type,
    at: nat,
)
    ensures
        names.check_methods(
            implementation,
            interface_name,
            required,
            table,
            receiver,
            at,
        ) is Ok <==> forall|i: int|
            at <= i < required.len() ==> names.provides(
                implementation,
                #[trigger] required[i],
                table,
                receiver,
            ),
    decreases required.len() - at,
{
    if at < required.len() {
        lemma_method(
            names,
            implementation,
            interface_name,
            required[at as int],
            table,
            receiver,
        );
        lemma_methods(
            names,
            implementation,
            interface_name,
            required,
            table,
            receiver,
            at + 1,
        );
    }
}

/// An `impl` block passes exactly when it honours the interface it names.
pub proof fn lemma_impl_honours<'hir>(names: Names<'hir>, implementation: Impl<'hir>)
    ensures
        names.validate_impl(implementation).1 is Ok <==> names.honours(implementation),
{
    if let Some(name) = implementation.interface {
        let (inserted, symbol) = names.insert(name@);
        if let Some(interface) = lookup(inserted.interfaces, symbol.0) {
            if let Some(receiver) = inserted.lookup_named_type(implementation.name@) {
                let (after, outcome) = inserted.concrete_args(implementation, interface, receiver);
                if let Ok(args) = outcome {
                    let table = subst_table(args, interface.generic_params@.len());
                    lemma_superinterfaces(
                        after,
                        implementation,
                        name@,
                        interface.superinterfaces@,
                        receiver,
                        0,
                    );
                    lemma_methods(
                        after,
                        implementation,
                        name@,
                        interface.methods@,
                        table,
                        receiver,
                        0,
                    );
                }
            }
        }
    }
}

proof fn lemma_impls<'hir>(names: Names<'hir>, impls: Seq<&'hir Impl<'hir>>, at: nat)
    requires
        at <= impls.len(),
    ensures
        names.after_impls(impls, at).validate_impls(impls, at).1 is Ok <==> forall|i: int|
            at <= i < impls.len() ==> names.after_impls(impls, i as nat).honours(
                *#[trigger] impls[i],
            ),
    decreases impls.len() - at,
{
    if at < impls.len() {
        let now = names.after_impls(impls, at);
        lemma_impl_honours(now, *impls[at as int]);
        assert(names.after_impls(impls, at + 1) == now.validate_impl(*impls[at as int]).0);
        lemma_impls(names, impls, at + 1);
    }
}

proof fn lemma_declares_kept<'hir>(names: Names<'hir>, name: Seq<char>, other: Seq<char>)
    requires
        names.interned(),
        names.symbols.len() < usize::MAX,
    ensures
        ({
            let (after, symbol) = names.insert(name);
            &&& after.symbols.no_duplicates()
            &&& after.interfaces == names.interfaces
            &&& after.symbols.len() >= names.symbols.len()
            &&& after.interfaces.contains_key(symbol.0) <==> names.declares(name)
            &&& after.declares(other) <==> names.declares(other)
        }),
{
    let (after, symbol) = names.insert(name);
    if names.symbols.contains(name) {
    } else {
        assert(after.symbols == names.symbols.push(name));
        assert(after.symbols[names.symbols.len() as int] == name);
        if names.symbols.contains(other) {
            let index = names.symbols.index_of(other);
            assert(after.symbols[index] == other);
        } else if other != name {
            assert(!after.symbols.contains(other));
        }
    }
}

proof fn lemma_supers_grow<'hir>(names: Names<'hir>, interface: Interface<'hir>, at: nat)
    ensures
        names.validate_supers(interface, at).0.symbols.len() >= names.symbols.len(),
    decreases interface.superinterfaces@.len() - at,
{
    if at < interface.superinterfaces@.len() {
        let inserted = names.insert(interface.superinterfaces@[at as int]@).0;
        lemma_supers_grow(inserted, interface, at + 1);
    }
}

proof fn lemma_hierarchy_grow<'hir>(
    names: Names<'hir>,
    interfaces: Seq<&'hir Interface<'hir>>,
    at: nat,
)
    ensures
        names.validate_hierarchy(interfaces, at).0.symbols.len() >= names.symbols.len(),
    decreases interfaces.len() - at,
{
    if at < interfaces.len() {
        lemma_supers_grow(names, *interfaces[at as int], 0);
        lemma_hierarchy_grow(
            names.validate_supers(*interfaces[at as int], 0).0,
            interfaces,
            at + 1,
        );
    }
}

/// The same interfaces are declared before and after.
spec fn same_declared<'hir>(before: Names<'hir>, after: Names<'hir>) -> bool {
    &&& after.interned()
    &&& forall|name: Seq<char>| before.declares(name) <==> #[trigger] after.declares(name)
}

proof fn lemma_supers<'hir>(names: Names<'hir>, interface: Interface<'hir>, at: nat)
    requires
        names.interned(),
        names.validate_supers(interface, at).0.symbols.len() < usize::MAX,
    ensures
        same_declared(names, names.validate_supers(interface, at).0),
        names.validate_supers(interface, at).1 is Ok <==> forall|i: int|
            at <= i < interface.superinterfaces@.len() ==> names.declares(
                (#[trigger] interface.superinterfaces@[i])@,
            ),
    decreases interface.superinterfaces@.len() - at,
{
    if at < interface.superinterfaces@.len() {
        let name = interface.superinterfaces@[at as int]@;
        let (inserted, symbol) = names.insert(name);
        lemma_supers_grow(inserted, interface, at + 1);
        assert(names.symbols.len() < usize::MAX);
        assert forall|other: Seq<char>| names.declares(other) <==> #[trigger] inserted.declares(
            other,
        ) by {
            lemma_declares_kept(names, name, other);
        }
        lemma_declares_kept(names, name, name);
        assert(inserted.interned());
        if inserted.interfaces.contains_key(symbol.0) {
            lemma_supers(inserted, interface, at + 1);
            let after = inserted.validate_supers(interface, at + 1).0;
            assert forall|other: Seq<char>| names.declares(other) <==> #[trigger] after.declares(
                other,
            ) by {
                assert(names.declares(other) <==> inserted.declares(other));
            }
            assert forall|i: int| at + 1 <= i < interface.superinterfaces@.len() implies (
            inserted.declares((#[trigger] interface.superinterfaces@[i])@) <==> names.declares(
                interface.superinterfaces@[i]@,
            )) by {}
        }
    }
}

proof fn lemma_hierarchy<'hir>(
    names: Names<'hir>,
    interfaces: Seq<&'hir Interface<'hir>>,
    at: nat,
)
    requires
        names.interned(),
        names.validate_hierarchy(interfaces, at).0.symbols.len() < usize::MAX,
    ensures
        names.validate_hierarchy(interfaces, at).1 is Ok <==> forall|i: int|
            at <= i < interfaces.len() ==> names.rooted(*#[trigger] interfaces[i]),
    decreases interfaces.len() - at,
{
    if at < interfaces.len() {
        let interface = *interfaces[at as int];
        let (after, outcome) = names.validate_supers(interface, 0);
        if outcome is Ok {
            lemma_hierarchy_grow(after, interfaces, at + 1);
        }
        lemma_supers(names, interface, 0);
        if outcome is Ok {
            lemma_hierarchy(after, interfaces, at + 1);
            assert forall|i: int| at + 1 <= i < interfaces.len() implies (after.rooted(
                *#[trigger] interfaces[i],
            ) <==> names.rooted(*interfaces[i])) by {
                lemma_rooted(names, after, *interfaces[i]);
            }
        }
    }
}

proof fn lemma_rooted<'hir>(before: Names<'hir>, after: Names<'hir>, interface: Interface<'hir>)
    requires
        same_declared(before, after),
    ensures
        after.rooted(interface) <==> before.rooted(interface),
{
    assert forall|i: int| 0 <= i < interface.superinterfaces@.len() implies (after.declares(
        (#[trigger] interface.superinterfaces@[i])@,
    ) <==> before.declares(interface.superinterfaces@[i]@)) by {}
}

/// A module passes exactly when every `impl` block honours the interface it names and every
/// superinterface that an interface names is declared.
pub proof fn lemma_validated<'hir>(names: Names<'hir>, items: Items<'hir>)
    requires
        names.after_impls(items.impls, items.impls.len()).interned(),
        names.validate(items).0.symbols.len() < usize::MAX,
    ensures
        names.validate(items).1 is Ok <==> {
            &&& forall|i: int|
                0 <= i < items.impls.len() ==> names.after_impls(items.impls, i as nat).honours(
                    *#[trigger] items.impls[i],
                )
            &&& forall|i: int|
                0 <= i < items.interfaces.len() ==> names.after_impls(
                    items.impls,
                    items.impls.len(),
                ).rooted(*#[trigger] items.interfaces[i])
        },
{
    let last = names.after_impls(items.impls, items.impls.len());
    lemma_impls(names, items.impls, 0);
    if names.validate_impls(items.impls, 0).1 is Ok {
        lemma_last(names, items.impls, 0);
        lemma_hierarchy(last, items.interfaces, 0);
    }
}

proof fn lemma_last<'hir>(names: Names<'hir>, impls: Seq<&'hir Impl<'hir>>, at: nat)
    requires
        at <= impls.len(),
        names.after_impls(impls, at).validate_impls(impls, at).1 is Ok,
    ensures
        names.after_impls(impls, at).validate_impls(impls, at).0 == names.after_impls(
            impls,
            impls.len(),
        ),
    decreases impls.len() - at,
{
    if at < impls.len() {
        let now = names.after_impls(impls, at);
        assert(names.after_impls(impls, at + 1) == now.validate_impl(*impls[at as int]).0);
        lemma_last(names, impls, at + 1);
    }
}

} // verus!
