//! What stays when a namespace is extended: the items that were there, and the instances that
//! were made.

use crate::ast;
use crate::ast::{no_span, Span};
use crate::hir::declarations::Items;
use crate::hir::growth::{
    carries, extends, kept, lemma_carries_same, lemma_carries_trans, preserved, Catalog,
};
use crate::hir::mono_laws::templates_declared;
use crate::hir::scope::{empty_names, Names};
use crate::hir::symbols::{lemma_intern_stable, SymbolId};
use crate::hir::tree::{FunctionId, FunctionTree};
use crate::hir::type_resolver::{enum_repr, substitution, ResolveCtx};
use crate::hir::types::{Type, TypeKind};
use vstd::prelude::*;

verus! {

/// A namespace keeps itself.
proof fn lemma_kept_self<'hir>(catalog: Catalog<'hir>)
    requires
        catalog.sound(),
    ensures
        kept(catalog, catalog),
{
    reveal(kept);
}

/// An empty namespace is as the laws below ask for.
pub proof fn lemma_empty_sound<'hir>(module: Seq<char>)
    ensures
        empty_names::<'hir>(module).catalog().sound(),
        empty_names::<'hir>(module).catalog().numbered(),
        empty_names::<'hir>(module).symbols.no_duplicates(),
{
}

/// Extending the namespace by a module leaves all that was there as it was: symbols, signatures,
/// structs with their fields, enums with their variants, and what names, functions and methods
/// stand for. A function's full name can only come to stand for something else where a static
/// method of an instance that the module makes has that very name. Structs and enums have their
/// positions as ids, so the ids of different modules never collide. What held of the namespace
/// for this to be so holds of it again, for the next module.
pub proof fn lemma_extend_preserves<'hir>(names: Names<'hir>, items: Items<'hir>)
    requires
        names.catalog().sound(),
        names.extend(items).0.catalog().fits(),
    ensures
        preserved(names.catalog(), names.extend(items).0.catalog()),
        names.catalog().numbered() ==> names.extend(items).0.catalog().numbered(),
        names.extend(items).0.catalog().sound(),
        names.symbols.no_duplicates() ==> names.extend(items).0.symbols.no_duplicates(),
{
    let before = names.catalog();
    let after = names.extend(items).0.catalog();
    lemma_kept_self(before);
    names.lemma_extend_grows(items);
    assert(kept(before, after)) by {
        reveal(carries);
    }
    reveal(kept);
    if before.numbered() {
        assert forall|i: int| 0 <= i < after.structs.len() implies (
        #[trigger] after.structs[i]).id.0 == i by {
            if i < before.structs.len() {
                assert(after.structs[i] == before.structs[i]);
            }
        }
        assert forall|i: int| 0 <= i < after.enums.len() implies (
        #[trigger] after.enums[i]).id.0 == i by {
            if i < before.enums.len() {
                assert(after.enums[i] == before.enums[i]);
            }
        }
    }
}

/// Lowering functions leaves all that was there as it was, too.
pub proof fn lemma_lower_functions_preserves<'hir>(
    names: Names<'hir>,
    functions: Seq<&'hir ast::Function<'hir>>,
    at: nat,
    demand: Option<Seq<FunctionId>>,
    done: Seq<FunctionId>,
    lowered: Seq<FunctionTree<'hir>>,
)
    requires
        names.catalog().sound(),
        names.lower_functions(functions, at, demand, done, lowered).0.catalog().fits(),
    ensures
        ({
            let after = names.lower_functions(functions, at, demand, done, lowered).0;
            preserved(names.catalog(), after.catalog()) && after.catalog().sound()
        }),
{
    lemma_kept_self(names.catalog());
    names.lemma_lower_functions_grows(functions, at, demand, done, lowered);
    reveal(carries);
    reveal(kept);
}

/// In a namespace as the laws above leave it, only functions that have a signature are templates.
/// If symbols are interned once, so are the names of interfaces, and validating `impl` blocks
/// leaves it so.
pub proof fn lemma_sound_names<'hir>(
    names: Names<'hir>,
    impls: Seq<&'hir ast::Impl<'hir>>,
    count: nat,
)
    requires
        names.catalog().sound(),
        names.symbols.no_duplicates(),
        names.after_impls(impls, count).catalog().fits(),
    ensures
        templates_declared(names),
        names.after_impls(impls, count).interned(),
{
    let after = names.after_impls(impls, count);
    assert forall|id: u32| #[trigger] names.generic_fns.contains_key(id) implies id
        < names.signatures.len() by {
        assert(names.catalog().templates.contains_key(id));
    }
    names.lemma_impls_carry(impls, count);
    lemma_kept_self(names.catalog());
    assert(kept(names.catalog(), after.catalog())) by {
        reveal(carries);
    }
    reveal(kept);
    assert forall|key: usize| #[trigger] after.interfaces.contains_key(key) implies key
        < after.symbols.len() by {
        assert(after.catalog().interfaces.contains_key(key));
    }
}

impl<'hir> Names<'hir> {
    /// Whether a struct or enum is there.
    pub open spec fn knows_nominal(self, typ: Type) -> bool {
        match typ.kind() {
            TypeKind::Struct(id) => id.0 < self.structs.len(),
            TypeKind::Enum(id) => id.0 < self.enums.len(),
            _ => true,
        }
    }

    /// Whether the struct or enum that a type speaks of is there.
    pub open spec fn knows_type(self, typ: Type) -> bool {
        match typ.kind() {
            TypeKind::Ref { to, .. } => self.knows_nominal(Type::from_target(to)),
            TypeKind::Slice { element, .. } => self.knows_nominal(Type::from_target(element)),
            _ => self.knows_nominal(typ),
        }
    }

    /// The name of an instance stays what it is while the namespace grows.
    pub proof fn lemma_mangled_stable(self, after: Names<'hir>, base: Seq<char>, args: Seq<Type>)
        requires
            extends(self.ledger(), after.ledger()),
            self.catalog().sound(),
            forall|i: int| 0 <= i < args.len() ==> self.knows_type(#[trigger] args[i]),
        ensures
            after.mangle_generic(base, args) == self.mangle_generic(base, args),
        decreases args.len(),
    {
        if args.len() > 0 {
            let front = args.drop_last();
            assert forall|i: int| 0 <= i < front.len() implies self.knows_type(
                #[trigger] front[i],
            ) by {
                assert(front[i] == args[i]);
            }
            self.lemma_mangled_stable(after, base, front);
            let typ = args.last();
            match typ.kind() {
                TypeKind::Ref { to, .. } => {
                    self.lemma_component_stable(after, Type::from_target(to));
                },
                TypeKind::Slice { element, .. } => {
                    self.lemma_component_stable(after, Type::from_target(element));
                },
                _ => {
                    self.lemma_component_stable(after, typ);
                },
            }
        }
    }

    /// Validating `impl` blocks keeps what was kept before.
    proof fn lemma_impls_carry(self, impls: Seq<&'hir ast::Impl<'hir>>, count: nat)
        ensures
            carries(self.catalog(), self.after_impls(impls, count).catalog()),
        decreases count,
    {
        broadcast use {lemma_carries_same, lemma_carries_trans};

        if count > 0 {
            self.lemma_impls_carry(impls, (count - 1) as nat);
            let before = self.after_impls(impls, (count - 1) as nat);
            before.lemma_validate_impl_grows(*impls[count - 1]);
        }
    }

    proof fn lemma_component_stable(self, after: Names<'hir>, typ: Type)
        requires
            extends(self.ledger(), after.ledger()),
            self.catalog().sound(),
            self.knows_nominal(typ),
        ensures
            after.plain_component(typ) == self.plain_component(typ),
    {
        reveal(extends);
        match typ.kind() {
            TypeKind::Struct(id) => {
                let name = self.structs[id.0 as int].name;
                assert(self.catalog().structs[id.0 as int].name == name);
                assert(after.structs[id.0 as int].name == name);
                assert(after.symbols[name.0 as int] == self.symbols[name.0 as int]);
            },
            TypeKind::Enum(id) => {
                let name = self.enums[id.0 as int].name;
                assert(self.catalog().enums[id.0 as int].name == name);
                assert(after.enums[id.0 as int].name == name);
                assert(after.symbols[name.0 as int] == self.symbols[name.0 as int]);
            },
            _ => {},
        }
    }

    proof fn lemma_struct_made(
        self,
        template: ast::Struct<'hir>,
        instance: SymbolId,
        args: Seq<Type>,
        span: Span,
        fuel: nat,
    )
        requires
            self.catalog().sound(),
            self.nominal_type(instance) is None,
            instance.0 < self.symbols.len(),
            self.instantiate_struct(template, instance, args, span, fuel).0.catalog().fits(),
            self.instantiate_struct(template, instance, args, span, fuel).1 is Ok,
        ensures
            ({
                let (after, outcome) = self.instantiate_struct(template, instance, args, span, fuel);
                after.nominal_type(instance) == Some(outcome->Ok_0)
            }),
    {
        let (after, outcome) = self.instantiate_struct(template, instance, args, span, fuel);
        let (named, generics) = self.declared_names(template.generics@, args);
        let (declared, id) = named.declare_struct(instance, no_span(), template.repr, generics);
        let ctx = ResolveCtx::items_spec(None, substitution(template.generics@, args));
        let (mid, lowered) = declared.instance_fields(template.fields@, 0, seq![], ctx, fuel);
        let filled = mid.set_fields(self.structs.len() as int, lowered->Ok_0);
        let receiver = Type::structure(id);
        self.lemma_insert_generics_same(template.generics@, 0, seq![]);
        self.lemma_declared_names_grows(template.generics@, args);
        named.lemma_declare_struct_grows(instance, no_span(), template.repr, generics);
        declared.lemma_instance_fields_grows(template.fields@, 0, seq![], ctx, fuel);
        mid.lemma_set_fields_grows(self.structs.len() as int, lowered->Ok_0);
        filled.lemma_specialize_impls_grows(
            filled.generic_impls,
            0,
            template.name@,
            instance,
            receiver,
            args,
            fuel,
        );
        assert(declared.catalog().fits()) by {
            reveal(extends);
        }
        Type::lemma_round_trip(TypeKind::Struct(id));
        let base = Catalog { structs: self.structs, ..declared.catalog() };
        lemma_kept_self(self.catalog());
        assert(kept(base, declared.catalog())) by {
            reveal(carries);
            assert(kept(self.catalog(), named.catalog()));
            reveal(extends);
            assert(kept(self.catalog(), declared.catalog()));
            reveal(kept);
        }
        assert(kept(base, after.catalog())) by {
            reveal(carries);
        }
        reveal(kept);
        assert(base.struct_map.contains_key(instance.0));
        assert(after.catalog().struct_map.contains_key(instance.0));
    }

    proof fn lemma_enum_made(
        self,
        template: ast::Enum<'hir>,
        instance: SymbolId,
        args: Seq<Type>,
        span: Span,
        fuel: nat,
    )
        requires
            self.catalog().sound(),
            self.nominal_type(instance) is None,
            instance.0 < self.symbols.len(),
            self.instantiate_enum(template, instance, args, span, fuel).0.catalog().fits(),
            self.instantiate_enum(template, instance, args, span, fuel).1 is Ok,
        ensures
            ({
                let (after, outcome) = self.instantiate_enum(template, instance, args, span, fuel);
                after.nominal_type(instance) == Some(outcome->Ok_0)
            }),
    {
        let (after, outcome) = self.instantiate_enum(template, instance, args, span, fuel);
        let repr = enum_repr(template.repr, template.variants@)->Ok_0;
        let (named, generics) = self.declared_names(template.generics@, args);
        let (declared, id) = named.declare_enum(instance, repr, no_span(), generics);
        let ctx = ResolveCtx::items_spec(None, substitution(template.generics@, args));
        let (mid, lowered) = declared.instance_variants(
            template.variants@,
            0,
            instance,
            id,
            0,
            seq![],
            seq![],
            ctx,
            fuel,
        );
        let filled = mid.set_variants(self.enums.len() as int, lowered->Ok_0);
        let receiver = Type::enumerable(id);
        self.lemma_insert_generics_same(template.generics@, 0, seq![]);
        self.lemma_declared_names_grows(template.generics@, args);
        named.lemma_declare_enum_grows(instance, repr, no_span(), generics);
        declared.lemma_instance_variants_grows(
            template.variants@,
            0,
            instance,
            id,
            0,
            seq![],
            seq![],
            ctx,
            fuel,
        );
        mid.lemma_set_variants_grows(self.enums.len() as int, lowered->Ok_0);
        filled.lemma_specialize_impls_grows(
            filled.generic_impls,
            0,
            template.name@,
            instance,
            receiver,
            args,
            fuel,
        );
        assert(declared.catalog().fits()) by {
            reveal(extends);
        }
        Type::lemma_round_trip(TypeKind::Enum(id));
        let base = Catalog { enums: self.enums, ..declared.catalog() };
        lemma_kept_self(self.catalog());
        assert(kept(base, declared.catalog())) by {
            reveal(carries);
            assert(kept(self.catalog(), named.catalog()));
            reveal(extends);
            assert(kept(self.catalog(), declared.catalog()));
            reveal(kept);
        }
        assert(kept(base, after.catalog())) by {
            reveal(carries);
        }
        reveal(kept);
        assert(base.enum_map.contains_key(instance.0));
        assert(after.catalog().enum_map.contains_key(instance.0));
        assert(!after.catalog().struct_map.contains_key(instance.0));
    }
}

/// An instance is made once: asked for again, wherever that is, the same template with the same
/// arguments gives the same type, and the namespace stays as it is.
pub proof fn lemma_instantiated_once<'hir>(
    names: Names<'hir>,
    name: Seq<char>,
    args: Seq<Type>,
    first: Span,
    second: Span,
    fuel: nat,
    again: nat,
)
    requires
        names.catalog().sound(),
        names.symbols.no_duplicates(),
        forall|i: int| 0 <= i < args.len() ==> names.knows_type(#[trigger] args[i]),
        names.instantiate_generic(name, args, first, fuel).0.catalog().fits(),
        names.instantiate_generic(name, args, first, fuel).0.symbols.len() < usize::MAX,
        names.instantiate_generic(name, args, first, fuel).1 is Ok,
    ensures
        ({
            let (after, outcome) = names.instantiate_generic(name, args, first, fuel);
            after.instantiate_generic(name, args, second, again) == (after, outcome)
        }),
{
    let (after, outcome) = names.instantiate_generic(name, args, first, fuel);
    let full = names.mangle_generic(name, args);
    let (interned, instance) = names.insert(full);
    names.lemma_instantiate_generic_grows(name, args, first, fuel);
    names.lemma_insert_grows(full);
    names.lemma_mangled_stable(after, name, args);
    assert(names.symbols.len() < usize::MAX) by {
        reveal(extends);
    }
    lemma_intern_stable(names.symbols, full);
    lemma_kept_self(names.catalog());
    assert(interned.catalog().sound()) by {
        reveal(carries);
        assert(kept(names.catalog(), interned.catalog()));
        reveal(extends);
        reveal(kept);
    }
    match interned.nominal_type(instance) {
        Some(_) => {},
        None => {
            let symbol = interned.get_id(name)->Some_0;
            if interned.generic_enums.contains_key(symbol.0) {
                let template = *interned.generic_enums[symbol.0];
                interned.lemma_enum_made(template, instance, args, first, fuel);
                interned.lemma_instantiate_enum_grows(template, instance, args, first, fuel);
            } else {
                let template = *interned.generic_structs[symbol.0];
                interned.lemma_struct_made(template, instance, args, first, fuel);
                interned.lemma_instantiate_struct_grows(template, instance, args, first, fuel);
            }
        },
    }
    lemma_kept_self(interned.catalog());
    assert(kept(interned.catalog(), after.catalog())) by {
        reveal(carries);
    }
    if names.symbols.contains(full) {
        assert(0 <= names.symbols.index_of(full) < names.symbols.len());
    }
    assert(instance.0 < interned.symbols.len() && interned.symbols[instance.0 as int] == full);
    assert(after.symbols.no_duplicates() && instance.0 < after.symbols.len()
        && after.symbols[instance.0 as int] == full) by {
        reveal(kept);
    }
    assert(after.symbols.contains(full));
    let found = after.symbols.index_of(full);
    assert(after.symbols[found] == full);
    assert(found == instance.0);
    assert(after.insert(full) == (after, instance));
}

} // verus!
